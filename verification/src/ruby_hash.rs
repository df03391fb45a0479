//! The hash-literal decoder: `{"key" => value, ...}` into an ordered
//! key-value map. Keys are quoted strings; values are quoted strings,
//! integers, decimal numbers, `true`, `false` or `nil`. Quoted text may
//! not itself hold the separators (`,` and `=>`): this decoder has no
//! escapes and no nesting.

use vstd::prelude::*;

use crate::array_parse::{chars_views, first_match, lemma_first_match_bounds, split_by};
use crate::decimal::parse_float_spec;
use crate::text::parse_i64_spec;
use crate::value::{TypedValue, Val};

verus! {

// ---------- trimming ----------

pub open spec fn space_prefix_len(s: Seq<char>) -> int
    decreases s.len(),
{
    if s.len() == 0 || s[0] != ' ' {
        0
    } else {
        1 + space_prefix_len(s.skip(1))
    }
}

pub open spec fn space_suffix_len(s: Seq<char>) -> int
    decreases s.len(),
{
    if s.len() == 0 || s.last() != ' ' {
        0
    } else {
        1 + space_suffix_len(s.drop_last())
    }
}

/// The text with the surrounding spaces removed.
pub open spec fn trim_spec(s: Seq<char>) -> Seq<char> {
    let t = s.skip(space_prefix_len(s));
    t.take(t.len() - space_suffix_len(t))
}

proof fn lemma_space_prefix(s: Seq<char>, i: int)
    requires
        0 <= i <= s.len(),
        forall|j: int| 0 <= j < i ==> s[j] == ' ',
        i == s.len() || s[i] != ' ',
    ensures
        space_prefix_len(s) == i,
    decreases i,
{
    if i > 0 {
        assert(s[0] == ' ');
        let t = s.skip(1);
        assert(forall|j: int| 0 <= j < i - 1 ==> t[j] == s[j + 1]);
        if i < s.len() {
            assert(t[i - 1] == s[i as int]);
        }
        lemma_space_prefix(t, i - 1);
    }
}

proof fn lemma_space_suffix(s: Seq<char>, k: int)
    requires
        0 <= k <= s.len(),
        forall|j: int| s.len() - k <= j < s.len() ==> s[j] == ' ',
        k == s.len() || s[s.len() - k - 1] != ' ',
    ensures
        space_suffix_len(s) == k,
    decreases k,
{
    if k > 0 {
        assert(s.last() == ' ');
        let t = s.drop_last();
        assert(forall|j: int| t.len() - (k - 1) <= j < t.len() ==> t[j] == s[j]);
        if k < s.len() {
            assert(t[t.len() - (k - 1) - 1] == s[s.len() - k - 1]);
        }
        lemma_space_suffix(t, k - 1);
    }
}

/// Remove the surrounding spaces, exactly as `trim_spec` describes.
pub fn trim_chars(s: &Vec<char>) -> (r: Vec<char>)
    ensures
        r@ == trim_spec(s@),
{
    let mut lo: usize = 0;
    while lo < s.len() && s[lo] == ' '
        invariant
            0 <= lo <= s@.len(),
            forall|j: int| 0 <= j < lo ==> s@[j] == ' ',
        decreases s@.len() - lo,
    {
        lo += 1;
    }
    let mut hi: usize = s.len();
    while hi > lo && s[hi - 1] == ' '
        invariant
            lo <= hi <= s@.len(),
            forall|j: int| 0 <= j < lo ==> s@[j] == ' ',
            lo == s@.len() || s@[lo as int] != ' ' || lo == hi,
            forall|j: int| hi <= j < s@.len() ==> s@[j] == ' ',
        decreases hi,
    {
        hi -= 1;
    }
    proof {
        lemma_space_prefix(s@, lo as int);
        let t = s@.skip(lo as int);
        assert(forall|j: int| t.len() - (t.len() - (hi - lo)) <= j < t.len() ==> t[j] == ' ')
            by {
            assert(forall|j: int| hi - lo <= j < t.len() ==> t[j] == s@[j + lo]);
        }
        if hi > lo {
            assert(t[(hi - lo) - 1] == s@[hi - 1]);
        }
        lemma_space_suffix(t, t.len() - (hi - lo));
        assert(t.take(hi - lo) =~= s@.subrange(lo as int, hi as int));
    }
    let mut out: Vec<char> = Vec::new();
    crate::text::push_range(&mut out, s, lo, hi);
    out
}

// ---------- keys and values ----------

/// A quoted string's inner text: the trimmed token must begin and end
/// with the same quote, `"` or `'`.
pub open spec fn unquoted_spec(t: Seq<char>) -> Option<Seq<char>> {
    if t.len() >= 2 && (t[0] == '"' || t[0] == '\'') && t[t.len() - 1] == t[0] {
        Some(t.subrange(1, t.len() - 1))
    } else {
        None
    }
}

pub open spec fn ruby_key_spec(raw: Seq<char>) -> Option<Seq<char>> {
    unquoted_spec(trim_spec(raw))
}

/// The value a hash-literal token denotes: a quoted byte string, `true`,
/// `false`, `nil`, an integer, or a decimal number.
pub open spec fn ruby_value_spec(raw: Seq<char>) -> Option<Val> {
    let t = trim_spec(raw);
    if unquoted_spec(t) is Some {
        Some(Val::Bytes(unquoted_spec(t)->Some_0))
    } else if t == "true"@ {
        Some(Val::Boolean(true))
    } else if t == "false"@ {
        Some(Val::Boolean(false))
    } else if t == "nil"@ {
        Some(Val::Null)
    } else if parse_i64_spec(t) is Some {
        Some(Val::Integer(parse_i64_spec(t)->Some_0))
    } else if parse_float_spec(t) is Some {
        Some(Val::Float(parse_float_spec(t)->Some_0))
    } else {
        None
    }
}

fn unquote(t: &Vec<char>) -> (r: Option<Vec<char>>)
    ensures
        match r {
            Some(inner) => unquoted_spec(t@) == Some(inner@),
            None => unquoted_spec(t@) is None,
        },
{
    if t.len() >= 2 && (t[0] == '"' || t[0] == '\'') && t[t.len() - 1] == t[0] {
        let mut out: Vec<char> = Vec::new();
        let hi = t.len() - 1;
        crate::text::push_range(&mut out, t, 1, hi);
        Some(out)
    } else {
        None
    }
}

fn ruby_value(raw: &Vec<char>) -> (r: Option<TypedValue>)
    ensures
        match r {
            Some(v) => ruby_value_spec(raw@) == Some(v@) && crate::value::val_wf(v@),
            None => ruby_value_spec(raw@) is None,
        },
{
    let t = trim_chars(raw);
    match unquote(&t) {
        Some(inner) => {
            return Some(TypedValue::Bytes(inner));
        },
        None => {},
    }
    let lit_true = crate::text::str_to_chars("true");
    let lit_false = crate::text::str_to_chars("false");
    let lit_nil = crate::text::str_to_chars("nil");
    if crate::text::chars_eq(&t, &lit_true) {
        return Some(TypedValue::Boolean(true));
    }
    if crate::text::chars_eq(&t, &lit_false) {
        return Some(TypedValue::Boolean(false));
    }
    if crate::text::chars_eq(&t, &lit_nil) {
        return Some(TypedValue::Null);
    }
    match crate::text::parse_i64(&t) {
        Some(i) => {
            return Some(TypedValue::Integer(i));
        },
        None => {},
    }
    match crate::decimal::parse_float(&t) {
        Some(f) => Some(TypedValue::Float(f)),
        None => None,
    }
}

// ---------- the hash literal ----------

/// The pairs of a split hash body: each piece is `key => value`.
pub open spec fn rh_pairs(parts: Seq<Seq<char>>) -> Option<Seq<(Seq<char>, Val)>>
    decreases parts.len(),
{
    if parts.len() == 0 {
        Some(Seq::empty())
    } else {
        let p = parts[0];
        let i = first_match(p, seq!['=', '>']);
        if i < 0 {
            None
        } else {
            match ruby_key_spec(p.take(i)) {
                None => None,
                Some(k) => match ruby_value_spec(p.skip(i + 2)) {
                    None => None,
                    Some(v) => match rh_pairs(parts.skip(1)) {
                        None => None,
                        Some(rest) => Some(seq![(k, v)] + rest),
                    },
                },
            }
        }
    }
}

/// The key-value pairs a hash literal denotes: a trimmed `{`..`}` whose
/// body is split on `,`, each piece read as `key => value`; a blank body
/// has no pairs.
pub open spec fn ruby_hash_spec(s: Seq<char>) -> Option<Seq<(Seq<char>, Val)>> {
    let t = trim_spec(s);
    if t.len() >= 2 && t[0] == '{' && t[t.len() - 1] == '}' {
        let body = t.subrange(1, t.len() - 1);
        if trim_spec(body).len() == 0 {
            Some(Seq::empty())
        } else {
            rh_pairs(split_by(body, seq![',']))
        }
    } else {
        None
    }
}

/// Decode a hash literal into an ordered map value, exactly as
/// `ruby_hash_spec` describes.
pub fn parse_ruby_hash(s: &Vec<char>) -> (r: Option<TypedValue>)
    ensures
        match r {
            Some(v) => v@ is Object && ruby_hash_spec(s@) == Some(v@->Object_0)
                && crate::value::val_wf(v@),
            None => ruby_hash_spec(s@) is None,
        },
{
    let t = trim_chars(s);
    if !(t.len() >= 2 && t[0] == '{' && t[t.len() - 1] == '}') {
        return None;
    }
    let mut body: Vec<char> = Vec::new();
    let hi = t.len() - 1;
    crate::text::push_range(&mut body, &t, 1, hi);
    let btrim = trim_chars(&body);
    if btrim.len() == 0 {
        let fields: Vec<(Vec<char>, TypedValue)> = Vec::new();
        let out = TypedValue::Object(fields);
        proof {
            assert(out@->Object_0 =~= Seq::<(Seq<char>, Val)>::empty());
        }
        return Some(out);
    }
    let comma = crate::text::str_to_chars(",");
    let arrow = crate::text::str_to_chars("=>");
    proof {
        reveal_strlit(",");
        reveal_strlit("=>");
        assert(comma@ =~= seq![',']);
        assert(arrow@ =~= seq!['=', '>']);
    }
    let parts = crate::array_parse::split_chars(&body, &comma);
    let ghost pviews = chars_views(parts@);
    let mut fields: Vec<(Vec<char>, TypedValue)> = Vec::new();
    let mut i: usize = 0;
    proof {
        assert(pviews.skip(0int) =~= pviews);
        assert(ruby_hash_spec(s@) == rh_pairs(pviews));
    }
    while i < parts.len()
        invariant
            0 <= i <= parts@.len(),
            arrow@ == seq!['=', '>'],
            ruby_hash_spec(s@) == rh_pairs(pviews),
            pviews == chars_views(parts@),
            pviews.len() == parts@.len(),
            fields@.len() == i,
            rh_pairs(pviews) == (match rh_pairs(pviews.skip(i as int)) {
                None => None::<Seq<(Seq<char>, Val)>>,
                Some(rest) => Some(
                    Seq::new(
                        fields@.len(),
                        |k: int|
                            if 0 <= k < fields@.len() {
                                (fields@[k].0@, fields@[k].1.deep_val())
                            } else {
                                (Seq::empty(), Val::Null)
                            },
                    ) + rest,
                ),
            }),
            forall|k: int|
                0 <= k < i ==> crate::value::val_wf(#[trigger] fields@[k].1.deep_val()),
        decreases parts@.len() - i,
    {
        let ghost tail = pviews.skip(i as int);
        let part = &parts[i];
        proof {
            assert(pviews[i as int] == parts@[i as int]@);
            assert(tail[0] == pviews[i as int]);
            assert(tail.skip(1) =~= pviews.skip(i + 1));
            lemma_first_match_bounds(part@, seq!['=', '>']);
        }
        match crate::array_parse::find_from(part, 0, &arrow) {
            None => {
                proof {
                    assert(part@.skip(0int) =~= part@);
                    assert(rh_pairs(tail) is None);
                }
                return None;
            },
            Some(p) => {
                proof {
                    assert(part@.skip(0int) =~= part@);
                }
                let mut key_raw: Vec<char> = Vec::new();
                crate::text::push_range(&mut key_raw, part, 0, p);
                let mut val_raw: Vec<char> = Vec::new();
                let pn = part.len();
                crate::text::push_range(&mut val_raw, part, p + 2, pn);
                proof {
                    assert(key_raw@ =~= pviews[i as int].take(p as int));
                    assert(val_raw@ =~= pviews[i as int].skip(p + 2));
                }
                let tk = trim_chars(&key_raw);
                let key = match unquote(&tk) {
                    Some(k) => k,
                    None => {
                        proof {
                            assert(rh_pairs(tail) is None);
                        }
                        return None;
                    },
                };
                let value = match ruby_value(&val_raw) {
                    Some(v) => v,
                    None => {
                        proof {
                            assert(rh_pairs(tail) is None);
                        }
                        return None;
                    },
                };
                let ghost kview = key@;
                let ghost vview = value@;
                fields.push((key, value));
                proof {
                    let old_fields = fields@.drop_last();
                    assert(rh_pairs(tail) == (match rh_pairs(pviews.skip(i + 1)) {
                        None => None::<Seq<(Seq<char>, Val)>>,
                        Some(rest2) => Some(seq![(kview, vview)] + rest2),
                    }));
                    if rh_pairs(pviews.skip(i + 1)) is Some {
                        let rest2 = rh_pairs(pviews.skip(i + 1))->Some_0;
                        assert(Seq::new(
                            fields@.len(),
                            |k: int|
                                if 0 <= k < fields@.len() {
                                    (fields@[k].0@, fields@[k].1.deep_val())
                                } else {
                                    (Seq::empty(), Val::Null)
                                },
                        ) + rest2 =~= Seq::new(
                            old_fields.len(),
                            |k: int|
                                if 0 <= k < old_fields.len() {
                                    (old_fields[k].0@, old_fields[k].1.deep_val())
                                } else {
                                    (Seq::empty(), Val::Null)
                                },
                        ) + (seq![(kview, vview)] + rest2));
                    }
                }
                i += 1;
            },
        }
    }
    proof {
        assert(pviews.skip(parts@.len() as int) =~= Seq::<Seq<char>>::empty());
    }
    let out = TypedValue::Object(fields);
    proof {
        let fv = out@->Object_0;
        let built = Seq::new(
            fields@.len(),
            |k: int|
                if 0 <= k < fields@.len() {
                    (fields@[k].0@, fields@[k].1.deep_val())
                } else {
                    (Seq::empty(), Val::Null)
                },
        );
        assert(fv =~= built);
        assert(built + Seq::<(Seq<char>, Val)>::empty() =~= built);
    }
    Some(out)
}

} // verus!
