//! The query-string decoder: `a=1&b=2` into an ordered key-value map of
//! byte strings, with a leading `?` ignored.

use vstd::prelude::*;

use crate::array_parse::{chars_views, first_match, lemma_first_match_bounds, split_by};
use crate::value::{TypedValue, Val};

verus! {

/// The pairs of a split query string: every piece must hold a `=` with a
/// non-empty key before it; the value is everything after the first `=`.
pub open spec fn qs_pairs(parts: Seq<Seq<char>>) -> Option<Seq<(Seq<char>, Val)>>
    decreases parts.len(),
{
    if parts.len() == 0 {
        Some(Seq::empty())
    } else {
        let p = parts[0];
        let i = first_match(p, seq!['=']);
        if i < 1 {
            None
        } else {
            match qs_pairs(parts.skip(1)) {
                None => None,
                Some(rest) => Some(seq![(p.take(i), Val::Bytes(p.skip(i + 1)))] + rest),
            }
        }
    }
}

/// The key-value pairs a query string denotes: the text after an optional
/// leading `?`, split on `&`, each piece read as `key=value`; an empty
/// text has no pairs. Nothing where a piece has no `=` or an empty key.
pub open spec fn query_string_spec(s: Seq<char>) -> Option<Seq<(Seq<char>, Val)>> {
    let body = if s.len() > 0 && s[0] == '?' {
        s.skip(1)
    } else {
        s
    };
    if body.len() == 0 {
        Some(Seq::empty())
    } else {
        qs_pairs(split_by(body, seq!['&']))
    }
}

/// Decode a query string into an ordered map value, exactly as
/// `query_string_spec` describes.
pub fn parse_query_string(s: &Vec<char>) -> (r: Option<TypedValue>)
    ensures
        match r {
            Some(v) => v@ is Object && query_string_spec(s@) == Some(v@->Object_0)
                && crate::value::val_wf(v@),
            None => query_string_spec(s@) is None,
        },
{
    let mut body: Vec<char> = Vec::new();
    if s.len() > 0 && s[0] == '?' {
        let n = s.len();
        crate::text::push_range(&mut body, s, 1, n);
        proof {
            assert(body@ =~= s@.skip(1));
        }
    } else {
        let n = s.len();
        crate::text::push_range(&mut body, s, 0, n);
        proof {
            assert(s@.subrange(0, s@.len() as int) =~= s@);
            assert(body@ =~= s@);
        }
    }
    if body.len() == 0 {
        let fields: Vec<(Vec<char>, TypedValue)> = Vec::new();
        let out = TypedValue::Object(fields);
        proof {
            assert(out@->Object_0 =~= Seq::<(Seq<char>, Val)>::empty());
        }
        return Some(out);
    }
    let amp = crate::text::str_to_chars("&");
    let eq = crate::text::str_to_chars("=");
    proof {
        reveal_strlit("&");
        reveal_strlit("=");
        assert(amp@ =~= seq!['&']);
        assert(eq@ =~= seq!['=']);
    }
    let parts = crate::array_parse::split_chars(&body, &amp);
    let ghost pviews = chars_views(parts@);
    let mut fields: Vec<(Vec<char>, TypedValue)> = Vec::new();
    let mut i: usize = 0;
    proof {
        assert(pviews.skip(0int) =~= pviews);
        assert(query_string_spec(s@) == qs_pairs(pviews));
    }
    while i < parts.len()
        invariant
            0 <= i <= parts@.len(),
            eq@ == seq!['='],
            query_string_spec(s@) == qs_pairs(pviews),
            pviews == chars_views(parts@),
            pviews.len() == parts@.len(),
            fields@.len() == i,
            qs_pairs(pviews) == (match qs_pairs(pviews.skip(i as int)) {
                None => None::<Seq<(Seq<char>, Val)>>,
                Some(rest) => Some(
                    Seq::new(
                        fields@.len(),
                        |k: int|
                            if 0 <= k < fields@.len() {
                                (fields@[k].0@, fields@[k].1.deep_val())
                            } else {
                                (Seq::empty(), Val::Null)
                            },
                    ) + rest,
                ),
            }),
            forall|k: int|
                0 <= k < i ==> crate::value::val_wf(#[trigger] fields@[k].1.deep_val()),
        decreases parts@.len() - i,
    {
        let ghost tail = pviews.skip(i as int);
        let part = &parts[i];
        proof {
            assert(pviews[i as int] == parts@[i as int]@);
            assert(tail[0] == pviews[i as int]);
            assert(tail.skip(1) =~= pviews.skip(i + 1));
            lemma_first_match_bounds(part@, seq!['=']);
        }
        match crate::array_parse::find_from(part, 0, &eq) {
            None => {
                proof {
                    assert(part@.skip(0int) =~= part@);
                    assert(qs_pairs(tail) is None);
                }
                return None;
            },
            Some(p) => {
                proof {
                    assert(part@.skip(0int) =~= part@);
                }
                if p == 0 {
                    proof {
                        assert(qs_pairs(tail) is None);
                    }
                    return None;
                }
                let mut key: Vec<char> = Vec::new();
                crate::text::push_range(&mut key, part, 0, p);
                let mut valtext: Vec<char> = Vec::new();
                let pn = part.len();
                crate::text::push_range(&mut valtext, part, p + 1, pn);
                proof {
                    assert(key@ =~= pviews[i as int].take(p as int));
                    assert(valtext@ =~= pviews[i as int].skip(p + 1));
                }
                fields.push((key, TypedValue::Bytes(valtext)));
                proof {
                    let old_fields = fields@.drop_last();
                    assert(qs_pairs(tail) == (match qs_pairs(pviews.skip(i + 1)) {
                        None => None::<Seq<(Seq<char>, Val)>>,
                        Some(rest2) => Some(
                            seq![
                                (
                                    pviews[i as int].take(p as int),
                                    Val::Bytes(pviews[i as int].skip(p + 1)),
                                ),
                            ] + rest2,
                        ),
                    }));
                    if qs_pairs(pviews.skip(i + 1)) is Some {
                        let rest2 = qs_pairs(pviews.skip(i + 1))->Some_0;
                        assert(Seq::new(
                            fields@.len(),
                            |k: int|
                                if 0 <= k < fields@.len() {
                                    (fields@[k].0@, fields@[k].1.deep_val())
                                } else {
                                    (Seq::empty(), Val::Null)
                                },
                        ) + rest2 =~= Seq::new(
                            old_fields.len(),
                            |k: int|
                                if 0 <= k < old_fields.len() {
                                    (old_fields[k].0@, old_fields[k].1.deep_val())
                                } else {
                                    (Seq::empty(), Val::Null)
                                },
                        ) + (seq![
                            (
                                pviews[i as int].take(p as int),
                                Val::Bytes(pviews[i as int].skip(p + 1)),
                            ),
                        ] + rest2));
                    }
                }
                i += 1;
            },
        }
    }
    proof {
        assert(pviews.skip(parts@.len() as int) =~= Seq::<Seq<char>>::empty());
        assert(qs_pairs(Seq::<Seq<char>>::empty()) == Some(Seq::<(Seq<char>, Val)>::empty()));
    }
    let out = TypedValue::Object(fields);
    proof {
        let fv = out@->Object_0;
        let built = Seq::new(
            fields@.len(),
            |k: int|
                if 0 <= k < fields@.len() {
                    (fields@[k].0@, fields@[k].1.deep_val())
                } else {
                    (Seq::empty(), Val::Null)
                },
        );
        assert(fv =~= built);
        assert(built + Seq::<(Seq<char>, Val)>::empty() =~= built);
        assert(query_string_spec(s@) == Some(fv));
    }
    Some(out)
}

} // verus!
