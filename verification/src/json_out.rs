//! JSON text output for values: what the JSON codec of a sink emits.
//! Strings are quoted with `"`, `\`, newline, carriage return and tab
//! escaped; other characters pass through unchanged.

use vstd::prelude::*;

use crate::text::int_str;
use crate::value::{val_wf, TypedValue, Val};

verus! {

broadcast use vstd::std_specs::vec::axiom_vec_index_decreases;

pub open spec fn json_escape_char(c: char) -> Seq<char> {
    if c == '"' {
        seq!['\\', '"']
    } else if c == '\\' {
        seq!['\\', '\\']
    } else if c == '\n' {
        seq!['\\', 'n']
    } else if c == '\r' {
        seq!['\\', 'r']
    } else if c == '\t' {
        seq!['\\', 't']
    } else {
        seq![c]
    }
}

pub open spec fn json_escape(s: Seq<char>) -> Seq<char>
    decreases s.len(),
{
    if s.len() == 0 {
        Seq::empty()
    } else {
        json_escape_char(s[0]) + json_escape(s.skip(1))
    }
}

proof fn lemma_json_escape_push(s: Seq<char>, c: char)
    ensures
        json_escape(s.push(c)) == json_escape(s) + json_escape_char(c),
    decreases s.len(),
{
    if s.len() == 0 {
        assert(s.push(c)[0] == c);
        assert(s.push(c).skip(1) =~= Seq::<char>::empty());
        assert(json_escape(Seq::<char>::empty()) == Seq::<char>::empty());
        assert(json_escape(s.push(c)) == json_escape_char(c) + Seq::<char>::empty());
        assert(json_escape(s.push(c)) =~= json_escape(s) + json_escape_char(c));
    } else {
        assert(s.push(c)[0] == s[0]);
        assert(s.push(c).skip(1) =~= s.skip(1).push(c));
        lemma_json_escape_push(s.skip(1), c);
        assert(json_escape_char(s[0]) + (json_escape(s.skip(1)) + json_escape_char(c))
            =~= (json_escape_char(s[0]) + json_escape(s.skip(1))) + json_escape_char(c));
    }
}

/// The JSON text of a value.
pub open spec fn json_str(v: Val) -> Seq<char>
    decreases v,
{
    match v {
        Val::Bytes(s) => seq!['"'] + json_escape(s) + seq!['"'],
        Val::Integer(i) => int_str(i),
        Val::Float(x) => crate::decimal::float_str(x),
        Val::Boolean(b) => if b {
            "true"@
        } else {
            "false"@
        },
        Val::Null => "null"@,
        Val::Array(items) => seq!['['] + json_list_str(items) + seq![']'],
        Val::Object(fields) => seq!['{'] + json_fields_str(fields) + seq!['}'],
    }
}

pub open spec fn json_list_str(items: Seq<Val>) -> Seq<char>
    decreases items,
{
    if items.len() == 0 {
        Seq::empty()
    } else if items.len() == 1 {
        json_str(items[0])
    } else {
        json_list_str(items.drop_last()) + seq![','] + json_str(items.last())
    }
}

pub open spec fn json_fields_str(fields: Seq<(Seq<char>, Val)>) -> Seq<char>
    decreases fields,
{
    if fields.len() == 0 {
        Seq::empty()
    } else if fields.len() == 1 {
        seq!['"'] + json_escape(fields[0].0) + seq!['"', ':'] + json_str(fields[0].1)
    } else {
        json_fields_str(fields.drop_last()) + seq![','] + seq!['"'] + json_escape(
            fields.last().0,
        ) + seq!['"', ':'] + json_str(fields.last().1)
    }
}

/// Append the escaped form of `s` onto `out`.
fn push_escaped(out: &mut Vec<char>, s: &Vec<char>)
    ensures
        final(out)@ == old(out)@ + json_escape(s@),
{
    let mut i: usize = 0;
    proof {
        assert(s@.take(0int) =~= Seq::<char>::empty());
        assert(out@ =~= out@ + json_escape(s@.take(0int)));
    }
    while i < s.len()
        invariant
            0 <= i <= s@.len(),
            out@ == old(out)@ + json_escape(s@.take(i as int)),
        decreases s@.len() - i,
    {
        let c = s[i];
        proof {
            assert(s@.take(i + 1) =~= s@.take(i as int).push(c));
            lemma_json_escape_push(s@.take(i as int), c);
        }
        if c == '"' {
            out.push('\\');
            out.push('"');
        } else if c == '\\' {
            out.push('\\');
            out.push('\\');
        } else if c == '\n' {
            out.push('\\');
            out.push('n');
        } else if c == '\r' {
            out.push('\\');
            out.push('r');
        } else if c == '\t' {
            out.push('\\');
            out.push('t');
        } else {
            out.push(c);
        }
        proof {
            assert(out@ =~= old(out)@ + json_escape(s@.take(i + 1)));
        }
        i += 1;
    }
    proof {
        assert(s@.take(s@.len() as int) =~= s@);
    }
}

impl TypedValue {
    /// The JSON text of this value, as `json_str` defines it.
    pub fn to_json_chars(&self) -> (r: Vec<char>)
        requires
            val_wf(self@),
        ensures
            r@ == json_str(self@),
        decreases self,
    {
        match self {
            TypedValue::Bytes(s) => {
                let mut out: Vec<char> = Vec::new();
                out.push('"');
                push_escaped(&mut out, s);
                out.push('"');
                proof {
                    assert(out@ =~= seq!['"'] + json_escape(s@) + seq!['"']);
                }
                out
            },
            TypedValue::Integer(i) => crate::text::i64_to_chars(*i),
            TypedValue::Float(x) => crate::decimal::float_to_chars(x),
            TypedValue::Boolean(b) => if *b {
                crate::text::str_to_chars("true")
            } else {
                crate::text::str_to_chars("false")
            },
            TypedValue::Null => crate::text::str_to_chars("null"),
            TypedValue::Array(items) => {
                let ghost iv = self@->Array_0;
                let mut out: Vec<char> = Vec::new();
                out.push('[');
                let mut i: usize = 0;
                proof {
                    assert(out@ =~= seq!['['] + json_list_str(iv.take(0int)));
                }
                while i < items.len()
                    invariant
                        0 <= i <= items@.len(),
                        *self == TypedValue::Array(*items),
                        val_wf(self@),
                        iv == self@->Array_0,
                        iv.len() == items@.len(),
                        out@ == seq!['['] + json_list_str(iv.take(i as int)),
                    decreases items@.len() - i,
                {
                    if i > 0 {
                        out.push(',');
                    }
                    proof {
                        assert(iv[i as int] == items@[i as int].deep_val());
                        assert(val_wf(iv[i as int]));
                    }
                    let piece = items[i].to_json_chars();
                    let pn = piece.len();
                    crate::text::push_range(&mut out, &piece, 0, pn);
                    proof {
                        assert(piece@.subrange(0, pn as int) =~= piece@);
                        assert(iv.take(i + 1).drop_last() =~= iv.take(i as int));
                        assert(iv.take(i + 1).last() == iv[i as int]);
                        assert(out@ =~= seq!['['] + json_list_str(iv.take(i + 1)));
                    }
                    i += 1;
                }
                out.push(']');
                proof {
                    assert(iv.take(items@.len() as int) =~= iv);
                    assert(out@ =~= seq!['['] + json_list_str(iv) + seq![']']);
                }
                out
            },
            TypedValue::Object(fields) => {
                let ghost fv = self@->Object_0;
                let mut out: Vec<char> = Vec::new();
                out.push('{');
                let mut i: usize = 0;
                proof {
                    assert(out@ =~= seq!['{'] + json_fields_str(fv.take(0int)));
                }
                while i < fields.len()
                    invariant
                        0 <= i <= fields@.len(),
                        *self == TypedValue::Object(*fields),
                        val_wf(self@),
                        fv == self@->Object_0,
                        fv.len() == fields@.len(),
                        out@ == seq!['{'] + json_fields_str(fv.take(i as int)),
                    decreases fields@.len() - i,
                {
                    if i > 0 {
                        out.push(',');
                    }
                    proof {
                        assert(fv[i as int] == (
                            fields@[i as int].0@,
                            fields@[i as int].1.deep_val(),
                        ));
                        assert(val_wf(fv[i as int].1));
                    }
                    out.push('"');
                    push_escaped(&mut out, &fields[i].0);
                    out.push('"');
                    out.push(':');
                    let piece = fields[i].1.to_json_chars();
                    let pn = piece.len();
                    crate::text::push_range(&mut out, &piece, 0, pn);
                    proof {
                        assert(piece@.subrange(0, pn as int) =~= piece@);
                        assert(fv.take(i + 1).drop_last() =~= fv.take(i as int));
                        assert(fv.take(i + 1).last() == fv[i as int]);
                        assert(out@ =~= seq!['{'] + json_fields_str(fv.take(i + 1)));
                    }
                    i += 1;
                }
                out.push('}');
                proof {
                    assert(fv.take(fields@.len() as int) =~= fv);
                    assert(out@ =~= seq!['{'] + json_fields_str(fv) + seq!['}']);
                }
                out
            },
        }
    }
}

} // verus!
