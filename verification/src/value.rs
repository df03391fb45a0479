//! The typed value model the filters consume and produce: byte strings
//! (held as character sequences), signed integers, decimal numbers,
//! booleans, null, ordered sequences, and ordered key-value maps.

use vstd::prelude::*;

use crate::decimal::{float_str, float_wf, Float};
use crate::text::int_str;

verus! {

broadcast use vstd::std_specs::vec::axiom_vec_index_decreases;

/// A typed value. The byte-string variant holds text as characters; a
/// value captured by the pattern matcher arrives in this form.
#[derive(Debug, PartialEq, Eq)]
pub enum TypedValue {
    Bytes(Vec<char>),
    Integer(i64),
    Float(Float),
    Boolean(bool),
    Null,
    Array(Vec<TypedValue>),
    Object(Vec<(Vec<char>, TypedValue)>),
}

/// The mathematical shape of a `TypedValue`.
pub enum Val {
    Bytes(Seq<char>),
    Integer(int),
    Float(Float),
    Boolean(bool),
    Null,
    Array(Seq<Val>),
    Object(Seq<(Seq<char>, Val)>),
}

impl TypedValue {
    /// The mathematical value of this `TypedValue`.
    pub open spec fn deep_val(&self) -> Val
        decreases self,
    {
        match self {
            TypedValue::Bytes(s) => Val::Bytes(s@),
            TypedValue::Integer(i) => Val::Integer(*i as int),
            TypedValue::Float(f) => Val::Float(*f),
            TypedValue::Boolean(b) => Val::Boolean(*b),
            TypedValue::Null => Val::Null,
            TypedValue::Array(items) => Val::Array(
                Seq::new(
                    items@.len(),
                    |i: int|
                        if 0 <= i < items@.len() {
                            items@[i].deep_val()
                        } else {
                            Val::Null
                        },
                ),
            ),
            TypedValue::Object(fields) => Val::Object(
                Seq::new(
                    fields@.len(),
                    |i: int|
                        if 0 <= i < fields@.len() {
                            (fields@[i].0@, fields@[i].1.deep_val())
                        } else {
                            (Seq::empty(), Val::Null)
                        },
                ),
            ),
        }
    }
}

impl View for TypedValue {
    type V = Val;

    open spec fn view(&self) -> Val {
        self.deep_val()
    }
}

/// Every decimal number inside the value is canonical.
pub open spec fn val_wf(v: Val) -> bool
    decreases v,
{
    match v {
        Val::Float(f) => float_wf(f),
        Val::Array(items) => forall|i: int| 0 <= i < items.len() ==> val_wf(#[trigger] items[i]),
        Val::Object(fields) => forall|i: int|
            0 <= i < fields.len() ==> val_wf(#[trigger] fields[i].1),
        _ => true,
    }
}

// ---------- display ----------

/// The display text of a value, used in error reports: the text itself
/// for byte strings, decimal renderings for numbers, `true`/`false`,
/// `null`, and elements joined with `,` inside `[`..`]` or `{`..`}`.
pub open spec fn val_str(v: Val) -> Seq<char>
    decreases v,
{
    match v {
        Val::Bytes(s) => s,
        Val::Integer(i) => int_str(i),
        Val::Float(f) => float_str(f),
        Val::Boolean(b) => if b {
            "true"@
        } else {
            "false"@
        },
        Val::Null => "null"@,
        Val::Array(items) => seq!['['] + val_list_str(items) + seq![']'],
        Val::Object(fields) => seq!['{'] + val_fields_str(fields) + seq!['}'],
    }
}

pub open spec fn val_list_str(items: Seq<Val>) -> Seq<char>
    decreases items,
{
    if items.len() == 0 {
        Seq::empty()
    } else if items.len() == 1 {
        val_str(items[0])
    } else {
        val_list_str(items.drop_last()) + seq![','] + val_str(items.last())
    }
}

pub open spec fn val_fields_str(fields: Seq<(Seq<char>, Val)>) -> Seq<char>
    decreases fields,
{
    if fields.len() == 0 {
        Seq::empty()
    } else if fields.len() == 1 {
        fields[0].0 + seq![':'] + val_str(fields[0].1)
    } else {
        val_fields_str(fields.drop_last()) + seq![','] + fields.last().0 + seq![':'] + val_str(
            fields.last().1,
        )
    }
}

impl TypedValue {
    /// The display text of this value, as `val_str` defines it.
    pub fn to_chars(&self) -> (r: Vec<char>)
        requires
            val_wf(self@),
        ensures
            r@ == val_str(self@),
        decreases self,
    {
        match self {
            TypedValue::Bytes(s) => {
                let mut out: Vec<char> = Vec::new();
                let n = s.len();
                crate::text::push_range(&mut out, s, 0, n);
                proof {
                    assert(s@.subrange(0, n as int) =~= s@);
                    assert(out@ =~= s@);
                }
                out
            },
            TypedValue::Integer(i) => crate::text::i64_to_chars(*i),
            TypedValue::Float(f) => crate::decimal::float_to_chars(f),
            TypedValue::Boolean(b) => if *b {
                crate::text::str_to_chars("true")
            } else {
                crate::text::str_to_chars("false")
            },
            TypedValue::Null => crate::text::str_to_chars("null"),
            TypedValue::Array(items) => {
                let ghost iv = self@->Array_0;
                let mut out: Vec<char> = Vec::new();
                out.push('[');
                let mut i: usize = 0;
                proof {
                    assert(out@ =~= seq!['['] + val_list_str(iv.take(0int)));
                }
                while i < items.len()
                    invariant
                        0 <= i <= items@.len(),
                        *self == TypedValue::Array(*items),
                        val_wf(self@),
                        iv == self@->Array_0,
                        iv.len() == items@.len(),
                        out@ == seq!['['] + val_list_str(iv.take(i as int)),
                    decreases items@.len() - i,
                {
                    if i > 0 {
                        out.push(',');
                    }
                    proof {
                        assert(iv[i as int] == items@[i as int].deep_val());
                        assert(val_wf(iv[i as int]));
                    }
                    let piece = items[i].to_chars();
                    let pn = piece.len();
                    crate::text::push_range(&mut out, &piece, 0, pn);
                    proof {
                        assert(piece@.subrange(0, pn as int) =~= piece@);
                        assert(iv.take(i + 1).drop_last() =~= iv.take(i as int));
                        assert(iv.take(i + 1).last() == iv[i as int]);
                        assert(out@ =~= seq!['['] + val_list_str(iv.take(i + 1)));
                    }
                    i += 1;
                }
                out.push(']');
                proof {
                    assert(iv.take(items@.len() as int) =~= iv);
                    assert(out@ =~= seq!['['] + val_list_str(iv) + seq![']']);
                }
                out
            },
            TypedValue::Object(fields) => {
                let ghost fv = self@->Object_0;
                let mut out: Vec<char> = Vec::new();
                out.push('{');
                let mut i: usize = 0;
                proof {
                    assert(out@ =~= seq!['{'] + val_fields_str(fv.take(0int)));
                }
                while i < fields.len()
                    invariant
                        0 <= i <= fields@.len(),
                        *self == TypedValue::Object(*fields),
                        val_wf(self@),
                        fv == self@->Object_0,
                        fv.len() == fields@.len(),
                        out@ == seq!['{'] + val_fields_str(fv.take(i as int)),
                    decreases fields@.len() - i,
                {
                    if i > 0 {
                        out.push(',');
                    }
                    proof {
                        assert(fv[i as int] == (fields@[i as int].0@, fields@[
                        i as int].1.deep_val()));
                        assert(val_wf(fv[i as int].1));
                    }
                    let kn = fields[i].0.len();
                    crate::text::push_range(&mut out, &fields[i].0, 0, kn);
                    out.push(':');
                    let piece = fields[i].1.to_chars();
                    let pn = piece.len();
                    crate::text::push_range(&mut out, &piece, 0, pn);
                    proof {
                        assert(fields@[i as int].0@.subrange(0, kn as int) =~= fv[i as int].0);
                        assert(piece@.subrange(0, pn as int) =~= piece@);
                        assert(fv.take(i + 1).drop_last() =~= fv.take(i as int));
                        assert(fv.take(i + 1).last() == fv[i as int]);
                        assert(out@ =~= seq!['{'] + val_fields_str(fv.take(i + 1)));
                    }
                    i += 1;
                }
                out.push('}');
                proof {
                    assert(fv.take(fields@.len() as int) =~= fv);
                    assert(out@ =~= seq!['{'] + val_fields_str(fv) + seq!['}']);
                }
                out
            },
        }
    }

    /// The display text of this value as a `String`.
    pub fn to_string_lossy(&self) -> (r: String)
        requires
            val_wf(self@),
        ensures
            r@ == val_str(self@),
    {
        let cs = self.to_chars();
        crate::text::chars_to_string(&cs)
    }

    /// A deep copy: the same value.
    pub fn deep_clone(&self) -> (r: TypedValue)
        ensures
            r@ == self@,
        decreases self,
    {
        match self {
            TypedValue::Bytes(s) => {
                let mut c: Vec<char> = Vec::new();
                let n = s.len();
                crate::text::push_range(&mut c, s, 0, n);
                proof {
                    assert(s@.subrange(0, n as int) =~= s@);
                    assert(c@ =~= s@);
                }
                TypedValue::Bytes(c)
            },
            TypedValue::Integer(i) => TypedValue::Integer(*i),
            TypedValue::Float(f) => TypedValue::Float(*f),
            TypedValue::Boolean(b) => TypedValue::Boolean(*b),
            TypedValue::Null => TypedValue::Null,
            TypedValue::Array(items) => {
                let c = clone_values(items);
                proof {
                    let lhs = TypedValue::Array(c)@->Array_0;
                    let rhs = self@->Array_0;
                    assert(lhs.len() == rhs.len());
                    assert forall|k: int| 0 <= k < lhs.len() implies lhs[k] == rhs[k] by {
                        assert(c@[k].deep_val() == items@[k].deep_val());
                        assert(lhs[k] == c@[k].deep_val());
                        assert(rhs[k] == items@[k].deep_val());
                    }
                    assert(lhs =~= rhs);
                }
                TypedValue::Array(c)
            },
            TypedValue::Object(fields) => {
                let c = clone_fields(fields);
                proof {
                    let lhs = TypedValue::Object(c)@->Object_0;
                    let rhs = self@->Object_0;
                    assert(lhs.len() == rhs.len());
                    assert forall|k: int| 0 <= k < lhs.len() implies lhs[k] == rhs[k] by {
                        assert(c@[k].1.deep_val() == fields@[k].1.deep_val());
                        assert(c@[k].0@ == fields@[k].0@);
                        assert(lhs[k] == (c@[k].0@, c@[k].1.deep_val()));
                        assert(rhs[k] == (fields@[k].0@, fields@[k].1.deep_val()));
                    }
                    assert(lhs =~= rhs);
                }
                TypedValue::Object(c)
            },
        }
    }

    /// Build a byte-string value from a string slice.
    pub fn bytes(s: &str) -> (r: TypedValue)
        ensures
            r@ == Val::Bytes(s@),
    {
        TypedValue::Bytes(crate::text::str_to_chars(s))
    }
}


/// Deep copies of every element, in order.
fn clone_values(items: &Vec<TypedValue>) -> (r: Vec<TypedValue>)
    ensures
        r@.len() == items@.len(),
        forall|k: int| 0 <= k < items@.len() ==> #[trigger] r@[k].deep_val() == items@[
        k].deep_val(),
    decreases *items,
{
    let mut c: Vec<TypedValue> = Vec::new();
    let mut i: usize = 0;
    while i < items.len()
        invariant
            0 <= i <= items@.len(),
            c@.len() == i,
            forall|k: int| 0 <= k < i ==> #[trigger] c@[k].deep_val() == items@[k].deep_val(),
        decreases items@.len() - i,
    {
        proof {
            assert(decreases_to!(*items => items@[i as int]));
        }
        let e = items[i].deep_clone();
        c.push(e);
        i += 1;
    }
    c
}

/// Deep copies of every key-value pair, in order.
pub(crate) fn clone_fields(fields: &Vec<(Vec<char>, TypedValue)>) -> (r: Vec<(Vec<char>, TypedValue)>)
    ensures
        r@.len() == fields@.len(),
        forall|k: int|
            0 <= k < fields@.len() ==> #[trigger] r@[k].1.deep_val() == fields@[k].1.deep_val()
                && r@[k].0@ == fields@[k].0@,
    decreases *fields,
{
    let mut c: Vec<(Vec<char>, TypedValue)> = Vec::new();
    let mut i: usize = 0;
    while i < fields.len()
        invariant
            0 <= i <= fields@.len(),
            c@.len() == i,
            forall|k: int|
                0 <= k < i ==> #[trigger] c@[k].1.deep_val() == fields@[k].1.deep_val() && c@[
                k].0@ == fields@[k].0@,
        decreases fields@.len() - i,
    {
        let mut key: Vec<char> = Vec::new();
        let kn = fields[i].0.len();
        crate::text::push_range(&mut key, &fields[i].0, 0, kn);
        proof {
            assert(fields@[i as int].0@.subrange(0, kn as int) =~= fields@[i as int].0@);
            assert(key@ =~= fields@[i as int].0@);
            assert(decreases_to!(*fields => fields@[i as int]));
            assert(decreases_to!(fields@[i as int] => fields@[i as int].1));
        }
        let e = fields[i].1.deep_clone();
        c.push((key, e));
        i += 1;
    }
    c
}

} // verus!
