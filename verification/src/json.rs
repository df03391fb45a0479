//! JSON decoding for the json filter. The trusted layer hands the parse
//! tree over with numbers beyond i64 still as their decimal text; reading
//! that text into the decimal model, and so the whole tree into a value,
//! is verified code.

use vstd::prelude::*;

use crate::decimal::{lemma_parse_float_wf, parse_float_spec, Float};
use crate::value::{val_wf, TypedValue, Val};

verus! {

broadcast use vstd::std_specs::vec::axiom_vec_index_decreases;

#[verifier::external_type_specification]
#[verifier::external_body]
pub struct ExJsonValue(serde_json::Value);

/// The JSON tree exactly as the decoder hands it over: null, booleans,
/// numbers that fit i64, other numbers as their decimal text, strings as
/// characters, arrays and key-value maps structurally.
pub enum JsonRaw {
    Null,
    Bool(bool),
    Int(i64),
    Num(Vec<char>),
    Text(Vec<char>),
    List(Vec<JsonRaw>),
    Object(Vec<(Vec<char>, JsonRaw)>),
}

/// The mathematical shape of a decoded tree.
pub enum JsonRawView {
    Null,
    Bool(bool),
    Int(int),
    Num(Seq<char>),
    Text(Seq<char>),
    List(Seq<JsonRawView>),
    Object(Seq<(Seq<char>, JsonRawView)>),
}

impl JsonRaw {
    pub open spec fn deep_raw(&self) -> JsonRawView
        decreases self,
    {
        match self {
            JsonRaw::Null => JsonRawView::Null,
            JsonRaw::Bool(b) => JsonRawView::Bool(*b),
            JsonRaw::Int(i) => JsonRawView::Int(*i as int),
            JsonRaw::Num(t) => JsonRawView::Num(t@),
            JsonRaw::Text(s) => JsonRawView::Text(s@),
            JsonRaw::List(items) => JsonRawView::List(
                Seq::new(
                    items@.len(),
                    |i: int|
                        if 0 <= i < items@.len() {
                            items@[i].deep_raw()
                        } else {
                            JsonRawView::Null
                        },
                ),
            ),
            JsonRaw::Object(fields) => JsonRawView::Object(
                Seq::new(
                    fields@.len(),
                    |i: int|
                        if 0 <= i < fields@.len() {
                            (fields@[i].0@, fields@[i].1.deep_raw())
                        } else {
                            (Seq::empty(), JsonRawView::Null)
                        },
                ),
            ),
        }
    }
}

impl View for JsonRaw {
    type V = JsonRawView;

    open spec fn view(&self) -> JsonRawView {
        self.deep_raw()
    }
}

/// The tree a JSON document denotes, or nothing where the text is not
/// valid JSON; what `serde_json::from_str::<serde_json::Value>` accepts
/// and returns, carried over shape for shape by `json_to_raw`.
pub uninterp spec fn json_decoded(s: Seq<char>) -> Option<JsonRawView>;

/// Relies on `serde_json::from_str::<serde_json::Value>`: it accepts
/// exactly the valid JSON documents, and the parse is a function of the
/// text alone.
#[verifier::external_body]
pub fn json_parse(s: &Vec<char>) -> (r: Option<JsonRaw>)
    ensures
        (r is Some) == (json_decoded(s@) is Some),
        r matches Some(v) ==> json_decoded(s@) == Some(v@),
{
    let t: String = s.iter().collect();
    match serde_json::from_str::<serde_json::Value>(&t) {
        Ok(v) => Some(json_to_raw(v)),
        Err(_) => None,
    }
}

/// Converts the parsed document, variant by variant and moving fields
/// only: null, booleans and i64-sized numbers directly, every other
/// number as its decimal text (`serde_json::Number`'s display form),
/// strings as characters, objects in serde_json's map order (a BTreeMap
/// by default, so sorted by key).
#[verifier::external_body]
fn json_to_raw(v: serde_json::Value) -> JsonRaw {
    match v {
        serde_json::Value::Null => JsonRaw::Null,
        serde_json::Value::Bool(b) => JsonRaw::Bool(b),
        serde_json::Value::Number(n) => match n.as_i64() {
            Some(i) => JsonRaw::Int(i),
            None => JsonRaw::Num(n.to_string().chars().collect()),
        },
        serde_json::Value::String(s) => JsonRaw::Text(s.chars().collect()),
        serde_json::Value::Array(a) => JsonRaw::List(a.into_iter().map(json_to_raw).collect()),
        serde_json::Value::Object(o) => JsonRaw::Object(
            o.into_iter().map(|(k, x)| (k.chars().collect(), json_to_raw(x))).collect(),
        ),
    }
}

/// The value a decoded tree denotes: number text is read by this
/// library's decimal parser (every number serde_json renders is in that
/// parser's grammar; a text outside it would read as not-a-number).
pub open spec fn raw_val(r: JsonRawView) -> Val
    decreases r,
{
    match r {
        JsonRawView::Null => Val::Null,
        JsonRawView::Bool(b) => Val::Boolean(b),
        JsonRawView::Int(i) => Val::Integer(i),
        JsonRawView::Num(t) => Val::Float(
            match parse_float_spec(t) {
                Some(f) => f,
                None => Float::NaN,
            },
        ),
        JsonRawView::Text(s) => Val::Bytes(s),
        JsonRawView::List(items) => Val::Array(
            Seq::new(
                items.len(),
                |i: int|
                    if 0 <= i < items.len() {
                        raw_val(items[i])
                    } else {
                        Val::Null
                    },
            ),
        ),
        JsonRawView::Object(fields) => Val::Object(
            Seq::new(
                fields.len(),
                |i: int|
                    if 0 <= i < fields.len() {
                        (fields[i].0, raw_val(fields[i].1))
                    } else {
                        (Seq::empty(), Val::Null)
                    },
            ),
        ),
    }
}

/// Every value a decoded tree denotes is well formed: its numbers come
/// out of the verified decimal parser.
pub proof fn lemma_raw_val_wf(r: JsonRawView)
    ensures
        val_wf(raw_val(r)),
    decreases r,
{
    match r {
        JsonRawView::Num(t) => {
            lemma_parse_float_wf(t);
        },
        JsonRawView::List(items) => {
            assert forall|i: int| 0 <= i < items.len() implies val_wf(
                #[trigger] raw_val(r)->Array_0[i],
            ) by {
                lemma_raw_val_wf(items[i]);
            }
        },
        JsonRawView::Object(fields) => {
            assert forall|i: int| 0 <= i < fields.len() implies val_wf(
                #[trigger] raw_val(r)->Object_0[i].1,
            ) by {
                lemma_raw_val_wf(fields[i].1);
            }
        },
        _ => {},
    }
}

/// Read a decoded tree into a value, exactly as `raw_val` describes.
pub fn raw_to_value(r: &JsonRaw) -> (out: TypedValue)
    ensures
        out@ == raw_val(r@),
        val_wf(out@),
    decreases r,
{
    proof {
        lemma_raw_val_wf(r@);
    }
    match r {
        JsonRaw::Null => TypedValue::Null,
        JsonRaw::Bool(b) => TypedValue::Boolean(*b),
        JsonRaw::Int(i) => TypedValue::Integer(*i),
        JsonRaw::Num(t) => match crate::decimal::parse_float(t) {
            Some(f) => TypedValue::Float(f),
            None => TypedValue::Float(Float::NaN),
        },
        JsonRaw::Text(s) => {
            let mut c: Vec<char> = Vec::new();
            let n = s.len();
            crate::text::push_range(&mut c, s, 0, n);
            proof {
                assert(c@ =~= s@);
            }
            TypedValue::Bytes(c)
        },
        JsonRaw::List(items) => {
            let converted = raw_list_to_values(items);
            let out = TypedValue::Array(converted);
            proof {
                let lhs = out@->Array_0;
                let rhs = raw_val(r@)->Array_0;
                assert(lhs.len() == rhs.len());
                assert forall|k: int| 0 <= k < lhs.len() implies lhs[k] == rhs[k] by {
                    assert(lhs[k] == converted@[k].deep_val());
                    assert(converted@[k].deep_val() == raw_val(items@[k].deep_raw()));
                    assert(r@->List_0[k] == items@[k].deep_raw());
                    assert(rhs[k] == raw_val(r@->List_0[k]));
                }
                assert(lhs =~= rhs);
            }
            out
        },
        JsonRaw::Object(fields) => {
            let converted = raw_fields_to_values(fields);
            let out = TypedValue::Object(converted);
            proof {
                let lhs = out@->Object_0;
                let rhs = raw_val(r@)->Object_0;
                assert(lhs.len() == rhs.len());
                assert forall|k: int| 0 <= k < lhs.len() implies lhs[k] == rhs[k] by {
                    assert(lhs[k] == (converted@[k].0@, converted@[k].1.deep_val()));
                    assert(converted@[k].1.deep_val() == raw_val(fields@[k].1.deep_raw()));
                    assert(converted@[k].0@ == fields@[k].0@);
                    assert(r@->Object_0[k] == (fields@[k].0@, fields@[k].1.deep_raw()));
                    assert(rhs[k] == (r@->Object_0[k].0, raw_val(r@->Object_0[k].1)));
                }
                assert(lhs =~= rhs);
            }
            out
        },
    }
}

/// Read every element of a decoded list, in order.
fn raw_list_to_values(items: &Vec<JsonRaw>) -> (out: Vec<TypedValue>)
    ensures
        out@.len() == items@.len(),
        forall|k: int|
            0 <= k < items@.len() ==> #[trigger] out@[k].deep_val() == raw_val(
                items@[k].deep_raw(),
            ),
    decreases *items,
{
    let mut out: Vec<TypedValue> = Vec::new();
    let mut i: usize = 0;
    while i < items.len()
        invariant
            0 <= i <= items@.len(),
            out@.len() == i,
            forall|k: int|
                0 <= k < i ==> #[trigger] out@[k].deep_val() == raw_val(items@[k].deep_raw()),
        decreases items@.len() - i,
    {
        proof {
            assert(decreases_to!(*items => items@[i as int]));
        }
        let v = raw_to_value(&items[i]);
        out.push(v);
        i += 1;
    }
    out
}

/// Read every field of a decoded map, in order.
fn raw_fields_to_values(fields: &Vec<(Vec<char>, JsonRaw)>) -> (out: Vec<(Vec<char>, TypedValue)>)
    ensures
        out@.len() == fields@.len(),
        forall|k: int|
            0 <= k < fields@.len() ==> #[trigger] out@[k].1.deep_val() == raw_val(
                fields@[k].1.deep_raw(),
            ) && out@[k].0@ == fields@[k].0@,
    decreases *fields,
{
    let mut out: Vec<(Vec<char>, TypedValue)> = Vec::new();
    let mut i: usize = 0;
    while i < fields.len()
        invariant
            0 <= i <= fields@.len(),
            out@.len() == i,
            forall|k: int|
                0 <= k < i ==> #[trigger] out@[k].1.deep_val() == raw_val(
                    fields@[k].1.deep_raw(),
                ) && out@[k].0@ == fields@[k].0@,
        decreases fields@.len() - i,
    {
        let mut key: Vec<char> = Vec::new();
        let kn = fields[i].0.len();
        crate::text::push_range(&mut key, &fields[i].0, 0, kn);
        proof {
            assert(key@ =~= fields@[i as int].0@);
            assert(decreases_to!(*fields => fields@[i as int]));
            assert(decreases_to!(fields@[i as int] => fields@[i as int].1));
        }
        let v = raw_to_value(&fields[i].1);
        out.push((key, v));
        i += 1;
    }
    out
}

} // verus!
