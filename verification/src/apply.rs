//! The filter evaluator: a pure function of a compiled descriptor and a
//! typed value, yielding a coerced value or a runtime error that names
//! the filter and the offending value.

use vstd::prelude::*;

use crate::array_parse::{chars_views, tokenize, tokenize_spec};
use crate::decimal::{
    float_of_int_spec, mul_spec, parse_float_spec, trunc_spec,
};
use crate::filter::{filter_wf, name_of, FilterView, GrokFilter, GrokRuntimeError, RErrView};
use crate::json::json_decoded;
use crate::query_string::query_string_spec;
use crate::regex_support::regex_match;
use crate::ruby_hash::ruby_hash_spec;
use crate::text::{eq_ignore_ascii, parse_i64_spec};
use crate::transcode::{lower_spec, percent_decoded, upper_spec};
use crate::value::{val_str, val_wf, TypedValue, Val};

verus! {

/// Tokens as byte-string values, in order.
pub open spec fn bytes_vals(toks: Seq<Seq<char>>) -> Seq<Val> {
    toks.map_values(|t: Seq<char>| Val::Bytes(t))
}

/// The runtime error one failing application reports.
pub open spec fn fail_spec(f: FilterView, v: Val) -> RErrView {
    RErrView::FailedToApplyFilter(name_of(f), val_str(v))
}

/// What applying a descriptor to a value yields, filter by filter: the
/// required input variant is byte string except for `Scale`, which also
/// takes the two numeric variants; any other variant is the exact
/// runtime error.
pub open spec fn apply_spec(f: FilterView, v: Val) -> Result<Val, RErrView>
    decreases f, 0int,
{
    match f {
        FilterView::Integer => match v {
            Val::Bytes(s) => match parse_i64_spec(s) {
                Some(i) => Ok(Val::Integer(i)),
                None => Err(fail_spec(f, v)),
            },
            _ => Err(fail_spec(f, v)),
        },
        FilterView::IntegerExt => match v {
            Val::Bytes(s) => match parse_float_spec(s) {
                Some(x) => Ok(Val::Integer(trunc_spec(x))),
                None => Err(fail_spec(f, v)),
            },
            _ => Err(fail_spec(f, v)),
        },
        FilterView::Number => match v {
            Val::Bytes(s) => match parse_float_spec(s) {
                Some(x) => Ok(Val::Float(x)),
                None => Err(fail_spec(f, v)),
            },
            _ => Err(fail_spec(f, v)),
        },
        FilterView::NumberExt => match v {
            Val::Bytes(s) => match parse_float_spec(s) {
                Some(x) => Ok(Val::Float(x)),
                None => Err(fail_spec(f, v)),
            },
            _ => Err(fail_spec(f, v)),
        },
        FilterView::Boolean(p) => match v {
            Val::Bytes(s) => Ok(
                Val::Boolean(
                    match p {
                        Some(pat) => regex_match(pat, s),
                        None => eq_ignore_ascii(s, "true"@),
                    },
                ),
            ),
            _ => Err(fail_spec(f, v)),
        },
        FilterView::NullIf(sentinel) => match v {
            Val::Bytes(s) => if s == sentinel {
                Ok(Val::Null)
            } else {
                Ok(Val::Bytes(s))
            },
            _ => Err(fail_spec(f, v)),
        },
        FilterView::Scale(factor) => match v {
            Val::Integer(i) => Ok(Val::Float(mul_spec(float_of_int_spec(i), factor))),
            Val::Float(x) => Ok(Val::Float(mul_spec(x, factor))),
            Val::Bytes(s) => match parse_float_spec(s) {
                Some(x) => Ok(Val::Float(mul_spec(x, factor))),
                None => Err(fail_spec(f, v)),
            },
            _ => Err(fail_spec(f, v)),
        },
        FilterView::Json => match v {
            Val::Bytes(s) => match json_decoded(s) {
                Some(raw) => Ok(crate::json::raw_val(raw)),
                None => Err(fail_spec(f, v)),
            },
            _ => Err(fail_spec(f, v)),
        },
        FilterView::Rubyhash => match v {
            Val::Bytes(s) => match ruby_hash_spec(s) {
                Some(fields) => Ok(Val::Object(fields)),
                None => Err(fail_spec(f, v)),
            },
            _ => Err(fail_spec(f, v)),
        },
        FilterView::Querystring => match v {
            Val::Bytes(s) => match query_string_spec(s) {
                Some(fields) => Ok(Val::Object(fields)),
                None => Err(fail_spec(f, v)),
            },
            _ => Err(fail_spec(f, v)),
        },
        FilterView::Lowercase => match v {
            Val::Bytes(s) => Ok(Val::Bytes(lower_spec(s))),
            _ => Err(fail_spec(f, v)),
        },
        FilterView::Uppercase => match v {
            Val::Bytes(s) => Ok(Val::Bytes(upper_spec(s))),
            _ => Err(fail_spec(f, v)),
        },
        FilterView::Decodeuricomponent => match v {
            Val::Bytes(s) => Ok(Val::Bytes(percent_decoded(s))),
            _ => Err(fail_spec(f, v)),
        },
        FilterView::Array(b, d, e) => match v {
            Val::Bytes(s) => match tokenize_spec(s, b, d) {
                None => Err(fail_spec(f, v)),
                Some(toks) => match e {
                    None => Ok(Val::Array(bytes_vals(toks))),
                    Some(sub) => match apply_elems_spec(*sub, toks) {
                        Ok(vals) => Ok(Val::Array(vals)),
                        Err(er) => Err(er),
                    },
                },
            },
            _ => Err(fail_spec(f, v)),
        },
    }
}

/// The element filter applied to every token in order; the first failing
/// element's error fails the whole array.
pub open spec fn apply_elems_spec(ef: FilterView, toks: Seq<Seq<char>>) -> Result<
    Seq<Val>,
    RErrView,
>
    decreases ef, toks.len() + 1,
{
    if toks.len() == 0 {
        Ok(Seq::empty())
    } else {
        match apply_spec(ef, Val::Bytes(toks[0])) {
            Err(e) => Err(e),
            Ok(v) => match apply_elems_spec(ef, toks.skip(1)) {
                Err(e) => Err(e),
                Ok(rest) => Ok(seq![v] + rest),
            },
        }
    }
}

/// The exact runtime error for this filter on this value.
fn fail(filter: &GrokFilter, value: &TypedValue) -> (e: GrokRuntimeError)
    requires
        val_wf(value@),
    ensures
        e@ == fail_spec(filter@, value@),
{
    GrokRuntimeError::FailedToApplyFilter(filter.name(), value.to_string_lossy())
}

/// Copy a token into a byte-string value.
fn token_value(t: &Vec<char>) -> (r: TypedValue)
    ensures
        r@ == Val::Bytes(t@),
        val_wf(r@),
{
    let mut c: Vec<char> = Vec::new();
    let n = t.len();
    crate::text::push_range(&mut c, t, 0, n);
    proof {
        assert(c@ =~= t@);
    }
    TypedValue::Bytes(c)
}

/// Apply a compiled descriptor to a value, exactly as `apply_spec`
/// describes; the result is a fresh value, well formed whenever the
/// input is.
pub fn apply_filter(value: &TypedValue, filter: &GrokFilter) -> (r: Result<
    TypedValue,
    GrokRuntimeError,
>)
    requires
        val_wf(value@),
        filter_wf(filter@),
    ensures
        match r {
            Ok(out) => apply_spec(filter@, value@) == Ok::<Val, RErrView>(out@) && val_wf(
                out@,
            ),
            Err(e) => apply_spec(filter@, value@) == Err::<Val, RErrView>(e@),
        },
    decreases *filter,
{
    match filter {
        GrokFilter::Integer => match value {
            TypedValue::Bytes(s) => match crate::text::parse_i64(s) {
                Some(i) => Ok(TypedValue::Integer(i)),
                None => Err(fail(filter, value)),
            },
            _ => Err(fail(filter, value)),
        },
        GrokFilter::IntegerExt => match value {
            TypedValue::Bytes(s) => match crate::decimal::parse_float(s) {
                Some(x) => Ok(TypedValue::Integer(crate::decimal::float_trunc(&x))),
                None => Err(fail(filter, value)),
            },
            _ => Err(fail(filter, value)),
        },
        GrokFilter::Number => match value {
            TypedValue::Bytes(s) => match crate::decimal::parse_float(s) {
                Some(x) => Ok(TypedValue::Float(x)),
                None => Err(fail(filter, value)),
            },
            _ => Err(fail(filter, value)),
        },
        GrokFilter::NumberExt => match value {
            TypedValue::Bytes(s) => match crate::decimal::parse_float(s) {
                Some(x) => Ok(TypedValue::Float(x)),
                None => Err(fail(filter, value)),
            },
            _ => Err(fail(filter, value)),
        },
        GrokFilter::Boolean(p) => match value {
            TypedValue::Bytes(s) => match p {
                Some(matcher) => Ok(TypedValue::Boolean(matcher.is_match(s))),
                None => {
                    let lit = crate::text::str_to_chars("true");
                    Ok(TypedValue::Boolean(crate::text::chars_eq_ignore_ascii(s, &lit)))
                },
            },
            _ => Err(fail(filter, value)),
        },
        GrokFilter::NullIf(sentinel) => match value {
            TypedValue::Bytes(s) => {
                if crate::text::chars_eq(s, sentinel) {
                    Ok(TypedValue::Null)
                } else {
                    Ok(value.deep_clone())
                }
            },
            _ => Err(fail(filter, value)),
        },
        GrokFilter::Scale(factor) => {
            proof {
                assert(crate::decimal::float_wf(*factor));
            }
            match value {
                TypedValue::Integer(i) => {
                    let x = crate::decimal::float_of_i64(*i);
                    Ok(TypedValue::Float(crate::decimal::float_mul(&x, factor)))
                },
                TypedValue::Float(x) => {
                    proof {
                        assert(crate::decimal::float_wf(*x));
                    }
                    Ok(TypedValue::Float(crate::decimal::float_mul(x, factor)))
                },
                TypedValue::Bytes(s) => match crate::decimal::parse_float(s) {
                    Some(x) => Ok(TypedValue::Float(crate::decimal::float_mul(&x, factor))),
                    None => Err(fail(filter, value)),
                },
                _ => Err(fail(filter, value)),
            }
        },
        GrokFilter::Json => match value {
            TypedValue::Bytes(s) => match crate::json::json_parse(s) {
                Some(raw) => Ok(crate::json::raw_to_value(&raw)),
                None => Err(fail(filter, value)),
            },
            _ => Err(fail(filter, value)),
        },
        GrokFilter::Rubyhash => match value {
            TypedValue::Bytes(s) => match crate::ruby_hash::parse_ruby_hash(s) {
                Some(j) => Ok(j),
                None => Err(fail(filter, value)),
            },
            _ => Err(fail(filter, value)),
        },
        GrokFilter::Querystring => match value {
            TypedValue::Bytes(s) => match crate::query_string::parse_query_string(s) {
                Some(j) => Ok(j),
                None => Err(fail(filter, value)),
            },
            _ => Err(fail(filter, value)),
        },
        GrokFilter::Lowercase => match value {
            TypedValue::Bytes(s) => Ok(TypedValue::Bytes(crate::transcode::lowercase_chars(s))),
            _ => Err(fail(filter, value)),
        },
        GrokFilter::Uppercase => match value {
            TypedValue::Bytes(s) => Ok(TypedValue::Bytes(crate::transcode::uppercase_chars(s))),
            _ => Err(fail(filter, value)),
        },
        GrokFilter::Decodeuricomponent => match value {
            TypedValue::Bytes(s) => Ok(
                TypedValue::Bytes(crate::transcode::percent_decode_chars(s)),
            ),
            _ => Err(fail(filter, value)),
        },
        GrokFilter::Array(b, d, e) => match value {
            TypedValue::Bytes(s) => {
                let toks = match tokenize(s, b, d) {
                    Some(toks) => toks,
                    None => {
                        return Err(fail(filter, value));
                    },
                };
                let ghost tviews = chars_views(toks@);
                match &**e {
                    None => {
                        let mut out: Vec<TypedValue> = Vec::new();
                        let mut i: usize = 0;
                        while i < toks.len()
                            invariant
                                0 <= i <= toks@.len(),
                                tviews == chars_views(toks@),
                                tviews.len() == toks@.len(),
                                out@.len() == i,
                                forall|k: int|
                                    0 <= k < i ==> #[trigger] out@[k].deep_val() == Val::Bytes(
                                        tviews[k],
                                    ),
                            decreases toks@.len() - i,
                        {
                            proof {
                                assert(tviews[i as int] == toks@[i as int]@);
                            }
                            let tv = token_value(&toks[i]);
                            out.push(tv);
                            i += 1;
                        }
                        let ghost outv = out@;
                        let result = TypedValue::Array(out);
                        proof {
                            let lhs = result@->Array_0;
                            let rhs = bytes_vals(tviews);
                            assert(lhs.len() == rhs.len());
                            assert forall|k: int| 0 <= k < lhs.len() implies lhs[k] == rhs[k] by {
                                assert(outv[k].deep_val() == Val::Bytes(tviews[k]));
                                assert(lhs[k] == outv[k].deep_val());
                                assert(rhs[k] == Val::Bytes(tviews[k]));
                            }
                            assert(lhs =~= rhs);
                            assert(val_wf(result@)) by {
                                assert(forall|k: int|
                                    0 <= k < lhs.len() ==> val_wf(#[trigger] lhs[k]));
                            }
                        }
                        Ok(result)
                    },
                    Some(sub) => {
                        proof {
                            assert(filter_wf(sub@));
                        }
                        let ghost outer: Result<Val, RErrView> = apply_spec(filter@, value@);
                        let mut out: Vec<TypedValue> = Vec::new();
                        let mut i: usize = 0;
                        proof {
                            assert(tviews.skip(0int) =~= tviews);
                            assert(outer == (match apply_elems_spec(sub@, tviews) {
                                Ok(vals) => Ok::<Val, RErrView>(Val::Array(vals)),
                                Err(er) => Err::<Val, RErrView>(er),
                            }));
                        }
                        while i < toks.len()
                            invariant
                                0 <= i <= toks@.len(),
                                *filter == GrokFilter::Array(*b, *d, *e),
                                (**e) == Some(*sub),
                                filter_wf(sub@),
                                outer == apply_spec(filter@, value@),
                                outer == (match apply_elems_spec(sub@, tviews) {
                                    Ok(vals) => Ok::<Val, RErrView>(Val::Array(vals)),
                                    Err(er) => Err::<Val, RErrView>(er),
                                }),
                                tviews == chars_views(toks@),
                                tviews.len() == toks@.len(),
                                out@.len() == i,
                                forall|k: int| 0 <= k < i ==> val_wf(#[trigger] out@[k].deep_val()),
                                apply_elems_spec(sub@, tviews) == (match apply_elems_spec(
                                    sub@,
                                    tviews.skip(i as int),
                                ) {
                                    Err(er) => Err::<Seq<Val>, RErrView>(er),
                                    Ok(rest) => Ok(
                                        Seq::new(
                                            out@.len(),
                                            |k: int|
                                                if 0 <= k < out@.len() {
                                                    out@[k].deep_val()
                                                } else {
                                                    Val::Null
                                                },
                                        ) + rest,
                                    ),
                                }),
                            decreases toks@.len() - i,
                        {
                            let ghost tail = tviews.skip(i as int);
                            proof {
                                assert(tviews[i as int] == toks@[i as int]@);
                                assert(tail[0] == tviews[i as int]);
                                assert(tail.skip(1) =~= tviews.skip(i + 1));
                                assert(apply_elems_spec(sub@, tail) == (match apply_spec(
                                    sub@,
                                    Val::Bytes(tail[0]),
                                ) {
                                    Err(e2) => Err::<Seq<Val>, RErrView>(e2),
                                    Ok(v2) => match apply_elems_spec(sub@, tail.skip(1)) {
                                        Err(e2) => Err::<Seq<Val>, RErrView>(e2),
                                        Ok(rest) => Ok::<Seq<Val>, RErrView>(seq![v2] + rest),
                                    },
                                }));
                                assert(decreases_to!(*filter => *sub));
                            }
                            let tv = token_value(&toks[i]);
                            match apply_filter(&tv, sub) {
                                Err(er) => {
                                    proof {
                                        assert(apply_elems_spec(sub@, tail) == Err::<
                                            Seq<Val>,
                                            RErrView,
                                        >(er@));
                                        assert(outer == Err::<Val, RErrView>(er@));
                                    }
                                    return Err(er);
                                },
                                Ok(v) => {
                                    let ghost vv = v@;
                                    let ghost old_out = out@;
                                    out.push(v);
                                    proof {
                                        if apply_elems_spec(sub@, tviews.skip(i + 1)) is Ok {
                                            let rest2 = apply_elems_spec(
                                                sub@,
                                                tviews.skip(i + 1),
                                            )->Ok_0;
                                            let built_new = Seq::new(
                                                out@.len(),
                                                |k: int|
                                                    if 0 <= k < out@.len() {
                                                        out@[k].deep_val()
                                                    } else {
                                                        Val::Null
                                                    },
                                            );
                                            let built_old = Seq::new(
                                                old_out.len(),
                                                |k: int|
                                                    if 0 <= k < old_out.len() {
                                                        old_out[k].deep_val()
                                                    } else {
                                                        Val::Null
                                                    },
                                            );
                                            let lhs = built_new + rest2;
                                            let rhs = built_old + (seq![vv] + rest2);
                                            assert(lhs.len() == rhs.len());
                                            assert forall|k: int|
                                                0 <= k < lhs.len() implies lhs[k] == rhs[k] by {
                                                if k < old_out.len() {
                                                    assert(out@[k] == old_out[k]);
                                                    assert(lhs[k] == old_out[k].deep_val());
                                                    assert(rhs[k] == old_out[k].deep_val());
                                                } else if k == old_out.len() {
                                                    assert(out@[k] == v);
                                                    assert(lhs[k] == vv);
                                                    assert(rhs[k] == vv);
                                                } else {
                                                    assert(lhs[k] == rest2[k - old_out.len()
                                                        - 1]);
                                                    assert(rhs[k] == rest2[k - old_out.len()
                                                        - 1]);
                                                }
                                            }
                                            assert(lhs =~= rhs);
                                        }
                                    }
                                },
                            }
                            i += 1;
                        }
                        proof {
                            assert(tviews.skip(toks@.len() as int) =~= Seq::<Seq<char>>::empty());
                            assert(apply_elems_spec(sub@, Seq::<Seq<char>>::empty()) == Ok::<
                                Seq<Val>,
                                RErrView,
                            >(Seq::empty()));
                        }
                        let ghost outv = out@;
                        let result = TypedValue::Array(out);
                        proof {
                            let vals = apply_elems_spec(sub@, tviews)->Ok_0;
                            let built = Seq::new(
                                outv.len(),
                                |k: int|
                                    if 0 <= k < outv.len() {
                                        outv[k].deep_val()
                                    } else {
                                        Val::Null
                                    },
                            );
                            assert(vals == built + Seq::<Val>::empty());
                            assert(built + Seq::<Val>::empty() =~= built);
                            let lhs = result@->Array_0;
                            assert(lhs.len() == built.len());
                            assert forall|k: int| 0 <= k < lhs.len() implies lhs[k] == built[k]
                                by {
                                assert(lhs[k] == outv[k].deep_val());
                                assert(built[k] == outv[k].deep_val());
                            }
                            assert(lhs =~= built);
                            assert(val_wf(result@)) by {
                                assert(forall|k: int|
                                    0 <= k < lhs.len() ==> val_wf(#[trigger] lhs[k]));
                            }
                        }
                        Ok(result)
                    },
                }
            },
            _ => Err(fail(filter, value)),
        },
    }
}

} // verus!
