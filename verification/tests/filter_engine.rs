//! Tests of the filter compiler and evaluator.

use vector::apply::apply_filter;
use vector::ast::{Function, FunctionArgument};
use vector::decimal::{Dec, Float};
use vector::filter::{GrokFilter, GrokRuntimeError, GrokStaticError};
use vector::value::TypedValue;

fn bytes(s: &str) -> TypedValue {
    TypedValue::Bytes(s.chars().collect())
}

fn chars(s: &str) -> Vec<char> {
    s.chars().collect()
}

fn call(name: &str, args: Vec<FunctionArgument>) -> Function {
    Function { name: name.to_owned(), args: Some(args) }
}

fn lit(s: &str) -> FunctionArgument {
    FunctionArgument::Arg(bytes(s))
}

fn fin(neg: bool, mant: u64, exp: i64) -> Float {
    Float::Finite(Dec { neg, mant, exp })
}

fn fail(name: &str, value: &str) -> GrokRuntimeError {
    GrokRuntimeError::FailedToApplyFilter(name.to_owned(), value.to_owned())
}

#[test]
fn array_with_four_or_more_arguments_fails() {
    for extra in 0..3 {
        let mut args = vec![lit("["), lit(","), lit("x"), lit("y")];
        for _ in 0..extra {
            args.push(lit("z"));
        }
        let r = GrokFilter::try_from(&call("array", args));
        assert_eq!(
            r.err().unwrap(),
            GrokStaticError::InvalidFunctionArguments("array".to_owned())
        );
    }
}

#[test]
fn array_brackets_and_delimiter() {
    let r = GrokFilter::try_from(&call("array", vec![lit("[]"), lit(",")])).unwrap();
    match r {
        GrokFilter::Array(brackets, delim, elem) => {
            assert_eq!(brackets, Some(('[', ']')));
            assert_eq!(delim.unwrap(), chars(","));
            assert!(elem.is_none());
        }
        _ => panic!("expected an array descriptor"),
    }
}

#[test]
fn array_delimiter_and_element_filter() {
    let nested = FunctionArgument::Function(call("integer", vec![]));
    let r = GrokFilter::try_from(&call("array", vec![lit(","), nested])).unwrap();
    match r {
        GrokFilter::Array(brackets, delim, elem) => {
            assert!(brackets.is_none());
            assert_eq!(delim.unwrap(), chars(","));
            assert!(matches!(*elem, Some(GrokFilter::Integer)));
        }
        _ => panic!("expected an array descriptor"),
    }
}

#[test]
fn array_one_character_bracket_names_both() {
    let r = GrokFilter::try_from(&call("array", vec![lit("|"), lit(";")])).unwrap();
    match r {
        GrokFilter::Array(brackets, _, _) => assert_eq!(brackets, Some(('|', '|'))),
        _ => panic!("expected an array descriptor"),
    }
}

#[test]
fn array_bad_bracket_string_fails() {
    let r = GrokFilter::try_from(&call("array", vec![lit("[-]"), lit(",")]));
    assert_eq!(
        r.err().unwrap(),
        GrokStaticError::InvalidFunctionArguments("array".to_owned())
    );
}

#[test]
fn boolean_pattern_compilation() {
    let bad = GrokFilter::try_from(&call("boolean", vec![lit("^y(")]));
    assert_eq!(
        bad.err().unwrap(),
        GrokStaticError::InvalidFunctionArguments("boolean".to_owned())
    );

    let good = GrokFilter::try_from(&call("boolean", vec![lit("^y")])).unwrap();
    assert_eq!(
        apply_filter(&bytes("yes"), &good).unwrap(),
        TypedValue::Boolean(true)
    );
    assert_eq!(
        apply_filter(&bytes("no"), &good).unwrap(),
        TypedValue::Boolean(false)
    );
}

#[test]
fn boolean_default_matches_true_case_insensitively() {
    let f = GrokFilter::try_from(&call("boolean", vec![])).unwrap();
    assert_eq!(apply_filter(&bytes("TRUE"), &f).unwrap(), TypedValue::Boolean(true));
    assert_eq!(apply_filter(&bytes("tRuE"), &f).unwrap(), TypedValue::Boolean(true));
    assert_eq!(apply_filter(&bytes("yes"), &f).unwrap(), TypedValue::Boolean(false));
}

#[test]
fn scale_multiplies_every_numeric_input() {
    let f = GrokFilter::try_from(&call(
        "scale",
        vec![FunctionArgument::Arg(TypedValue::Float(fin(false, 2, 0)))],
    ))
    .unwrap();
    assert_eq!(
        apply_filter(&TypedValue::Integer(5), &f).unwrap(),
        TypedValue::Float(fin(false, 1, 1))
    );
    assert_eq!(
        apply_filter(&TypedValue::Float(fin(false, 25, -1)), &f).unwrap(),
        TypedValue::Float(fin(false, 5, 0))
    );
    assert_eq!(
        apply_filter(&bytes("3"), &f).unwrap(),
        TypedValue::Float(fin(false, 6, 0))
    );
    assert_eq!(
        apply_filter(&TypedValue::Boolean(true), &f),
        Err(fail("Scale", "true"))
    );
}

#[test]
fn scale_widens_an_integer_factor() {
    let f = GrokFilter::try_from(&call(
        "scale",
        vec![FunctionArgument::Arg(TypedValue::Integer(10))],
    ))
    .unwrap();
    assert_eq!(
        apply_filter(&bytes("2.5"), &f).unwrap(),
        TypedValue::Float(fin(false, 25, 0))
    );
}

#[test]
fn array_applies_the_element_filter_to_every_token() {
    let f = GrokFilter::Array(None, Some(chars(",")), Box::new(Some(GrokFilter::Integer)));
    assert_eq!(
        apply_filter(&bytes("1,2,3"), &f).unwrap(),
        TypedValue::Array(vec![
            TypedValue::Integer(1),
            TypedValue::Integer(2),
            TypedValue::Integer(3)
        ])
    );
    assert_eq!(apply_filter(&bytes("1,x,3"), &f), Err(fail("Integer", "x")));
}

#[test]
fn array_without_element_filter_yields_byte_strings() {
    let f = GrokFilter::Array(Some(('[', ']')), Some(chars(",")), Box::new(None));
    assert_eq!(
        apply_filter(&bytes("[a,b]"), &f).unwrap(),
        TypedValue::Array(vec![bytes("a"), bytes("b")])
    );
    assert_eq!(apply_filter(&bytes("a,b"), &f), Err(fail("Array", "a,b")));
}

#[test]
fn null_if_substitutes_the_sentinel() {
    let f = GrokFilter::try_from(&call("nullIf", vec![lit("-")])).unwrap();
    assert_eq!(apply_filter(&bytes("-"), &f).unwrap(), TypedValue::Null);
    assert_eq!(apply_filter(&bytes("abc"), &f).unwrap(), bytes("abc"));
}

#[test]
fn case_filters_are_idempotent() {
    let lower = GrokFilter::Lowercase;
    let upper = GrokFilter::Uppercase;
    for input in ["AbC", "hello", "MIXED case 123", "\u{c4}b\u{e9}"] {
        let once = apply_filter(&bytes(input), &lower).unwrap();
        let twice = apply_filter(&once, &lower).unwrap();
        assert_eq!(once, twice);
        let once_u = apply_filter(&bytes(input), &upper).unwrap();
        let twice_u = apply_filter(&once_u, &upper).unwrap();
        assert_eq!(once_u, twice_u);
    }
    assert_eq!(apply_filter(&bytes("AbC"), &lower).unwrap(), bytes("abc"));
    assert_eq!(apply_filter(&bytes("AbC"), &upper).unwrap(), bytes("ABC"));
}

#[test]
fn wrong_variants_always_name_filter_and_value() {
    assert_eq!(
        apply_filter(&TypedValue::Boolean(true), &GrokFilter::Integer),
        Err(fail("Integer", "true"))
    );
    assert_eq!(
        apply_filter(&TypedValue::Integer(7), &GrokFilter::Json),
        Err(fail("Json", "7"))
    );
    assert_eq!(
        apply_filter(&TypedValue::Null, &GrokFilter::Lowercase),
        Err(fail("Lowercase", "null"))
    );
    assert_eq!(
        apply_filter(&TypedValue::Float(fin(false, 25, -1)), &GrokFilter::Integer),
        Err(fail("Integer", "2.5"))
    );
    assert_eq!(
        apply_filter(
            &TypedValue::Array(vec![TypedValue::Integer(1)]),
            &GrokFilter::Uppercase
        ),
        Err(fail("Uppercase", "[1]"))
    );
}

#[test]
fn json_decodes_objects() {
    let f = GrokFilter::Json;
    assert_eq!(
        apply_filter(&bytes("{\"a\":1}"), &f).unwrap(),
        TypedValue::Object(vec![(chars("a"), TypedValue::Integer(1))])
    );
    assert_eq!(
        apply_filter(&bytes("{\"a\":"), &f),
        Err(fail("Json", "{\"a\":"))
    );
}

#[test]
fn integer_parses_base_ten() {
    let f = GrokFilter::Integer;
    assert_eq!(apply_filter(&bytes("123"), &f).unwrap(), TypedValue::Integer(123));
    assert_eq!(apply_filter(&bytes("-42"), &f).unwrap(), TypedValue::Integer(-42));
    assert_eq!(
        apply_filter(&bytes("-9223372036854775808"), &f).unwrap(),
        TypedValue::Integer(i64::MIN)
    );
    assert_eq!(apply_filter(&bytes("12x"), &f), Err(fail("Integer", "12x")));
    assert_eq!(
        apply_filter(&bytes("9223372036854775808"), &f),
        Err(fail("Integer", "9223372036854775808"))
    );
}

#[test]
fn integer_ext_truncates_toward_zero() {
    let f = GrokFilter::IntegerExt;
    assert_eq!(apply_filter(&bytes("3.99"), &f).unwrap(), TypedValue::Integer(3));
    assert_eq!(apply_filter(&bytes("-3.99"), &f).unwrap(), TypedValue::Integer(-3));
    assert_eq!(apply_filter(&bytes("1e3"), &f).unwrap(), TypedValue::Integer(1000));
    assert_eq!(apply_filter(&bytes("zzz"), &f), Err(fail("IntegerExt", "zzz")));
}

#[test]
fn number_parses_decimals() {
    for f in [GrokFilter::Number, GrokFilter::NumberExt] {
        assert_eq!(
            apply_filter(&bytes("2.5"), &f).unwrap(),
            TypedValue::Float(fin(false, 25, -1))
        );
        assert_eq!(
            apply_filter(&bytes("-10"), &f).unwrap(),
            TypedValue::Float(fin(true, 1, 1))
        );
        assert_eq!(
            apply_filter(&bytes("1e3"), &f).unwrap(),
            TypedValue::Float(fin(false, 1, 3))
        );
        assert!(apply_filter(&bytes("abc"), &f).is_err());
    }
}

#[test]
fn query_string_decodes_pairs() {
    let f = GrokFilter::Querystring;
    assert_eq!(
        apply_filter(&bytes("a=1&b=2"), &f).unwrap(),
        TypedValue::Object(vec![
            (chars("a"), bytes("1")),
            (chars("b"), bytes("2"))
        ])
    );
    assert_eq!(
        apply_filter(&bytes("?only=1"), &f).unwrap(),
        TypedValue::Object(vec![(chars("only"), bytes("1"))])
    );
    assert_eq!(apply_filter(&bytes("nopair"), &f), Err(fail("Querystring", "nopair")));
}

#[test]
fn ruby_hash_decodes_pairs() {
    let f = GrokFilter::Rubyhash;
    assert_eq!(
        apply_filter(&bytes("{\"a\" => \"b\", \"n\" => 1}"), &f).unwrap(),
        TypedValue::Object(vec![
            (chars("a"), bytes("b")),
            (chars("n"), TypedValue::Integer(1))
        ])
    );
    assert_eq!(
        apply_filter(&bytes("{\"flag\" => true, \"none\" => nil}"), &f).unwrap(),
        TypedValue::Object(vec![
            (chars("flag"), TypedValue::Boolean(true)),
            (chars("none"), TypedValue::Null)
        ])
    );
    assert_eq!(apply_filter(&bytes("not a hash"), &f), Err(fail("Rubyhash", "not a hash")));
}

#[test]
fn decode_uri_component_percent_decodes() {
    let f = GrokFilter::Decodeuricomponent;
    assert_eq!(apply_filter(&bytes("a%20b"), &f).unwrap(), bytes("a b"));
    assert_eq!(apply_filter(&bytes("plain"), &f).unwrap(), bytes("plain"));
}

#[test]
fn unknown_filter_name_is_reported() {
    let r = GrokFilter::try_from(&call("frobnicate", vec![]));
    assert_eq!(r.err().unwrap(), GrokStaticError::UnknownFilter("frobnicate".to_owned()));
}

#[test]
fn null_if_argument_policy() {
    let none = GrokFilter::try_from(&Function { name: "nullIf".to_owned(), args: None });
    assert_eq!(
        none.err().unwrap(),
        GrokStaticError::InvalidFunctionArguments("nullIf".to_owned())
    );
    let nested = FunctionArgument::Function(call("integer", vec![]));
    let func_arg = GrokFilter::try_from(&call("nullIf", vec![nested]));
    assert_eq!(
        func_arg.err().unwrap(),
        GrokStaticError::InvalidFunctionArguments("nullIf".to_owned())
    );
    let int_lit = GrokFilter::try_from(&call(
        "nullIf",
        vec![FunctionArgument::Arg(TypedValue::Integer(7))],
    ))
    .unwrap();
    match int_lit {
        GrokFilter::NullIf(s) => assert_eq!(s, chars("7")),
        _ => panic!("expected a nullIf descriptor"),
    }
}

#[test]
fn fixed_arity_filters_reject_extra_arguments() {
    let two_bool = GrokFilter::try_from(&call("boolean", vec![lit("^y"), lit("^n")]));
    assert_eq!(
        two_bool.err().unwrap(),
        GrokStaticError::InvalidFunctionArguments("boolean".to_owned())
    );
    let two_null = GrokFilter::try_from(&call("nullIf", vec![lit("-"), lit("x")]));
    assert_eq!(
        two_null.err().unwrap(),
        GrokStaticError::InvalidFunctionArguments("nullIf".to_owned())
    );
    let two_scale = GrokFilter::try_from(&call(
        "scale",
        vec![
            FunctionArgument::Arg(TypedValue::Integer(2)),
            FunctionArgument::Arg(TypedValue::Integer(3)),
        ],
    ));
    assert_eq!(
        two_scale.err().unwrap(),
        GrokStaticError::InvalidFunctionArguments("scale".to_owned())
    );
}

#[test]
fn json_decodes_floats_and_wide_numbers() {
    let f = GrokFilter::Json;
    assert_eq!(
        apply_filter(&bytes("{\"a\":1.5,\"b\":10000000000000000000}"), &f).unwrap(),
        TypedValue::Object(vec![
            (chars("a"), TypedValue::Float(fin(false, 15, -1))),
            (chars("b"), TypedValue::Float(fin(false, 1, 19)))
        ])
    );
}

#[test]
fn scale_argument_policy() {
    let none = GrokFilter::try_from(&call("scale", vec![]));
    assert_eq!(
        none.err().unwrap(),
        GrokStaticError::InvalidFunctionArguments("scale".to_owned())
    );
    let string_arg = GrokFilter::try_from(&call("scale", vec![lit("2")]));
    assert_eq!(
        string_arg.err().unwrap(),
        GrokStaticError::InvalidFunctionArguments("scale".to_owned())
    );
}

#[test]
fn zero_argument_filters_compile() {
    for name in [
        "integer",
        "integerExt",
        "number",
        "numberExt",
        "json",
        "rubyhash",
        "querystring",
        "lowercase",
        "uppercase",
        "decodeuricomponent",
    ] {
        assert!(GrokFilter::try_from(&call(name, vec![])).is_ok());
    }
    let empty_array = GrokFilter::try_from(&call("array", vec![])).unwrap();
    assert!(matches!(empty_array, GrokFilter::Array(None, None, _)));
}

#[test]
fn nested_array_of_arrays() {
    let inner = FunctionArgument::Function(call(
        "array",
        vec![lit(";"), FunctionArgument::Function(call("integer", vec![]))],
    ));
    let f = GrokFilter::try_from(&call("array", vec![lit(","), inner])).unwrap();
    assert_eq!(
        apply_filter(&bytes("[1;2,3]"), &f).unwrap(),
        TypedValue::Array(vec![
            TypedValue::Array(vec![TypedValue::Integer(1), TypedValue::Integer(2)]),
            TypedValue::Array(vec![TypedValue::Integer(3)])
        ])
    );
}

#[test]
fn number_grammar_edges() {
    let f = GrokFilter::Number;
    assert_eq!(
        apply_filter(&bytes(".5"), &f).unwrap(),
        TypedValue::Float(fin(false, 5, -1))
    );
    assert_eq!(
        apply_filter(&bytes("5."), &f).unwrap(),
        TypedValue::Float(fin(false, 5, 0))
    );
    assert_eq!(
        apply_filter(&bytes("+0.25e2"), &f).unwrap(),
        TypedValue::Float(fin(false, 25, 0))
    );
    assert_eq!(apply_filter(&bytes("inf"), &f).unwrap(), TypedValue::Float(Float::Inf(false)));
    assert_eq!(
        apply_filter(&bytes("-Infinity"), &f).unwrap(),
        TypedValue::Float(Float::Inf(true))
    );
    assert_eq!(apply_filter(&bytes("NaN"), &f).unwrap(), TypedValue::Float(Float::NaN));
    assert_eq!(
        apply_filter(&bytes("1e9999999"), &f).unwrap(),
        TypedValue::Float(fin(false, 1, 9999999))
    );
    assert_eq!(
        apply_filter(&bytes("1e1000000000000000000"), &f).unwrap(),
        TypedValue::Float(Float::Inf(false))
    );
    assert_eq!(
        apply_filter(&bytes("1e-1000000000000000000"), &f).unwrap(),
        TypedValue::Float(fin(false, 0, 0))
    );
    assert_eq!(
        apply_filter(&bytes("0"), &f).unwrap(),
        TypedValue::Float(fin(false, 0, 0))
    );
    for bad in [".", "e5", "1e", "1.2.3", "", "+", "0x10"] {
        assert!(apply_filter(&bytes(bad), &f).is_err(), "{:?} should not parse", bad);
    }
}

#[test]
fn significands_truncate_to_nineteen_digits() {
    let f = GrokFilter::Number;
    assert_eq!(
        apply_filter(&bytes("123456789012345678901"), &f).unwrap(),
        TypedValue::Float(fin(false, 1234567890123456789, 2))
    );
}

#[test]
fn scale_handles_infinities_and_nan() {
    let by_zero = GrokFilter::Scale(fin(false, 0, 0));
    assert_eq!(
        apply_filter(&bytes("inf"), &by_zero).unwrap(),
        TypedValue::Float(Float::NaN)
    );
    let by_two = GrokFilter::Scale(fin(false, 2, 0));
    assert_eq!(
        apply_filter(&TypedValue::Float(Float::Inf(true)), &by_two).unwrap(),
        TypedValue::Float(Float::Inf(true))
    );
    assert_eq!(
        apply_filter(&TypedValue::Float(Float::NaN), &by_two).unwrap(),
        TypedValue::Float(Float::NaN)
    );
}

#[test]
fn integer_ext_saturates_at_the_ends() {
    let f = GrokFilter::IntegerExt;
    assert_eq!(
        apply_filter(&bytes("1e30"), &f).unwrap(),
        TypedValue::Integer(i64::MAX)
    );
    assert_eq!(
        apply_filter(&bytes("-1e30"), &f).unwrap(),
        TypedValue::Integer(i64::MIN)
    );
    assert_eq!(apply_filter(&bytes("NaN"), &f).unwrap(), TypedValue::Integer(0));
}
