//! Laws of the filter engine, stated and proved once and for all inputs.

use vstd::prelude::*;

use crate::apply::{apply_spec, fail_spec};
use crate::filter::{compile_spec, FilterView, SErrView};
use crate::text::ascii_lower_char;
use crate::transcode::{ascii_upper_char, is_ascii_seq, lower_spec, upper_spec};
use crate::value::Val;

verus! {

/// Compiling `array` with four or more arguments always fails with
/// `InvalidFunctionArguments`, whatever the arguments are.
pub proof fn lemma_array_arity(f: crate::ast::FnView)
    requires
        f.name == "array"@,
        f.args.len() >= 4,
    ensures
        compile_spec(f) == Err::<FilterView, SErrView>(
            SErrView::InvalidFunctionArguments(f.name),
        ),
{
    reveal_strlit("array");
    reveal_strlit("boolean");
    reveal_strlit("nullIf");
    reveal_strlit("scale");
    assert("array"@ != "boolean"@) by {
        assert("array"@.len() != "boolean"@.len());
    }
    assert("array"@ != "nullIf"@) by {
        assert("array"@.len() != "nullIf"@.len());
    }
    assert("array"@ != "scale"@) by {
        assert("array"@[0] != "scale"@[0]);
    }
}

/// Which input variants a filter accepts: byte strings everywhere, and
/// additionally the two numeric variants for `Scale`.
pub open spec fn accepts(f: FilterView, v: Val) -> bool {
    match f {
        FilterView::Scale(_x) => v is Bytes || v is Integer || v is Float,
        _ => v is Bytes,
    }
}

/// On a value of a variant the filter does not accept, evaluation always
/// returns `FailedToApplyFilter` naming the filter and the value — never
/// any other outcome (and, the evaluator being verified total code,
/// never a panic).
pub proof fn lemma_reject_wrong_variant(f: FilterView, v: Val)
    requires
        !accepts(f, v),
    ensures
        apply_spec(f, v) == Err::<Val, crate::filter::RErrView>(fail_spec(f, v)),
{
}

/// Lower-casing is idempotent on ASCII text: applying the lowercase
/// filter to its own output gives that output back. (Non-ASCII text goes
/// through the standard library's Unicode folding, of which no such fact
/// is assumed.)
pub proof fn lemma_lowercase_idempotent(s: Seq<char>)
    requires
        is_ascii_seq(s),
    ensures
        apply_spec(FilterView::Lowercase, Val::Bytes(s)) == Ok::<
            Val,
            crate::filter::RErrView,
        >(Val::Bytes(lower_spec(s))),
        apply_spec(FilterView::Lowercase, Val::Bytes(lower_spec(s))) == Ok::<
            Val,
            crate::filter::RErrView,
        >(Val::Bytes(lower_spec(s))),
{
    let once = lower_spec(s);
    assert(once == s.map_values(|c: char| ascii_lower_char(c)));
    assert(is_ascii_seq(once)) by {
        assert(forall|i: int|
            0 <= i < once.len() ==> once[i] == ascii_lower_char(s[i]));
    }
    assert(lower_spec(once) == once) by {
        let twice = once.map_values(|c: char| ascii_lower_char(c));
        assert(twice.len() == once.len());
        assert forall|i: int| 0 <= i < once.len() implies twice[i] == once[i] by {
            assert(twice[i] == ascii_lower_char(once[i]));
            assert(once[i] == ascii_lower_char(s[i]));
            assert(ascii_lower_char(ascii_lower_char(s[i])) == ascii_lower_char(s[i]));
        }
        assert(twice =~= once);
    }
}

/// Upper-casing is idempotent on ASCII text, in the same way.
pub proof fn lemma_uppercase_idempotent(s: Seq<char>)
    requires
        is_ascii_seq(s),
    ensures
        apply_spec(FilterView::Uppercase, Val::Bytes(s)) == Ok::<
            Val,
            crate::filter::RErrView,
        >(Val::Bytes(upper_spec(s))),
        apply_spec(FilterView::Uppercase, Val::Bytes(upper_spec(s))) == Ok::<
            Val,
            crate::filter::RErrView,
        >(Val::Bytes(upper_spec(s))),
{
    let once = upper_spec(s);
    assert(once == s.map_values(|c: char| ascii_upper_char(c)));
    assert(is_ascii_seq(once)) by {
        assert(forall|i: int|
            0 <= i < once.len() ==> once[i] == ascii_upper_char(s[i]));
    }
    assert(upper_spec(once) == once) by {
        let twice = once.map_values(|c: char| ascii_upper_char(c));
        assert(twice.len() == once.len());
        assert forall|i: int| 0 <= i < once.len() implies twice[i] == once[i] by {
            assert(twice[i] == ascii_upper_char(once[i]));
            assert(once[i] == ascii_upper_char(s[i]));
            assert(ascii_upper_char(ascii_upper_char(s[i])) == ascii_upper_char(s[i]));
        }
        assert(twice =~= once);
    }
}


/// The zero-argument filters never fail to compile, whatever arguments
/// the invocation carries.
pub proof fn lemma_zero_argument_filters_total(f: crate::ast::FnView)
    requires
        f.name == "integer"@ || f.name == "integerExt"@ || f.name == "number"@ || f.name
            == "numberExt"@ || f.name == "json"@ || f.name == "rubyhash"@ || f.name
            == "querystring"@ || f.name == "lowercase"@ || f.name == "uppercase"@ || f.name
            == "decodeuricomponent"@,
    ensures
        compile_spec(f) is Ok,
{
    reveal_strlit("integer");
    reveal_strlit("integerExt");
    reveal_strlit("number");
    reveal_strlit("numberExt");
    reveal_strlit("json");
    reveal_strlit("rubyhash");
    reveal_strlit("querystring");
    reveal_strlit("lowercase");
    reveal_strlit("uppercase");
    reveal_strlit("decodeuricomponent");
    reveal_strlit("boolean");
    reveal_strlit("nullIf");
    reveal_strlit("scale");
    reveal_strlit("array");
    assert("boolean"@.len() == 7);
    assert("nullIf"@.len() == 6);
    assert("scale"@.len() == 5);
    assert("array"@.len() == 5);
    assert("integer"@.len() == 7);
    assert("integerExt"@.len() == 10);
    assert("number"@.len() == 6);
    assert("numberExt"@.len() == 9);
    assert("json"@.len() == 4);
    assert("rubyhash"@.len() == 8);
    assert("querystring"@.len() == 11);
    assert("lowercase"@.len() == 9);
    assert("uppercase"@.len() == 9);
    assert("decodeuricomponent"@.len() == 18);
    assert("integer"@ != "boolean"@) by {
        assert("integer"@[0] != "boolean"@[0]);
    }
    assert("number"@ != "nullIf"@) by {
        assert("number"@[2] != "nullIf"@[2]);
    }
}

} // verus!
