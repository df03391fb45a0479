//! The filter compiler: one invocation AST node becomes a validated,
//! immutable filter descriptor, or a static error that aborts rule
//! loading.

use vstd::prelude::*;

use crate::ast::{arg_wf, fn_wf, ArgView, FnView, Function, FunctionArgument};
use crate::decimal::{float_of_int_spec, float_wf, Float};
use crate::regex_support::{regex_valid, TrueMatcher};
use crate::value::{val_str, val_wf, Val};

verus! {

/// A compiled filter descriptor. Once built it never fails for
/// structural reasons: every parameter was validated at compile time.
pub enum GrokFilter {
    Integer,
    IntegerExt,
    Number,
    NumberExt,
    Boolean(Option<TrueMatcher>),
    NullIf(Vec<char>),
    Scale(Float),
    Json,
    Rubyhash,
    Querystring,
    Lowercase,
    Uppercase,
    Decodeuricomponent,
    Array(Option<(char, char)>, Option<Vec<char>>, Box<Option<GrokFilter>>),
}

/// The mathematical shape of a descriptor; a compiled pattern is
/// represented by its pattern text.
pub enum FilterView {
    Integer,
    IntegerExt,
    Number,
    NumberExt,
    Boolean(Option<Seq<char>>),
    NullIf(Seq<char>),
    Scale(Float),
    Json,
    Rubyhash,
    Querystring,
    Lowercase,
    Uppercase,
    Decodeuricomponent,
    Array(Option<(char, char)>, Option<Seq<char>>, Option<Box<FilterView>>),
}

impl GrokFilter {
    pub open spec fn deep_filter(&self) -> FilterView
        decreases self,
    {
        match self {
            GrokFilter::Integer => FilterView::Integer,
            GrokFilter::IntegerExt => FilterView::IntegerExt,
            GrokFilter::Number => FilterView::Number,
            GrokFilter::NumberExt => FilterView::NumberExt,
            GrokFilter::Boolean(m) => FilterView::Boolean(
                match m {
                    Some(tm) => Some(tm@),
                    None => None,
                },
            ),
            GrokFilter::NullIf(s) => FilterView::NullIf(s@),
            GrokFilter::Scale(x) => FilterView::Scale(*x),
            GrokFilter::Json => FilterView::Json,
            GrokFilter::Rubyhash => FilterView::Rubyhash,
            GrokFilter::Querystring => FilterView::Querystring,
            GrokFilter::Lowercase => FilterView::Lowercase,
            GrokFilter::Uppercase => FilterView::Uppercase,
            GrokFilter::Decodeuricomponent => FilterView::Decodeuricomponent,
            GrokFilter::Array(b, d, e) => FilterView::Array(
                *b,
                match d {
                    Some(dd) => Some(dd@),
                    None => None,
                },
                match &**e {
                    Some(sub) => Some(Box::new(sub.deep_filter())),
                    None => None,
                },
            ),
        }
    }
}

impl View for GrokFilter {
    type V = FilterView;

    open spec fn view(&self) -> FilterView {
        self.deep_filter()
    }
}

/// Every decimal parameter inside the descriptor is canonical.
pub open spec fn filter_wf(f: FilterView) -> bool
    decreases f,
{
    match f {
        FilterView::Scale(x) => float_wf(x),
        FilterView::Array(_b, _d, e) => match e {
            Some(sub) => filter_wf(*sub),
            None => true,
        },
        _ => true,
    }
}

// ---------- errors ----------

/// A compile-time failure: the invocation is malformed and the enclosing
/// rule must not load.
#[derive(Debug, PartialEq, Eq)]
pub enum GrokStaticError {
    UnknownFilter(String),
    InvalidFunctionArguments(String),
}

pub enum SErrView {
    UnknownFilter(Seq<char>),
    InvalidFunctionArguments(Seq<char>),
}

impl View for GrokStaticError {
    type V = SErrView;

    open spec fn view(&self) -> SErrView {
        match self {
            GrokStaticError::UnknownFilter(n) => SErrView::UnknownFilter(n@),
            GrokStaticError::InvalidFunctionArguments(n) => SErrView::InvalidFunctionArguments(
                n@,
            ),
        }
    }
}

/// A run-time failure: the filter's display name and the offending
/// value's display text.
#[derive(Debug, PartialEq, Eq)]
pub enum GrokRuntimeError {
    FailedToApplyFilter(String, String),
}

pub enum RErrView {
    FailedToApplyFilter(Seq<char>, Seq<char>),
}

impl View for GrokRuntimeError {
    type V = RErrView;

    open spec fn view(&self) -> RErrView {
        match self {
            GrokRuntimeError::FailedToApplyFilter(n, v) => RErrView::FailedToApplyFilter(
                n@,
                v@,
            ),
        }
    }
}

// ---------- the compiler ----------

/// A bracket-pair string: one character names both brackets, two name
/// the open and close brackets; any other length is malformed.
pub open spec fn brackets_spec(b: Seq<char>) -> Option<(char, char)> {
    if b.len() == 1 {
        Some((b[0], b[0]))
    } else if b.len() == 2 {
        Some((b[0], b[1]))
    } else {
        None
    }
}

/// Assemble an array descriptor once its pieces are gathered: a present
/// bracket string must be a valid pair.
pub open spec fn finish_array_spec(
    name: Seq<char>,
    b: Option<Seq<char>>,
    d: Option<Seq<char>>,
    e: Option<Box<FilterView>>,
) -> Result<FilterView, SErrView> {
    match b {
        None => Ok(FilterView::Array(None, d, e)),
        Some(bs) => match brackets_spec(bs) {
            Some(p) => Ok(FilterView::Array(Some(p), d, e)),
            None => Err(SErrView::InvalidFunctionArguments(name)),
        },
    }
}

/// What compiling one invocation yields: the descriptor, or the exact
/// static error. Dispatch is by name; each filter's argument policy is
/// spelled out arm by arm.
pub open spec fn compile_spec(f: FnView) -> Result<FilterView, SErrView>
    decreases f,
{
    let inv = SErrView::InvalidFunctionArguments(f.name);
    if f.name == "boolean"@ {
        if f.args.len() == 0 {
            Ok(FilterView::Boolean(None))
        } else if f.args.len() == 1 {
            match f.args[0] {
                ArgView::Arg(v) => match v {
                    Val::Bytes(p) => if regex_valid(p) {
                        Ok(FilterView::Boolean(Some(p)))
                    } else {
                        Err(inv)
                    },
                    _ => Err(inv),
                },
                _ => Err(inv),
            }
        } else {
            Err(inv)
        }
    } else if f.name == "nullIf"@ {
        if f.args.len() == 1 {
            match f.args[0] {
                ArgView::Arg(v) => Ok(FilterView::NullIf(val_str(v))),
                _ => Err(inv),
            }
        } else {
            Err(inv)
        }
    } else if f.name == "scale"@ {
        if f.args.len() == 1 {
            match f.args[0] {
                ArgView::Arg(v) => match v {
                    Val::Integer(i) => Ok(FilterView::Scale(float_of_int_spec(i))),
                    Val::Float(x) => Ok(FilterView::Scale(x)),
                    _ => Err(inv),
                },
                _ => Err(inv),
            }
        } else {
            Err(inv)
        }
    } else if f.name == "array"@ {
        let n = f.args.len();
        if n == 0 {
            Ok(FilterView::Array(None, None, None))
        } else if n == 1 {
            match f.args[0] {
                ArgView::Arg(v) => match v {
                    Val::Bytes(d) => Ok(FilterView::Array(None, Some(d), None)),
                    _ => Err(inv),
                },
                ArgView::Func(g) => match compile_spec(g) {
                    Ok(e) => Ok(FilterView::Array(None, None, Some(Box::new(e)))),
                    Err(er) => Err(er),
                },
            }
        } else if n == 2 {
            match f.args[0] {
                ArgView::Arg(v0) => match v0 {
                    Val::Bytes(s0) => match f.args[1] {
                        ArgView::Arg(v1) => match v1 {
                            Val::Bytes(s1) => finish_array_spec(
                                f.name,
                                Some(s0),
                                Some(s1),
                                None,
                            ),
                            _ => Err(inv),
                        },
                        ArgView::Func(g) => match compile_spec(g) {
                            Ok(e) => finish_array_spec(
                                f.name,
                                None,
                                Some(s0),
                                Some(Box::new(e)),
                            ),
                            Err(er) => Err(er),
                        },
                    },
                    _ => Err(inv),
                },
                _ => Err(inv),
            }
        } else if n == 3 {
            match f.args[0] {
                ArgView::Arg(v0) => match v0 {
                    Val::Bytes(s0) => match f.args[1] {
                        ArgView::Arg(v1) => match v1 {
                            Val::Bytes(s1) => match f.args[2] {
                                ArgView::Func(g) => match compile_spec(g) {
                                    Ok(e) => finish_array_spec(
                                        f.name,
                                        Some(s0),
                                        Some(s1),
                                        Some(Box::new(e)),
                                    ),
                                    Err(er) => Err(er),
                                },
                                _ => Err(inv),
                            },
                            _ => Err(inv),
                        },
                        _ => Err(inv),
                    },
                    _ => Err(inv),
                },
                _ => Err(inv),
            }
        } else {
            Err(inv)
        }
    } else if f.name == "integer"@ {
        Ok(FilterView::Integer)
    } else if f.name == "integerExt"@ {
        Ok(FilterView::IntegerExt)
    } else if f.name == "number"@ {
        Ok(FilterView::Number)
    } else if f.name == "numberExt"@ {
        Ok(FilterView::NumberExt)
    } else if f.name == "json"@ {
        Ok(FilterView::Json)
    } else if f.name == "rubyhash"@ {
        Ok(FilterView::Rubyhash)
    } else if f.name == "querystring"@ {
        Ok(FilterView::Querystring)
    } else if f.name == "lowercase"@ {
        Ok(FilterView::Lowercase)
    } else if f.name == "uppercase"@ {
        Ok(FilterView::Uppercase)
    } else if f.name == "decodeuricomponent"@ {
        Ok(FilterView::Decodeuricomponent)
    } else {
        Err(SErrView::UnknownFilter(f.name))
    }
}

/// The result of a compilation, viewed mathematically.
pub open spec fn compile_result_view(r: Result<GrokFilter, GrokStaticError>) -> Result<
    FilterView,
    SErrView,
> {
    match r {
        Ok(g) => Ok(g@),
        Err(e) => Err(e@),
    }
}

fn is_name(nm: &Vec<char>, lit: &str) -> (r: bool)
    ensures
        r == (nm@ == lit@),
{
    let l = crate::text::str_to_chars(lit);
    crate::text::chars_eq(nm, &l)
}

fn brackets_of(b: &Vec<char>) -> (r: Option<(char, char)>)
    ensures
        r == brackets_spec(b@),
{
    if b.len() == 1 {
        Some((b[0], b[0]))
    } else if b.len() == 2 {
        Some((b[0], b[1]))
    } else {
        None
    }
}

impl GrokFilter {
    /// Compile one invocation into a descriptor, exactly as
    /// `compile_spec` describes.
    pub fn try_from(f: &Function) -> (r: Result<GrokFilter, GrokStaticError>)
        requires
            fn_wf(f@),
        ensures
            compile_result_view(r) == compile_spec(f@),
            r matches Ok(g) ==> filter_wf(g@),
        decreases *f, 1int,
    {
        let nm = crate::text::str_to_chars(f.name.as_str());
        let nargs: usize = match &f.args {
            Some(list) => list.len(),
            None => 0,
        };
        proof {
            assert(nargs == f@.args.len());
        }
        if is_name(&nm, "boolean") {
            if nargs == 0 {
                Ok(GrokFilter::Boolean(None))
            } else if nargs == 1 {
                let list = match &f.args {
                    Some(list) => list,
                    None => {
                        proof {
                            assert(false);
                        }
                        return Err(GrokStaticError::InvalidFunctionArguments(f.name.clone()));
                    },
                };
                proof {
                    assert(f@.args[0] == list@[0].deep_arg());
                }
                match &list[0] {
                    FunctionArgument::Arg(v) => match v {
                        crate::value::TypedValue::Bytes(p) => {
                            match TrueMatcher::new(p) {
                                Some(m) => Ok(GrokFilter::Boolean(Some(m))),
                                None => Err(
                                    GrokStaticError::InvalidFunctionArguments(f.name.clone()),
                                ),
                            }
                        },
                        _ => Err(GrokStaticError::InvalidFunctionArguments(f.name.clone())),
                    },
                    _ => Err(GrokStaticError::InvalidFunctionArguments(f.name.clone())),
                }
            } else {
                Err(GrokStaticError::InvalidFunctionArguments(f.name.clone()))
            }
        } else if is_name(&nm, "nullIf") {
            if nargs == 1 {
                let list = match &f.args {
                    Some(list) => list,
                    None => {
                        proof {
                            assert(false);
                        }
                        return Err(GrokStaticError::InvalidFunctionArguments(f.name.clone()));
                    },
                };
                proof {
                    assert(f@.args[0] == list@[0].deep_arg());
                    assert(arg_wf(f@.args[0]));
                }
                match &list[0] {
                    FunctionArgument::Arg(v) => {
                        let sentinel = v.to_chars();
                        Ok(GrokFilter::NullIf(sentinel))
                    },
                    _ => Err(GrokStaticError::InvalidFunctionArguments(f.name.clone())),
                }
            } else {
                Err(GrokStaticError::InvalidFunctionArguments(f.name.clone()))
            }
        } else if is_name(&nm, "scale") {
            if nargs == 1 {
                let list = match &f.args {
                    Some(list) => list,
                    None => {
                        proof {
                            assert(false);
                        }
                        return Err(GrokStaticError::InvalidFunctionArguments(f.name.clone()));
                    },
                };
                proof {
                    assert(f@.args[0] == list@[0].deep_arg());
                    assert(arg_wf(f@.args[0]));
                }
                match &list[0] {
                    FunctionArgument::Arg(v) => match v {
                        crate::value::TypedValue::Integer(i) => Ok(
                            GrokFilter::Scale(crate::decimal::float_of_i64(*i)),
                        ),
                        crate::value::TypedValue::Float(x) => Ok(GrokFilter::Scale(*x)),
                        _ => Err(GrokStaticError::InvalidFunctionArguments(f.name.clone())),
                    },
                    _ => Err(GrokStaticError::InvalidFunctionArguments(f.name.clone())),
                }
            } else {
                Err(GrokStaticError::InvalidFunctionArguments(f.name.clone()))
            }
        } else if is_name(&nm, "array") {
            Self::compile_array(f, &nm, nargs)
        } else if is_name(&nm, "integer") {
            Ok(GrokFilter::Integer)
        } else if is_name(&nm, "integerExt") {
            Ok(GrokFilter::IntegerExt)
        } else if is_name(&nm, "number") {
            Ok(GrokFilter::Number)
        } else if is_name(&nm, "numberExt") {
            Ok(GrokFilter::NumberExt)
        } else if is_name(&nm, "json") {
            Ok(GrokFilter::Json)
        } else if is_name(&nm, "rubyhash") {
            Ok(GrokFilter::Rubyhash)
        } else if is_name(&nm, "querystring") {
            Ok(GrokFilter::Querystring)
        } else if is_name(&nm, "lowercase") {
            Ok(GrokFilter::Lowercase)
        } else if is_name(&nm, "uppercase") {
            Ok(GrokFilter::Uppercase)
        } else if is_name(&nm, "decodeuricomponent") {
            Ok(GrokFilter::Decodeuricomponent)
        } else {
            Err(GrokStaticError::UnknownFilter(f.name.clone()))
        }
    }

    /// The argument table of the array filter: positional disambiguation
    /// by count and shape.
    fn compile_array(f: &Function, nm: &Vec<char>, nargs: usize) -> (r: Result<
        GrokFilter,
        GrokStaticError,
    >)
        requires
            fn_wf(f@),
            nm@ == f@.name,
            nm@ == "array"@,
            f@.name != "boolean"@,
            f@.name != "nullIf"@,
            f@.name != "scale"@,
            nargs == f@.args.len(),
        ensures
            compile_result_view(r) == compile_spec(f@),
            r matches Ok(g) ==> filter_wf(g@),
        decreases *f, 0int,
    {
        if nargs == 0 {
            return Ok(GrokFilter::Array(None, None, Box::new(None)));
        }
        let list = match &f.args {
            Some(list) => list,
            None => {
                proof {
                    assert(false);
                }
                return Err(GrokStaticError::InvalidFunctionArguments(f.name.clone()));
            },
        };
        proof {
            assert(forall|k: int| 0 <= k < list@.len() ==> f@.args[k] == #[trigger] list@[
            k].deep_arg());
        }
        if nargs == 1 {
            match &list[0] {
                FunctionArgument::Arg(v) => match v {
                    crate::value::TypedValue::Bytes(d) => {
                        let mut dd: Vec<char> = Vec::new();
                        let n = d.len();
                        crate::text::push_range(&mut dd, d, 0, n);
                        proof {
                            assert(dd@ =~= d@);
                        }
                        Ok(GrokFilter::Array(None, Some(dd), Box::new(None)))
                    },
                    _ => Err(GrokStaticError::InvalidFunctionArguments(f.name.clone())),
                },
                FunctionArgument::Function(g) => {
                    proof {
                        assert(decreases_to!(*list => list@[0int]));
                        assert(decreases_to!(*f => list@[0int]));
                        assert(arg_wf(f@.args[0]));
                    }
                    match Self::try_from(g) {
                        Ok(sub) => Ok(GrokFilter::Array(None, None, Box::new(Some(sub)))),
                        Err(e) => Err(e),
                    }
                },
            }
        } else if nargs == 2 {
            match &list[0] {
                FunctionArgument::Arg(v0) => match v0 {
                    crate::value::TypedValue::Bytes(s0) => match &list[1] {
                        FunctionArgument::Arg(v1) => match v1 {
                            crate::value::TypedValue::Bytes(s1) => {
                                let b = match brackets_of(s0) {
                                    Some(p) => p,
                                    None => {
                                        return Err(
                                            GrokStaticError::InvalidFunctionArguments(
                                                f.name.clone(),
                                            ),
                                        );
                                    },
                                };
                                let mut dd: Vec<char> = Vec::new();
                                let n = s1.len();
                                crate::text::push_range(&mut dd, s1, 0, n);
                                proof {
                                    assert(dd@ =~= s1@);
                                }
                                Ok(GrokFilter::Array(Some(b), Some(dd), Box::new(None)))
                            },
                            _ => Err(
                                GrokStaticError::InvalidFunctionArguments(f.name.clone()),
                            ),
                        },
                        FunctionArgument::Function(g) => {
                            proof {
                                assert(decreases_to!(*list => list@[1int]));
                                assert(decreases_to!(*f => list@[1int]));
                                assert(arg_wf(f@.args[1]));
                            }
                            match Self::try_from(g) {
                                Ok(sub) => {
                                    let mut dd: Vec<char> = Vec::new();
                                    let n = s0.len();
                                    crate::text::push_range(&mut dd, s0, 0, n);
                                    proof {
                                        assert(dd@ =~= s0@);
                                    }
                                    Ok(GrokFilter::Array(None, Some(dd), Box::new(Some(sub))))
                                },
                                Err(e) => Err(e),
                            }
                        },
                    },
                    _ => Err(GrokStaticError::InvalidFunctionArguments(f.name.clone())),
                },
                _ => Err(GrokStaticError::InvalidFunctionArguments(f.name.clone())),
            }
        } else if nargs == 3 {
            match &list[0] {
                FunctionArgument::Arg(v0) => match v0 {
                    crate::value::TypedValue::Bytes(s0) => match &list[1] {
                        FunctionArgument::Arg(v1) => match v1 {
                            crate::value::TypedValue::Bytes(s1) => match &list[2] {
                                FunctionArgument::Function(g) => {
                                    proof {
                                        assert(decreases_to!(*list => list@[2int]));
                                        assert(decreases_to!(*f => list@[2int]));
                                        assert(arg_wf(f@.args[2]));
                                    }
                                    match Self::try_from(g) {
                                        Ok(sub) => {
                                            let b = match brackets_of(s0) {
                                                Some(p) => p,
                                                None => {
                                                    return Err(
                                                        GrokStaticError::InvalidFunctionArguments(
                                                            f.name.clone(),
                                                        ),
                                                    );
                                                },
                                            };
                                            let mut dd: Vec<char> = Vec::new();
                                            let n = s1.len();
                                            crate::text::push_range(&mut dd, s1, 0, n);
                                            proof {
                                                assert(dd@ =~= s1@);
                                            }
                                            Ok(
                                                GrokFilter::Array(
                                                    Some(b),
                                                    Some(dd),
                                                    Box::new(Some(sub)),
                                                ),
                                            )
                                        },
                                        Err(e) => Err(e),
                                    }
                                },
                                _ => Err(
                                    GrokStaticError::InvalidFunctionArguments(f.name.clone()),
                                ),
                            },
                            _ => Err(
                                GrokStaticError::InvalidFunctionArguments(f.name.clone()),
                            ),
                        },
                        _ => Err(GrokStaticError::InvalidFunctionArguments(f.name.clone())),
                    },
                    _ => Err(GrokStaticError::InvalidFunctionArguments(f.name.clone())),
                },
                _ => Err(GrokStaticError::InvalidFunctionArguments(f.name.clone())),
            }
        } else {
            Err(GrokStaticError::InvalidFunctionArguments(f.name.clone()))
        }
    }
}


/// The display name of a filter, used in runtime errors.
pub open spec fn name_of(f: FilterView) -> Seq<char> {
    match f {
        FilterView::Integer => "Integer"@,
        FilterView::IntegerExt => "IntegerExt"@,
        FilterView::Number => "Number"@,
        FilterView::NumberExt => "NumberExt"@,
        FilterView::Boolean(_) => "Boolean"@,
        FilterView::NullIf(_) => "NullIf"@,
        FilterView::Scale(_) => "Scale"@,
        FilterView::Json => "Json"@,
        FilterView::Rubyhash => "Rubyhash"@,
        FilterView::Querystring => "Querystring"@,
        FilterView::Lowercase => "Lowercase"@,
        FilterView::Uppercase => "Uppercase"@,
        FilterView::Decodeuricomponent => "Decodeuricomponent"@,
        FilterView::Array(_b, _d, _e) => "Array"@,
    }
}

impl GrokFilter {
    /// The display name of this filter.
    pub fn name(&self) -> (r: String)
        ensures
            r@ == name_of(self@),
    {
        match self {
            GrokFilter::Integer => "Integer".to_owned(),
            GrokFilter::IntegerExt => "IntegerExt".to_owned(),
            GrokFilter::Number => "Number".to_owned(),
            GrokFilter::NumberExt => "NumberExt".to_owned(),
            GrokFilter::Boolean(_) => "Boolean".to_owned(),
            GrokFilter::NullIf(_) => "NullIf".to_owned(),
            GrokFilter::Scale(_) => "Scale".to_owned(),
            GrokFilter::Json => "Json".to_owned(),
            GrokFilter::Rubyhash => "Rubyhash".to_owned(),
            GrokFilter::Querystring => "Querystring".to_owned(),
            GrokFilter::Lowercase => "Lowercase".to_owned(),
            GrokFilter::Uppercase => "Uppercase".to_owned(),
            GrokFilter::Decodeuricomponent => "Decodeuricomponent".to_owned(),
            GrokFilter::Array(_b, _d, _e) => "Array".to_owned(),
        }
    }
}

} // verus!
