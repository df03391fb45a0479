//! The filter-invocation AST the rule parser hands to the compiler: a
//! function name with literal or nested-function arguments.

use vstd::prelude::*;

use crate::value::{val_wf, TypedValue, Val};

verus! {

/// One filter invocation: a function name and its arguments.
pub struct Function {
    pub name: String,
    pub args: Option<Vec<FunctionArgument>>,
}

/// An argument: a literal value or a nested invocation (the per-element
/// filter of `array`).
pub enum FunctionArgument {
    Arg(TypedValue),
    Function(Function),
}

/// The mathematical shape of an invocation; absent and empty argument
/// lists read the same way.
pub struct FnView {
    pub name: Seq<char>,
    pub args: Seq<ArgView>,
}

pub enum ArgView {
    Arg(Val),
    Func(FnView),
}

impl Function {
    pub open spec fn deep_fn(&self) -> FnView
        decreases self,
    {
        FnView {
            name: self.name@,
            args: match &self.args {
                Some(list) => Seq::new(
                    list@.len(),
                    |i: int|
                        if 0 <= i < list@.len() {
                            list@[i].deep_arg()
                        } else {
                            ArgView::Arg(Val::Null)
                        },
                ),
                None => Seq::empty(),
            },
        }
    }
}

impl FunctionArgument {
    pub open spec fn deep_arg(&self) -> ArgView
        decreases self,
    {
        match self {
            FunctionArgument::Arg(v) => ArgView::Arg(v.deep_val()),
            FunctionArgument::Function(g) => ArgView::Func(g.deep_fn()),
        }
    }
}

impl View for Function {
    type V = FnView;

    open spec fn view(&self) -> FnView {
        self.deep_fn()
    }
}

/// Every literal value in the invocation is well-formed.
pub open spec fn arg_wf(a: ArgView) -> bool
    decreases a,
{
    match a {
        ArgView::Arg(v) => val_wf(v),
        ArgView::Func(g) => fn_wf(g),
    }
}

pub open spec fn fn_wf(f: FnView) -> bool
    decreases f,
{
    forall|i: int| 0 <= i < f.args.len() ==> arg_wf(#[trigger] f.args[i])
}

} // verus!
