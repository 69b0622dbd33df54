use vstd::prelude::*;
use vstd::string::StringExecFns;
use crate::functions::num::{usize_to_string, spec_int_str};

verus! {

/// Errors reported by parsing and evaluation.
#[derive(Debug, PartialEq, Clone)]
pub enum Error {
    /// A builtin was invoked with the wrong number of arguments.
    InvalidNativeFunctionArgs(String, usize),
    /// A `$name(...)` call named no registered builtin.
    UndefinedFunction(String),
    /// The format string is malformed.
    ParseError,
    /// Checked integer arithmetic overflowed.
    OutOfRange,
}

/// The mathematical shape of an `Error`, with strings as character sequences.
pub enum SpecError {
    InvalidNativeFunctionArgs(Seq<char>, int),
    UndefinedFunction(Seq<char>),
    ParseError,
    OutOfRange,
}

impl DeepView for Error {
    type V = SpecError;

    open spec fn deep_view(&self) -> SpecError {
        match self {
            Error::InvalidNativeFunctionArgs(name, n) => SpecError::InvalidNativeFunctionArgs(
                name@,
                *n as int,
            ),
            Error::UndefinedFunction(name) => SpecError::UndefinedFunction(name@),
            Error::ParseError => SpecError::ParseError,
            Error::OutOfRange => SpecError::OutOfRange,
        }
    }
}

/// The human-readable account of an error.
pub open spec fn spec_message(e: SpecError) -> Seq<char> {
    match e {
        SpecError::InvalidNativeFunctionArgs(name, n) => "Syntax Error: Native function '"@ + name
            + "' called with the wrong number of arguments "@ + spec_int_str(n),
        SpecError::UndefinedFunction(name) => "Undefined Function: "@ + name,
        SpecError::ParseError => "Unable the parse the input. Please recheck."@,
        SpecError::OutOfRange => "Arithmetic result out of range."@,
    }
}

impl Error {
    /// Renders the error as the message a host would show.
    pub fn message(&self) -> (r: String)
        ensures
            r@ == spec_message(self.deep_view()),
    {
        match self {
            Error::InvalidNativeFunctionArgs(name, n) => {
                let mut s = "Syntax Error: Native function '".to_owned();
                s.append(name.as_str());
                s.append("' called with the wrong number of arguments ");
                let count = usize_to_string(*n);
                s.append(count.as_str());
                s
            },
            Error::UndefinedFunction(name) => {
                let mut s = "Undefined Function: ".to_owned();
                s.append(name.as_str());
                s
            },
            Error::ParseError => "Unable the parse the input. Please recheck.".to_owned(),
            Error::OutOfRange => "Arithmetic result out of range.".to_owned(),
        }
    }
}

/// Whether an executable string result and a mathematical string result
/// agree, case by case.
pub open spec fn str_res_matches(r: Result<String, Error>, s: Result<Seq<char>, SpecError>) -> bool {
    match r {
        Ok(a) => s is Ok && a@ == s->Ok_0,
        Err(a) => s is Err && a.deep_view() == s->Err_0,
    }
}

/// One node of the parsed format string.
#[derive(Debug, PartialEq)]
pub enum Expr {
    /// Constant text; always truth-true when evaluated.
    Literal(String),
    /// `%name%`: a metadata field reference, resolved at evaluation time.
    Variable(String),
    /// `[...]`: yields its body's text when the body is truth-true, else nothing.
    Conditional(Vec<Expr>),
    /// `$name(arg,...)`: each argument is itself a sequence of expressions.
    FuncCall(String, Vec<Vec<Expr>>),
}

/// The mathematical shape of an `Expr`.
pub enum SpecExpr {
    Literal(Seq<char>),
    Variable(Seq<char>),
    Conditional(Seq<SpecExpr>),
    FuncCall(Seq<char>, Seq<Seq<SpecExpr>>),
}

pub open spec fn expr_view(e: Expr) -> SpecExpr
    decreases e,
{
    match e {
        Expr::Literal(s) => SpecExpr::Literal(s@),
        Expr::Variable(s) => SpecExpr::Variable(s@),
        Expr::Conditional(v) => SpecExpr::Conditional(exprs_view(v@)),
        Expr::FuncCall(name, args) => SpecExpr::FuncCall(name@, arg_groups_view(args@)),
    }
}

/// The view of a function call's argument groups, group by group.
pub open spec fn arg_groups_view(args: Seq<Vec<Expr>>) -> Seq<Seq<SpecExpr>>
    decreases args,
{
    Seq::new(args.len(), |i: int| if 0 <= i < args.len() {
        exprs_view(args[i]@)
    } else {
        Seq::empty()
    })
}

/// The view of a sequence of expressions, element by element.
pub open spec fn exprs_view(v: Seq<Expr>) -> Seq<SpecExpr>
    decreases v,
{
    Seq::new(v.len(), |i: int| if 0 <= i < v.len() {
        expr_view(v[i])
    } else {
        SpecExpr::Literal(Seq::empty())
    })
}

impl DeepView for Expr {
    type V = SpecExpr;

    open spec fn deep_view(&self) -> SpecExpr {
        expr_view(*self)
    }
}

} // verus!
