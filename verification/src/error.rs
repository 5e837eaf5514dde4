//! The errors of the three passes. Every error is fatal to the pass that
//! reports it: the pass returns at once and yields no partial result.

use vstd::prelude::*;
use crate::token::Token;
use crate::token::TokenView;

verus! {

/// The five families of errors.
#[derive(Clone, Copy, Debug, PartialEq, Eq, Structural)]
pub enum ErrorCategory {
    /// A malformed or unexpected token.
    Token,
    /// A malformed preprocessor directive or macro call.
    Directive,
    /// A name that does not resolve.
    Scope,
    /// An expression whose operands have the wrong type or form.
    Type,
    /// A tree or a size that an earlier stage should not have let through.
    Internal,
}

/// What went wrong.
#[derive(Clone, Copy, Debug, PartialEq, Eq, Structural)]
pub enum ErrorKind {
    /// The input ended where a token was required.
    UnexpectedEof,
    /// A token of another kind was required.
    UnexpectedToken,
    /// `#` is followed by a word that names no directive.
    UnknownDirective,
    /// The input ended inside the argument list of a macro call.
    UnclosedArgument,
    /// A macro is called with another number of arguments than it has parameters.
    ParamCountMismatch,
    /// An identifier is bound in no enclosing scope.
    UndefinedVariable,
    /// A struct has no member of the given name.
    MemberMissing,
    /// The operand of `.` is not a struct.
    StructExpected,
    /// The target of an assignment or of `&` is not an lvalue.
    NotAnLvalue,
    /// Both operands of `+` or `-` are pointers.
    PointerArithmetic,
    /// The operand of `*` is a void pointer.
    DerefVoid,
    /// The operand of `*` is not a pointer.
    DerefNonPointer,
    /// A node of a form that the pass does not handle.
    UnknownNode,
    /// A binary operator for which there is no instruction.
    UnknownOperator,
    /// A call with more arguments than there are argument registers.
    TooManyArguments,
    /// A top-level item that is neither a function nor a global variable.
    NotAFunction,
    /// A size, an offset or a counter that leaves the range of the machine's integers.
    Overflow,
}

impl ErrorKind {
    /// The family that an error of this kind belongs to.
    pub open spec fn spec_category(self) -> ErrorCategory {
        match self {
            ErrorKind::UnexpectedEof | ErrorKind::UnexpectedToken => ErrorCategory::Token,
            ErrorKind::UnknownDirective | ErrorKind::UnclosedArgument
            | ErrorKind::ParamCountMismatch => ErrorCategory::Directive,
            ErrorKind::UndefinedVariable | ErrorKind::MemberMissing => ErrorCategory::Scope,
            ErrorKind::StructExpected | ErrorKind::NotAnLvalue | ErrorKind::PointerArithmetic
            | ErrorKind::DerefVoid | ErrorKind::DerefNonPointer => ErrorCategory::Type,
            ErrorKind::UnknownNode | ErrorKind::UnknownOperator | ErrorKind::TooManyArguments
            | ErrorKind::NotAFunction | ErrorKind::Overflow => ErrorCategory::Internal,
        }
    }

    /// The family that an error of this kind belongs to.
    #[verifier::when_used_as_spec(spec_category)]
    pub fn category(self) -> (c: ErrorCategory)
        ensures
            c == self.spec_category(),
    {
        match self {
            ErrorKind::UnexpectedEof | ErrorKind::UnexpectedToken => ErrorCategory::Token,
            ErrorKind::UnknownDirective | ErrorKind::UnclosedArgument
            | ErrorKind::ParamCountMismatch => ErrorCategory::Directive,
            ErrorKind::UndefinedVariable | ErrorKind::MemberMissing => ErrorCategory::Scope,
            ErrorKind::StructExpected | ErrorKind::NotAnLvalue | ErrorKind::PointerArithmetic
            | ErrorKind::DerefVoid | ErrorKind::DerefNonPointer => ErrorCategory::Type,
            ErrorKind::UnknownNode | ErrorKind::UnknownOperator | ErrorKind::TooManyArguments
            | ErrorKind::NotAFunction | ErrorKind::Overflow => ErrorCategory::Internal,
        }
    }
}

/// An error, with what is known of where it arose.
#[derive(Debug, PartialEq, Eq)]
pub struct Error {
    pub kind: ErrorKind,
    /// The name that did not resolve, or what was expected; may be empty.
    pub detail: String,
    /// The file of the offending token; empty where no token is at hand.
    pub filename: String,
    /// The line of the offending token; 0 where no token is at hand.
    pub line: usize,
}

/// The mathematical value of an [`Error`].
pub ghost struct ErrorView {
    pub kind: ErrorKind,
    pub detail: Seq<char>,
    pub filename: Seq<char>,
    pub line: usize,
}

impl View for Error {
    type V = ErrorView;

    open spec fn view(&self) -> ErrorView {
        ErrorView {
            kind: self.kind,
            detail: self.detail@,
            filename: self.filename@,
            line: self.line,
        }
    }
}

impl Clone for Error {
    fn clone(&self) -> (e: Self)
        ensures
            e == *self,
    {
        Error {
            kind: self.kind,
            detail: self.detail.clone(),
            filename: self.filename.clone(),
            line: self.line,
        }
    }
}

impl ErrorView {
    /// An error of the given kind that no token is at hand for.
    pub open spec fn bare(kind: ErrorKind) -> ErrorView {
        ErrorView { kind, detail: Seq::empty(), filename: Seq::empty(), line: 0 }
    }

    /// An error about a name, with no position.
    pub open spec fn named(kind: ErrorKind, name: Seq<char>) -> ErrorView {
        ErrorView { kind, detail: name, filename: Seq::empty(), line: 0 }
    }

    /// An error at the place of the token `t`.
    pub open spec fn at(kind: ErrorKind, t: TokenView) -> ErrorView {
        ErrorView { kind, detail: Seq::empty(), filename: t.filename, line: t.line }
    }
}

impl Error {
    /// An error of the given kind that no token is at hand for.
    pub fn bare(kind: ErrorKind) -> (e: Error)
        ensures
            e@ == ErrorView::bare(kind),
    {
        Error { kind, detail: String::new(), filename: String::new(), line: 0 }
    }

    /// An error about the name `name`, with no position.
    pub fn named(kind: ErrorKind, name: &String) -> (e: Error)
        ensures
            e@ == ErrorView::named(kind, name@),
    {
        Error { kind, detail: name.clone(), filename: String::new(), line: 0 }
    }

    /// An error at the place of the token `t`.
    pub fn at(kind: ErrorKind, t: &Token) -> (e: Error)
        ensures
            e@ == ErrorView::at(kind, t@),
    {
        Error { kind, detail: String::new(), filename: t.filename.clone(), line: t.line }
    }

    /// The family this error belongs to.
    pub fn category(&self) -> (c: ErrorCategory)
        ensures
            c == self.kind.spec_category(),
    {
        self.kind.category()
    }
}

} // verus!
