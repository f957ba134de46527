//! Error values shared by the parser and the evaluator.
//!
//! Every fallible operation reports a kind, a human-readable message and an
//! optional source line.  The `EOF` kind is never user-visible: it is the
//! sentinel with which the expression parser tells the statement loop that
//! the token stream has ended cleanly.

use vstd::prelude::*;

verus! {

#[derive(Debug, Clone, Copy, PartialEq, Eq, Structural)]
pub enum BoltErrorType {
    GENERIC,
    INTERNAL,
    PARSE,
    EOF,
    EVAL,
}

/// Common shape of the two error types.  `spec_kind`, `spec_message` and
/// `spec_line` expose the fields to contracts; `default_kind` is the kind an
/// error takes when `new` is given none.
pub trait BoltError: Sized {
    spec fn default_kind() -> BoltErrorType;

    spec fn spec_kind(&self) -> BoltErrorType;

    spec fn spec_message(&self) -> Seq<char>;

    spec fn spec_line(&self) -> Option<usize>;

    fn new(message: String, kind: Option<BoltErrorType>, line: Option<usize>) -> (e: Self)
        ensures
            e.spec_kind() == (match kind {
                Some(k) => k,
                None => Self::default_kind(),
            }),
            e.spec_message() == message@,
            e.spec_line() == line,
    ;

    fn get_type(&self) -> (k: BoltErrorType)
        ensures
            k == self.spec_kind(),
    ;

    fn get_message(&self) -> (m: String)
        ensures
            m@ == self.spec_message(),
    ;
}

/// A malformed program.  Defaults to the `PARSE` kind; the `EOF` kind marks
/// the sentinel that ends the top-level statement loop.
#[derive(Debug)]
pub struct ParseError {
    message: String,
    line: Option<usize>,
    kind: BoltErrorType,
}

impl BoltError for ParseError {
    open spec fn default_kind() -> BoltErrorType {
        BoltErrorType::PARSE
    }

    closed spec fn spec_kind(&self) -> BoltErrorType {
        self.kind
    }

    closed spec fn spec_message(&self) -> Seq<char> {
        self.message@
    }

    closed spec fn spec_line(&self) -> Option<usize> {
        self.line
    }

    fn new(message: String, kind: Option<BoltErrorType>, line: Option<usize>) -> (e: Self) {
        let error_kind = match kind {
            Some(k) => k,
            None => BoltErrorType::PARSE,
        };
        ParseError { message, kind: error_kind, line }
    }

    fn get_type(&self) -> (k: BoltErrorType) {
        self.kind
    }

    fn get_message(&self) -> (m: String) {
        self.message.clone()
    }
}

/// A runtime failure in the evaluator.  Defaults to the `EVAL` kind.
#[derive(Debug, Clone)]
pub struct EvaluatorError {
    message: String,
    line: Option<usize>,
    kind: BoltErrorType,
}

impl BoltError for EvaluatorError {
    open spec fn default_kind() -> BoltErrorType {
        BoltErrorType::EVAL
    }

    closed spec fn spec_kind(&self) -> BoltErrorType {
        self.kind
    }

    closed spec fn spec_message(&self) -> Seq<char> {
        self.message@
    }

    closed spec fn spec_line(&self) -> Option<usize> {
        self.line
    }

    fn new(message: String, kind: Option<BoltErrorType>, line: Option<usize>) -> (e: Self) {
        let error_kind = match kind {
            Some(k) => k,
            None => BoltErrorType::EVAL,
        };
        EvaluatorError { message, kind: error_kind, line }
    }

    fn get_type(&self) -> (k: BoltErrorType) {
        self.kind
    }

    fn get_message(&self) -> (m: String) {
        self.message.clone()
    }
}

} // verus!
