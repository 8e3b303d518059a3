use vstd::prelude::*;
use crate::span::{FC, FileId};

verus! {

/// The context in which an error appeared.
#[derive(Debug, Clone, Copy)]
pub struct ErrorContext {
    /// Where the enclosing construct began, with a description of it, so
    /// that a message can point back to its start.
    pub start: Option<(FC, &'static str)>,
    /// The kind of item that was being parsed.
    pub while_parsing: &'static str,
    /// What was expected when the error appeared.
    pub expected: Option<&'static str>,
}

/// The empty context that every chain starts from.
pub open spec fn ctx_empty() -> ErrorContext {
    ErrorContext { start: None, while_parsing: "", expected: None }
}

pub open spec fn ctx_start(c: ErrorContext, fc: FC, desc: &'static str) -> ErrorContext {
    ErrorContext { start: Some((fc, desc)), ..c }
}

pub open spec fn ctx_while(c: ErrorContext, desc: &'static str) -> ErrorContext {
    ErrorContext { while_parsing: desc, ..c }
}

pub open spec fn ctx_expected(c: ErrorContext, desc: &'static str) -> ErrorContext {
    ErrorContext { expected: Some(desc), ..c }
}

impl ErrorContext {
    /// The empty context: no start, no production, nothing expected.
    pub fn empty() -> (r: Self)
        ensures
            r == ctx_empty(),
    {
        ErrorContext { start: None, while_parsing: "", expected: None }
    }

    /// This context, marking `fc` as the start of the enclosing construct.
    pub fn start(self, fc: FC, reference_desc: &'static str) -> (r: Self)
        ensures
            r == ctx_start(self, fc, reference_desc),
    {
        ErrorContext { start: Some((fc, reference_desc)), ..self }
    }

    /// This context, naming the production being parsed.
    pub fn while_parsing(self, while_parsing: &'static str) -> (r: Self)
        ensures
            r == ctx_while(self, while_parsing),
    {
        ErrorContext { while_parsing, ..self }
    }

    /// This context, naming what was expected.
    pub fn expected(self, expected: &'static str) -> (r: Self)
        ensures
            r == ctx_expected(self, expected),
    {
        ErrorContext { expected: Some(expected), ..self }
    }
}

impl Default for ErrorContext {
    fn default() -> (r: Self)
        ensures
            r == ctx_empty(),
    {
        ErrorContext::empty()
    }
}

/// Why a parse failed.
#[derive(Debug, Clone, Copy)]
pub enum Error {
    /// A token did not fit the production being parsed.
    UnexpectedToken(FC, ErrorContext),
    /// The tokens ended where the production needed one more.
    UnexpectedEnd(FileId, ErrorContext),
}

} // verus!
