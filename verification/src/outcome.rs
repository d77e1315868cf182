use vstd::prelude::*;

verus! {

/// What went wrong: misuse at construction time, or input that no parser
/// in the composition matched at run time.
#[derive(Clone, Copy, Debug, PartialEq, Eq, Structural)]
pub enum ParserErrorKind {
    /// Construction-time misuse, such as a malformed pattern.
    InvalidParameter,
    /// A run-time parse failure: no match, or a repetition or fold that
    /// came up empty.
    UnexpectedInput,
}

/// A parse failure: its kind and a human-readable message.
#[derive(Clone, Debug)]
pub struct ParserError {
    pub kind: ParserErrorKind,
    pub msg: String,
}

impl ParserError {
    /// A run-time parse failure carrying `msg`.
    pub fn unexpected(msg: &str) -> (e: ParserError)
        ensures
            e.kind == ParserErrorKind::UnexpectedInput,
            e.msg@ == msg@,
    {
        ParserError { kind: ParserErrorKind::UnexpectedInput, msg: msg.to_owned() }
    }

    /// A construction-time misuse carrying `msg`.
    pub fn invalid(msg: &str) -> (e: ParserError)
        ensures
            e.kind == ParserErrorKind::InvalidParameter,
            e.msg@ == msg@,
    {
        ParserError { kind: ParserErrorKind::InvalidParameter, msg: msg.to_owned() }
    }
}

/// What a parse returns: a value, or one error.
pub type ParserResult<T> = Result<T, ParserError>;

/// The ordered pair produced by a sequence of two parsers.
#[derive(Clone, Copy, Debug, PartialEq, Eq)]
pub struct Seq2<T, U> {
    pub first: T,
    pub second: U,
}

/// The tagged union produced by an alternative of two parsers: `Left`
/// records that the first branch matched, `Right` the second.
#[derive(Clone, Copy, Debug, PartialEq, Eq)]
pub enum Either<T, U> {
    Left(T),
    Right(U),
}

} // verus!
