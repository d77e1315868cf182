use vstd::prelude::*;

use crate::outcome::ParserError;
use crate::outcome::ParserErrorKind;
use crate::state::State;

verus! {

/// The central abstraction: given a mutable cursor, produce a value or a
/// [`ParserError`], with the cursor effects pinned down by two relations.
///
/// `ok_on` and `err_on` are the parser's semantics: which values a run may
/// produce and where it may leave the cursor. Every implementation defines
/// them structurally from its sub-parsers, down to the regular-expression
/// match at the leaves, and `parse` is proved to realise them. A run never
/// changes the input text and never moves the cursor backwards.
pub trait Parser: Sized {
    type Output;

    /// Construction-time conditions that a run relies on.
    spec fn wf(&self) -> bool;

    /// Run on `text` at position `i`, the parser may succeed with value `v`,
    /// leaving the cursor at `j`.
    spec fn ok_on(&self, text: Seq<char>, i: int, v: Self::Output, j: int) -> bool;

    /// Run on `text` at position `i`, the parser may fail with exactly the
    /// error `e`, leaving the cursor at `j`.
    spec fn err_on(&self, text: Seq<char>, i: int, e: ParserError, j: int) -> bool;

    /// Run the parser at the cursor's current position.
    fn parse(&self, s: &mut State) -> (r: Result<Self::Output, ParserError>)
        requires
            self.wf(),
            old(s).wf(),
        ensures
            final(s).wf(),
            final(s).text_view() == old(s).text_view(),
            old(s).position() <= final(s).position(),
            (r matches Ok(v) ==> self.ok_on(
                old(s).text_view(),
                old(s).position(),
                v,
                final(s).position(),
            )),
            (r matches Err(e) ==> self.err_on(
                old(s).text_view(),
                old(s).position(),
                e,
                final(s).position(),
            ) && e.kind == ParserErrorKind::UnexpectedInput),
    ;
}

/// Every success of the parser consumes at least one character.
///
/// An unbounded repetition over a parser that can succeed without consuming
/// input would loop forever; requiring progress of the repeated parser at
/// construction rules that out.
pub open spec fn progresses<P: Parser>(p: &P) -> bool {
    forall|t: Seq<char>, i: int, v: P::Output, j: int| #[trigger] p.ok_on(t, i, v, j) ==> j > i
}

} // verus!
