use vstd::prelude::*;

use crate::compose::Apply;
use crate::literal::Lit;
use crate::outcome::ParserError;
use crate::parser::Parser;
use crate::repeat::Slurp;

verus! {

/// Literal atomicity, failing half: a failing literal leaves the cursor
/// exactly where it found it.
pub proof fn lemma_literal_atomic(l: &Lit, t: Seq<char>, i: int, e: ParserError, j: int)
    requires
        l.err_on(t, i, e, j),
    ensures
        j == i,
{
}

/// Literal atomicity, succeeding half: a succeeding literal advances the
/// cursor by exactly the matched text's length.
pub proof fn lemma_literal_advance(l: &Lit, t: Seq<char>, i: int, v: String, j: int)
    requires
        l.ok_on(t, i, v, j),
    ensures
        j == i + v@.len(),
{
}

/// Transform identity: under a callable that can only return its argument,
/// the transform fails exactly as the wrapped parser fails, with the same
/// error value and the same cursor effect, and every success of the
/// transform is a success of the wrapped parser with the same value and the
/// same cursor effect. (The converse inclusion of successes would need the
/// callable's postcondition to hold of every identical pair, which cannot be
/// stated of an executable callable, whose postcondition only bounds what it
/// may return.)
pub proof fn lemma_transform_identity<P: Parser, F: Fn(P::Output) -> P::Output>(
    a: &Apply<P, F>,
    t: Seq<char>,
    i: int,
    v: P::Output,
    e: ParserError,
    j: int,
)
    requires
        forall|w: P::Output, u: P::Output| #[trigger] call_ensures(a.f, (w,), u) ==> u == w,
    ensures
        a.ok_on(t, i, v, j) ==> a.inner.ok_on(t, i, v, j),
        a.err_on(t, i, e, j) <==> a.inner.err_on(t, i, e, j),
{
}

/// Unbounded repetition's minimum: a success always collects at least one
/// value.
pub proof fn lemma_slurp_nonempty<P: Parser>(
    p: &Slurp<P>,
    t: Seq<char>,
    i: int,
    v: Vec<P::Output>,
    j: int,
)
    requires
        p.ok_on(t, i, v, j),
    ensures
        v@.len() >= 1,
{
}

} // verus!
