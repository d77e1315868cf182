use vstd::prelude::*;

use crate::outcome::Either;
use crate::outcome::ParserError;
use crate::outcome::Seq2;
use crate::parser::Parser;
use crate::state::State;

verus! {

/// Wraps one parser, mapping its success value through a callable; failures
/// and cursor effects are the inner parser's.
pub struct Apply<P, F> {
    pub inner: P,
    pub f: F,
}

/// Build a mapping parser from `parser` and the callable `cb`.
pub fn apply<P: Parser, U, F: Fn(P::Output) -> U>(parser: P, cb: F) -> (r: Apply<P, F>)
    ensures
        r.inner == parser,
        r.f == cb,
{
    Apply { inner: parser, f: cb }
}

impl<P: Parser, U, F: Fn(P::Output) -> U> Parser for Apply<P, F> {
    type Output = U;

    /// The callable must accept whatever value the inner parser can produce.
    open spec fn wf(&self) -> bool {
        &&& self.inner.wf()
        &&& forall|t: Seq<char>, i: int, v: P::Output, j: int|
            #[trigger] self.inner.ok_on(t, i, v, j) ==> call_requires(self.f, (v,))
    }

    /// A success is an inner success whose value went through the callable.
    open spec fn ok_on(&self, text: Seq<char>, i: int, v: U, j: int) -> bool {
        exists|w: P::Output|
            #[trigger] self.inner.ok_on(text, i, w, j) && call_ensures(self.f, (w,), v)
    }

    /// A failure is the inner parser's failure, the error value propagated
    /// unchanged.
    open spec fn err_on(&self, text: Seq<char>, i: int, e: ParserError, j: int) -> bool {
        self.inner.err_on(text, i, e, j)
    }

    fn parse(&self, s: &mut State) -> (r: Result<U, ParserError>) {
        match self.inner.parse(s) {
            Ok(w) => {
                let v = (self.f)(w);
                Ok(v)
            },
            Err(e) => Err(e),
        }
    }
}

/// Runs two parsers in order on the same cursor, pairing their results.
///
/// When the second parser fails after the first succeeded, the cursor
/// remains advanced by the first's success: sequencing provides no rollback
/// of its first operand.
pub struct And<A, B> {
    pub first: A,
    pub second: B,
}

/// Build a sequencing parser from `a` and `b`.
pub fn and<A: Parser, B: Parser>(a: A, b: B) -> (r: And<A, B>)
    ensures
        r.first == a,
        r.second == b,
{
    And { first: a, second: b }
}

impl<A: Parser, B: Parser> Parser for And<A, B> {
    type Output = Seq2<A::Output, B::Output>;

    open spec fn wf(&self) -> bool {
        self.first.wf() && self.second.wf()
    }

    /// Both parsers succeed in order, and the pair collects their values.
    open spec fn ok_on(&self, text: Seq<char>, i: int, v: Self::Output, j: int) -> bool {
        exists|k: int|
            #[trigger] self.first.ok_on(text, i, v.first, k) && self.second.ok_on(
                text,
                k,
                v.second,
                j,
            )
    }

    /// Either the first parser fails, or it succeeds and the second fails
    /// with the cursor still advanced by the first; either way the failing
    /// parser's error value is propagated unchanged.
    open spec fn err_on(&self, text: Seq<char>, i: int, e: ParserError, j: int) -> bool {
        ||| self.first.err_on(text, i, e, j)
        ||| exists|w: A::Output, k: int|
            #[trigger] self.first.ok_on(text, i, w, k) && self.second.err_on(text, k, e, j)
    }

    fn parse(&self, s: &mut State) -> (r: Result<Self::Output, ParserError>) {
        let ghost t = old(s).text_view();
        let ghost i = old(s).position();
        match self.first.parse(s) {
            Ok(fres) => {
                let ghost k = s.position();
                match self.second.parse(s) {
                    Ok(sres) => {
                        let v = Seq2 { first: fres, second: sres };
                        proof {
                            assert(self.first.ok_on(t, i, v.first, k));
                        }
                        Ok(v)
                    },
                    Err(e) => {
                        proof {
                            assert(self.first.ok_on(t, i, fres, k) && self.second.err_on(
                                t,
                                k,
                                e,
                                s.position(),
                            ));
                        }
                        Err(e)
                    },
                }
            },
            Err(e) => Err(e),
        }
    }
}

/// Runs a first parser; on failure, runs a second parser from the position
/// the first left, and tags which branch succeeded.
///
/// Trying the second branch from the same starting position is only given
/// when the first branch leaves the cursor unchanged on failure, which holds
/// of every combinator here except a sequence whose second operand failed.
pub struct Or<A, B> {
    pub first: A,
    pub second: B,
}

/// Build an alternative parser from `a` and `b`.
pub fn or<A: Parser, B: Parser>(a: A, b: B) -> (r: Or<A, B>)
    ensures
        r.first == a,
        r.second == b,
{
    Or { first: a, second: b }
}

impl<A: Parser, B: Parser> Parser for Or<A, B> {
    type Output = Either<A::Output, B::Output>;

    open spec fn wf(&self) -> bool {
        self.first.wf() && self.second.wf()
    }

    /// `Left` tags a success of the first branch; `Right` tags a failure of
    /// the first branch followed by a success of the second.
    open spec fn ok_on(&self, text: Seq<char>, i: int, v: Self::Output, j: int) -> bool {
        match v {
            Either::Left(w) => self.first.ok_on(text, i, w, j),
            Either::Right(w) => exists|k: int, e1: ParserError|
                #[trigger] self.first.err_on(text, i, e1, k) && self.second.ok_on(text, k, w, j),
        }
    }

    /// Both branches fail; the error value returned is exactly the second
    /// branch's, the first branch's failure discarded.
    open spec fn err_on(&self, text: Seq<char>, i: int, e: ParserError, j: int) -> bool {
        exists|k: int, e1: ParserError|
            #[trigger] self.first.err_on(text, i, e1, k) && self.second.err_on(text, k, e, j)
    }

    fn parse(&self, s: &mut State) -> (r: Result<Self::Output, ParserError>) {
        let ghost t = old(s).text_view();
        let ghost i = old(s).position();
        match self.first.parse(s) {
            Ok(w) => Ok(Either::Left(w)),
            Err(first_err) => {
                let ghost k = s.position();
                let ghost e1 = first_err;
                match self.second.parse(s) {
                    Ok(w) => {
                        proof {
                            assert(self.first.err_on(t, i, e1, k) && self.second.ok_on(
                                t,
                                k,
                                w,
                                s.position(),
                            ));
                        }
                        Ok(Either::Right(w))
                    },
                    Err(e) => {
                        proof {
                            assert(self.first.err_on(t, i, e1, k) && self.second.err_on(
                                t,
                                k,
                                e,
                                s.position(),
                            ));
                        }
                        Err(e)
                    },
                }
            },
        }
    }
}

} // verus!
