use vstd::prelude::*;

use crate::outcome::ParserError;
use crate::parser::progresses;
use crate::parser::Parser;
use crate::state::State;

verus! {

/// Value equality with a specification: the bounded repetition compares a
/// parsed value with a delimiter's value to decide when to stop.
pub trait ValueEq: Sized {
    /// What it means for two values to be equal.
    spec fn same(&self, other: &Self) -> bool;

    /// Decide equality.
    fn check_same(&self, other: &Self) -> (r: bool)
        ensures
            r == self.same(other),
    ;
}

impl ValueEq for String {
    open spec fn same(&self, other: &Self) -> bool {
        self@ == other@
    }

    fn check_same(&self, other: &Self) -> (r: bool) {
        self.eq(other)
    }
}

impl ValueEq for i64 {
    open spec fn same(&self, other: &Self) -> bool {
        self == other
    }

    fn check_same(&self, other: &Self) -> (r: bool) {
        *self == *other
    }
}

/// What one trip round the bounded-repetition loop does after the repeated
/// parser produced `v`, leaving the cursor at `k`: without a delimiter the
/// cursor stays at `k`; with one, the delimiter either fails or succeeds
/// with a value other than `v`, and the cursor is at `k2`, wherever the
/// delimiter left it.
pub open spec fn delim_step<B: Parser>(
    delim: &Option<B>,
    t: Seq<char>,
    v: B::Output,
    k: int,
    k2: int,
) -> bool where B::Output: ValueEq {
    match delim {
        None => k2 == k,
        Some(d) => (exists|de: ParserError| d.err_on(t, k, de, k2)) || exists|w: B::Output|
            #[trigger] d.ok_on(t, k, w, k2) && !v.same(&w),
    }
}

/// The bounded-repetition loop, run on `text` at `i`, may collect exactly
/// the values `vs` (each step taken with input left and not stopped by the
/// delimiter) and reach position `j`.
pub open spec fn until_steps<A, B>(
    inner: &A,
    delim: &Option<B>,
    t: Seq<char>,
    i: int,
    vs: Seq<A::Output>,
    j: int,
) -> bool where A: Parser, B: Parser<Output = A::Output>, A::Output: ValueEq
    decreases vs.len(),
{
    if vs.len() == 0 {
        j == i
    } else {
        i < t.len() && exists|k: int, k2: int|
            #![trigger inner.ok_on(t, i, vs[0], k), delim_step(delim, t, vs[0], k, k2)]
            inner.ok_on(t, i, vs[0], k) && delim_step(delim, t, vs[0], k, k2) && until_steps(
                inner,
                delim,
                t,
                k2,
                vs.drop_first(),
                j,
            )
    }
}

/// How the bounded-repetition loop, standing at `m`, may stop: the input ran
/// out, or the repeated parser succeeded once more and the delimiter then
/// matched with an equal value, leaving the cursor at `j` past both.
pub open spec fn until_stop<A, B>(
    inner: &A,
    delim: &Option<B>,
    t: Seq<char>,
    m: int,
    j: int,
) -> bool where A: Parser, B: Parser<Output = A::Output>, A::Output: ValueEq {
    ||| (m >= t.len() && j == m)
    ||| (m < t.len() && match delim {
        Some(d) => exists|v: A::Output, k: int, w: A::Output|
            #![trigger inner.ok_on(t, m, v, k), d.ok_on(t, k, w, j)]
            inner.ok_on(t, m, v, k) && d.ok_on(t, k, w, j) && v.same(&w),
        None => false,
    })
}

/// Appending one more collected value to a run of bounded-repetition steps
/// yields a run of steps again.
proof fn lemma_until_steps_push<A, B>(
    inner: &A,
    delim: &Option<B>,
    t: Seq<char>,
    i: int,
    vs: Seq<A::Output>,
    m: int,
    v: A::Output,
    k: int,
    k2: int,
) where A: Parser, B: Parser<Output = A::Output>, A::Output: ValueEq
    requires
        until_steps(inner, delim, t, i, vs, m),
        m < t.len(),
        inner.ok_on(t, m, v, k),
        delim_step(delim, t, v, k, k2),
    ensures
        until_steps(inner, delim, t, i, vs.push(v), k2),
    decreases vs.len(),
{
    assert(vs.push(v).len() >= 1);
    if vs.len() == 0 {
        assert(vs.push(v)[0] == v);
        assert(vs.push(v).drop_first() =~= Seq::<A::Output>::empty());
        assert(until_steps(inner, delim, t, k2, vs.push(v).drop_first(), k2));
        assert(inner.ok_on(t, i, vs.push(v)[0], k) && delim_step(delim, t, vs.push(v)[0], k, k2));
    } else {
        let (k0, k02) = choose|k0: int, k02: int|
            #![trigger inner.ok_on(t, i, vs[0], k0), delim_step(delim, t, vs[0], k0, k02)]
            inner.ok_on(t, i, vs[0], k0) && delim_step(delim, t, vs[0], k0, k02) && until_steps(
                inner,
                delim,
                t,
                k02,
                vs.drop_first(),
                m,
            );
        lemma_until_steps_push(inner, delim, t, k02, vs.drop_first(), m, v, k, k2);
        assert(vs.push(v).drop_first() =~= vs.drop_first().push(v));
        assert(vs.push(v)[0] == vs[0]);
        assert(inner.ok_on(t, i, vs.push(v)[0], k0) && delim_step(
            delim,
            t,
            vs.push(v)[0],
            k0,
            k02,
        ));
    }
}

/// Bounded repetition with an optional delimiter: repeats a parser while
/// input remains; after each step, a delimiter match whose value equals the
/// just-parsed value stops the loop, that value not collected.
///
/// The stop condition deliberately asks that the delimiter's value equal the
/// prior value — an unusual, narrow contract, kept as it stands — so a
/// delimiter match alone does not end the repetition.
pub struct Until<A, B> {
    pub inner: A,
    pub delim: Option<B>,
}

/// Build a bounded-repetition parser from `parser` and an optional `delim`.
pub fn until<A, B>(parser: A, delim: Option<B>) -> (r: Until<A, B>) where
    A: Parser,
    B: Parser<Output = A::Output>,
    A::Output: ValueEq,

    ensures
        r.inner == parser,
        r.delim == delim,
{
    Until { inner: parser, delim }
}

impl<A, B> Parser for Until<A, B> where
    A: Parser,
    B: Parser<Output = A::Output>,
    A::Output: ValueEq,
 {
    type Output = Vec<A::Output>;

    /// The repeated parser must consume on success, so the repetition
    /// terminates.
    open spec fn wf(&self) -> bool {
        &&& self.inner.wf()
        &&& progresses(&self.inner)
        &&& (self.delim matches Some(d) ==> d.wf())
    }

    /// The collected values are a full run of steps followed by a stop.
    open spec fn ok_on(&self, text: Seq<char>, i: int, v: Self::Output, j: int) -> bool {
        exists|m: int|
            #[trigger] until_steps(&self.inner, &self.delim, text, i, v@, m) && until_stop(
                &self.inner,
                &self.delim,
                text,
                m,
                j,
            )
    }

    /// The repeated parser failed somewhere along a run of steps; its error
    /// value is propagated unchanged, the collected values discarded.
    open spec fn err_on(&self, text: Seq<char>, i: int, e: ParserError, j: int) -> bool {
        exists|vs: Seq<A::Output>, m: int|
            #[trigger] until_steps(&self.inner, &self.delim, text, i, vs, m) && m < text.len()
                && self.inner.err_on(text, m, e, j)
    }

    #[verifier::loop_isolation(false)]
    fn parse(&self, s: &mut State) -> (r: Result<Self::Output, ParserError>) {
        let ghost t = old(s).text_view();
        let ghost i0 = old(s).position();
        let mut output: Vec<A::Output> = Vec::new();
        proof {
            assert(until_steps(&self.inner, &self.delim, t, i0, output@, i0));
        }
        while s.has_remaining()
            invariant
                self.wf(),
                s.wf(),
                s.text_view() == t,
                i0 <= s.position() <= t.len(),
                until_steps(&self.inner, &self.delim, t, i0, output@, s.position()),
            decreases t.len() - s.position(),
        {
            let ghost m = s.position();
            let val = match self.inner.parse(s) {
                Ok(v) => v,
                Err(e) => {
                    proof {
                        assert(until_steps(&self.inner, &self.delim, t, i0, output@, m)
                            && m < t.len() && self.inner.err_on(t, m, e, s.position()));
                    }
                    return Err(e);
                },
            };
            let ghost k = s.position();
            match &self.delim {
                Some(d) => {
                    match d.parse(s) {
                        Ok(dval) => {
                            if val.check_same(&dval) {
                                proof {
                                    assert(self.inner.ok_on(t, m, val, k) && d.ok_on(
                                        t,
                                        k,
                                        dval,
                                        s.position(),
                                    ));
                                    assert(until_stop(
                                        &self.inner,
                                        &self.delim,
                                        t,
                                        m,
                                        s.position(),
                                    ));
                                }
                                return Ok(output);
                            } else {
                                proof {
                                    assert(d.ok_on(t, k, dval, s.position()) && !val.same(&dval));
                                    assert(delim_step(&self.delim, t, val, k, s.position()));
                                    lemma_until_steps_push(
                                        &self.inner,
                                        &self.delim,
                                        t,
                                        i0,
                                        output@,
                                        m,
                                        val,
                                        k,
                                        s.position(),
                                    );
                                }
                                output.push(val);
                            }
                        },
                        Err(delim_err) => {
                            proof {
                                assert(d.err_on(t, k, delim_err, s.position()));
                                assert(delim_step(&self.delim, t, val, k, s.position()));
                                lemma_until_steps_push(
                                    &self.inner,
                                    &self.delim,
                                    t,
                                    i0,
                                    output@,
                                    m,
                                    val,
                                    k,
                                    s.position(),
                                );
                            }
                            output.push(val);
                        },
                    }
                },
                None => {
                    proof {
                        assert(delim_step(&self.delim, t, val, k, k));
                        lemma_until_steps_push(
                            &self.inner,
                            &self.delim,
                            t,
                            i0,
                            output@,
                            m,
                            val,
                            k,
                            k,
                        );
                    }
                    output.push(val);
                },
            }
        }
        proof {
            assert(until_stop(&self.inner, &self.delim, t, s.position(), s.position()));
        }
        Ok(output)
    }
}

/// The unbounded-repetition loop, run on `text` at `i`, may collect exactly
/// the values `vs` in order, each but the last followed by input left to
/// read, reaching position `j` after the last.
pub open spec fn slurp_steps<P: Parser>(
    inner: &P,
    t: Seq<char>,
    i: int,
    vs: Seq<P::Output>,
    j: int,
) -> bool
    decreases vs.len(),
{
    if vs.len() == 0 {
        j == i
    } else {
        exists|k: int|
            #[trigger] inner.ok_on(t, i, vs[0], k) && if vs.len() == 1 {
                j == k
            } else {
                k < t.len() && slurp_steps(inner, t, k, vs.drop_first(), j)
            }
    }
}

/// Appending one more collected value to a run of unbounded-repetition
/// steps yields a run of steps again.
proof fn lemma_slurp_steps_push<P: Parser>(
    inner: &P,
    t: Seq<char>,
    i: int,
    vs: Seq<P::Output>,
    m: int,
    v: P::Output,
    k: int,
)
    requires
        slurp_steps(inner, t, i, vs, m),
        vs.len() >= 1,
        m < t.len(),
        inner.ok_on(t, m, v, k),
    ensures
        slurp_steps(inner, t, i, vs.push(v), k),
    decreases vs.len(),
{
    let k0 = choose|k0: int|
        #[trigger] inner.ok_on(t, i, vs[0], k0) && if vs.len() == 1 {
            m == k0
        } else {
            k0 < t.len() && slurp_steps(inner, t, k0, vs.drop_first(), m)
        };
    assert(vs.push(v)[0] == vs[0]);
    if vs.len() == 1 {
        assert(vs.push(v).drop_first() =~= seq![v]);
        assert(seq![v][0] == v);
        assert(inner.ok_on(t, m, seq![v][0], k));
        assert(slurp_steps(inner, t, m, seq![v], k));
    } else {
        lemma_slurp_steps_push(inner, t, k0, vs.drop_first(), m, v, k);
        assert(vs.push(v).drop_first() =~= vs.drop_first().push(v));
        assert(inner.ok_on(t, i, vs.push(v)[0], k0));
    }
}

/// Unbounded repetition: repeats a parser greedily, collecting each success,
/// until it fails or the input runs out; at least one success is required.
pub struct Slurp<P> {
    pub inner: P,
}

/// Build an unbounded-repetition parser from `parser`.
pub fn slurp<P: Parser>(parser: P) -> (r: Slurp<P>)
    ensures
        r.inner == parser,
{
    Slurp { inner: parser }
}

impl<P: Parser> Parser for Slurp<P> {
    type Output = Vec<P::Output>;

    /// The repeated parser must consume on success, so the repetition
    /// terminates.
    open spec fn wf(&self) -> bool {
        self.inner.wf() && progresses(&self.inner)
    }

    /// At least one value was collected by a run of steps, and the loop then
    /// stopped: the input ran out, or the repeated parser failed once more,
    /// that failure discarded and the cursor left where the failure left it.
    open spec fn ok_on(&self, text: Seq<char>, i: int, v: Self::Output, j: int) -> bool {
        v@.len() >= 1 && exists|m: int|
            #[trigger] slurp_steps(&self.inner, text, i, v@, m) && ((m >= text.len() && j == m) || (
            m < text.len() && exists|e: ParserError| self.inner.err_on(text, m, e, j)))
    }

    /// The very first attempt of the repeated parser failed; its error value
    /// is propagated unchanged.
    open spec fn err_on(&self, text: Seq<char>, i: int, e: ParserError, j: int) -> bool {
        self.inner.err_on(text, i, e, j)
    }

    #[verifier::loop_isolation(false)]
    fn parse(&self, s: &mut State) -> (r: Result<Self::Output, ParserError>) {
        let ghost t = old(s).text_view();
        let ghost i0 = old(s).position();
        let mut output: Vec<P::Output> = Vec::new();
        match self.inner.parse(s) {
            Err(e) => {
                return Err(e);
            },
            Ok(v) => {
                output.push(v);
                proof {
                    assert(output@[0] == v);
                    assert(slurp_steps(&self.inner, t, i0, output@, s.position()));
                }
            },
        }
        while s.has_remaining()
            invariant
                self.wf(),
                s.wf(),
                s.text_view() == t,
                i0 <= s.position() <= t.len(),
                output@.len() >= 1,
                slurp_steps(&self.inner, t, i0, output@, s.position()),
            decreases t.len() - s.position(),
        {
            let ghost m = s.position();
            match self.inner.parse(s) {
                Ok(v) => {
                    proof {
                        lemma_slurp_steps_push(&self.inner, t, i0, output@, m, v, s.position());
                    }
                    output.push(v);
                },
                Err(stop_err) => {
                    proof {
                        let e = stop_err;
                        assert(slurp_steps(&self.inner, t, i0, output@, m) && m < t.len()
                            && self.inner.err_on(t, m, e, s.position()));
                    }
                    return Ok(output);
                },
            }
        }
        Ok(output)
    }
}

} // verus!
