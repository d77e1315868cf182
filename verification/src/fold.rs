use vstd::prelude::*;

use crate::outcome::ParserError;
use crate::outcome::ParserErrorKind;
use crate::parser::Parser;
use crate::state::State;

verus! {

/// A duplicable value with an addition: what the fold-by-addition reduces.
pub trait Summand: Copy {
    /// The sum of two values.
    spec fn add_spec(self, other: Self) -> Self;

    /// Whether the sum of two values is representable.
    spec fn can_add(self, other: Self) -> bool;

    /// Add, reporting an unrepresentable sum as `None`.
    fn checked_plus(self, other: Self) -> (r: Option<Self>)
        ensures
            (r matches Some(x) ==> self.can_add(other) && x == self.add_spec(other)),
            (r is None ==> !self.can_add(other)),
    ;
}

impl Summand for i64 {
    open spec fn add_spec(self, other: Self) -> Self {
        (self + other) as i64
    }

    open spec fn can_add(self, other: Self) -> bool {
        i64::MIN <= self + other <= i64::MAX
    }

    fn checked_plus(self, other: Self) -> (r: Option<Self>) {
        if other >= 0 {
            if self <= i64::MAX - other {
                Some(self + other)
            } else {
                None
            }
        } else {
            if self >= i64::MIN - other {
                Some(self + other)
            } else {
                None
            }
        }
    }
}

/// The left-to-right fold of a non-empty sequence by addition, the first
/// element the initial accumulator.
pub open spec fn fold_sum<T: Summand>(s: Seq<T>) -> T
    recommends
        s.len() >= 1,
    decreases s.len(),
{
    if s.len() <= 1 {
        s[0]
    } else {
        fold_sum(s.drop_last()).add_spec(s.last())
    }
}

/// Whether every partial sum along the left-to-right fold is representable.
pub open spec fn fold_ok<T: Summand>(s: Seq<T>) -> bool
    decreases s.len(),
{
    s.len() <= 1 || (fold_ok(s.drop_last()) && fold_sum(s.drop_last()).can_add(s.last()))
}

/// A prefix of a foldable sequence is foldable.
proof fn lemma_fold_ok_prefix<T: Summand>(s: Seq<T>, n: int)
    requires
        fold_ok(s),
        0 <= n <= s.len(),
    ensures
        fold_ok(s.take(n)),
    decreases s.len(),
{
    if n == s.len() {
        assert(s.take(n) =~= s);
    } else {
        assert(s.len() >= 1);
        if s.len() > 1 {
            assert(s.drop_last().take(n) =~= s.take(n));
            lemma_fold_ok_prefix(s.drop_last(), n);
        } else {
            assert(n == 0);
            assert(s.take(0).len() == 0);
        }
    }
}

/// Reduces a parsed sequence to a single value by addition: the first
/// element starts the accumulator, so no neutral element is needed, and an
/// empty sequence is a failure.
pub struct Concat<P> {
    pub inner: P,
}

/// Build a fold-by-addition parser from `parser`.
pub fn concat<T: Summand, P: Parser<Output = Vec<T>>>(parser: P) -> (r: Concat<P>)
    ensures
        r.inner == parser,
{
    Concat { inner: parser }
}

impl<T: Summand, P: Parser<Output = Vec<T>>> Parser for Concat<P> {
    type Output = T;

    open spec fn wf(&self) -> bool {
        self.inner.wf()
    }

    /// The inner parser produced a non-empty sequence whose fold is
    /// representable, and the result is that fold.
    open spec fn ok_on(&self, text: Seq<char>, i: int, v: T, j: int) -> bool {
        exists|vs: Vec<T>|
            #[trigger] self.inner.ok_on(text, i, vs, j) && vs@.len() >= 1 && fold_ok(vs@) && v
                == fold_sum(vs@)
    }

    /// The inner parser failed, its error value propagated unchanged; or it
    /// produced a sequence that cannot be folded — an empty one, or one
    /// whose sum is unrepresentable — and the error says which.
    open spec fn err_on(&self, text: Seq<char>, i: int, e: ParserError, j: int) -> bool {
        ||| self.inner.err_on(text, i, e, j)
        ||| (exists|vs: Vec<T>| #[trigger] self.inner.ok_on(text, i, vs, j) && vs@.len() == 0)
            && e.kind == ParserErrorKind::UnexpectedInput && e.msg@ == "empty sequence in concat"@
        ||| (exists|vs: Vec<T>|
            #[trigger] self.inner.ok_on(text, i, vs, j) && vs@.len() >= 1 && !fold_ok(vs@))
            && e.kind == ParserErrorKind::UnexpectedInput && e.msg@ == "sum overflow in concat"@
    }

    #[verifier::loop_isolation(false)]
    fn parse(&self, s: &mut State) -> (r: Result<T, ParserError>) {
        let ghost t = old(s).text_view();
        let ghost i0 = old(s).position();
        let vs = match self.inner.parse(s) {
            Ok(vs) => vs,
            Err(e) => {
                return Err(e);
            },
        };
        if vs.len() == 0 {
            proof {
                assert(self.inner.ok_on(t, i0, vs, s.position()));
            }
            return Err(ParserError::unexpected("empty sequence in concat"));
        }
        let mut acc = vs[0];
        let mut k: usize = 1;
        proof {
            assert(vs@.take(1) =~= seq![vs@[0]]);
        }
        while k < vs.len()
            invariant
                1 <= k <= vs@.len(),
                fold_ok(vs@.take(k as int)),
                acc == fold_sum(vs@.take(k as int)),
            decreases vs@.len() - k,
        {
            match acc.checked_plus(vs[k]) {
                Some(x) => {
                    proof {
                        assert(vs@.take(k + 1).drop_last() =~= vs@.take(k as int));
                        assert(vs@.take(k + 1).last() == vs@[k as int]);
                    }
                    acc = x;
                    k = k + 1;
                },
                None => {
                    proof {
                        assert(vs@.take(k + 1).drop_last() =~= vs@.take(k as int));
                        assert(!fold_ok(vs@.take(k + 1)));
                        if fold_ok(vs@) {
                            lemma_fold_ok_prefix(vs@, k + 1);
                        }
                        assert(!fold_ok(vs@));
                        assert(self.inner.ok_on(t, i0, vs, s.position()));
                    }
                    return Err(ParserError::unexpected("sum overflow in concat"));
                },
            }
        }
        proof {
            assert(vs@.take(k as int) =~= vs@);
        }
        Ok(acc)
    }
}

} // verus!
