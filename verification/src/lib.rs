//! A small parser-combinator engine: recursive-descent parsers are built by
//! composing reusable primitives over a cursor into an input string.
//!
//! The leaves are regular-expression literals ([`lit`]); the combinators are
//! mapping ([`apply`]), sequencing ([`and`]), alternation ([`or`]), bounded
//! repetition with a delimiter ([`until`]), unbounded repetition ([`slurp`]),
//! and fold-by-addition ([`fold::concat`]). Every parser reads and advances the
//! shared [`State`] cursor; each combinator's contract states exactly how.

pub mod compose;
pub mod fold;
pub mod laws;
pub mod literal;
pub mod outcome;
pub mod parser;
pub mod repeat;
pub mod state;

pub use compose::and;
pub use compose::apply;
pub use compose::or;
pub use compose::And;
pub use compose::Apply;
pub use compose::Or;
pub use fold::fold_ok;
pub use fold::fold_sum;
pub use fold::Concat;
pub use fold::Summand;
pub use laws::lemma_literal_advance;
pub use laws::lemma_literal_atomic;
pub use laws::lemma_slurp_nonempty;
pub use laws::lemma_transform_identity;
pub use literal::leftmost_match;
pub use literal::match_at;
pub use literal::lit;
pub use literal::pattern_ok;
pub use literal::Lit;
pub use outcome::Either;
pub use outcome::Either::Left;
pub use outcome::Either::Right;
pub use outcome::ParserError;
pub use outcome::ParserErrorKind;
pub use outcome::ParserErrorKind::InvalidParameter;
pub use outcome::ParserErrorKind::UnexpectedInput;
pub use outcome::ParserResult;
pub use outcome::Seq2;
pub use parser::progresses;
pub use parser::Parser;
pub use repeat::delim_step;
pub use repeat::slurp;
pub use repeat::slurp_steps;
pub use repeat::until;
pub use repeat::until_steps;
pub use repeat::until_stop;
pub use repeat::Slurp;
pub use repeat::Until;
pub use repeat::ValueEq;
pub use state::State;
