use vstd::prelude::*;
use vstd::string::StrSliceExecFns;

use crate::outcome::ParserError;
use crate::outcome::ParserErrorKind;
use crate::parser::Parser;
use crate::state::State;

verus! {

/// Whether the regular-expression engine accepts `pattern`, wrapped as
/// `\A(?:pattern)` so that the whole pattern is anchored to the start of its
/// input.
pub uninterp spec fn pattern_ok(pattern: Seq<char>) -> bool;

/// The leftmost match that the regular-expression engine finds for `pattern`
/// (wrapped as `\A(?:pattern)`) in `text`: the match's starting byte offset
/// and its text, or `None` when nothing matches (or the pattern does not
/// compile).
pub uninterp spec fn leftmost_match(pattern: Seq<char>, text: Seq<char>) -> Option<(nat, Seq<char>)>;

/// The engine's match of `pattern` at the very start of `text`: the leftmost
/// match, if it starts at offset zero. A pattern whose own parentheses
/// re-balance the `\A(?:…)` wrap can match away from the start; such a match
/// is no match at the start, and with leftmost-first search a match at the
/// start is always the one reported when one exists.
pub open spec fn match_at(pattern: Seq<char>, text: Seq<char>) -> Option<Seq<char>> {
    match leftmost_match(pattern, text) {
        Some((st, m)) => if st == 0 {
            Some(m)
        } else {
            None
        },
        None => None,
    }
}

/// Relies on `regex::Regex::new`: whether a pattern compiles is a function
/// of the pattern alone. The pattern is wrapped as `\A(?:pattern)`, exactly
/// as the matching wrapper wraps it.
#[verifier::external_body]
fn compiles(pattern: &str) -> (r: bool)
    ensures
        r == pattern_ok(pattern@),
{
    regex::Regex::new(&format!("\\A(?:{})", pattern)).is_ok()
}

/// Relies on `regex::Regex::new` and `regex::Regex::find`: the leftmost
/// match of the `\A(?:pattern)`-wrapped pattern is a function of the pattern
/// and the haystack alone, and a match reported at byte offset zero is the
/// matched text itself, a prefix of the haystack. The wrap does not force a
/// match to start at zero — a pattern that re-balances the wrap's
/// parentheses can match later — so the caller must test the offset.
#[verifier::external_body]
fn find_leftmost(pattern: &str, text: &str) -> (r: Option<(usize, String)>)
    ensures
        (r matches Some(p) ==> leftmost_match(pattern@, text@) == Some((p.0 as nat, p.1@))),
        (r is None ==> leftmost_match(pattern@, text@) is None),
        (r matches Some(p) ==> (p.0 == 0 ==> p.1@.len() <= text@.len() && p.1@ == text@.subrange(
            0,
            p.1@.len() as int,
        ))),
{
    match regex::Regex::new(&format!("\\A(?:{})", pattern)) {
        Ok(re) => match re.find(text) {
            Some(m) => Some((m.start(), m.as_str().to_string())),
            None => None,
        },
        Err(_) => None,
    }
}

/// The leaf parser: matches a regular expression, anchored at the cursor's
/// current position, and advances the cursor by the matched text.
#[derive(Debug)]
pub struct Lit {
    pattern: String,
}

impl Lit {
    /// The pattern this literal was built from.
    pub closed spec fn pat(&self) -> Seq<char> {
        self.pattern@
    }
}

/// Build a literal parser from a regular-expression pattern.
///
/// A malformed pattern is reported as an [`ParserErrorKind::InvalidParameter`]
/// error rather than aborting, so that construction is composable.
pub fn lit(pattern: &str) -> (r: Result<Lit, ParserError>)
    ensures
        (r matches Ok(l) ==> l.pat() == pattern@ && pattern_ok(pattern@)),
        (r matches Err(e) ==> !pattern_ok(pattern@) && e.kind
            == ParserErrorKind::InvalidParameter),
{
    if compiles(pattern) {
        Ok(Lit { pattern: pattern.to_owned() })
    } else {
        Err(ParserError::invalid("literal pattern did not compile"))
    }
}

impl Parser for Lit {
    type Output = String;

    open spec fn wf(&self) -> bool {
        true
    }

    /// The engine matches the prefix `v` of the remaining input, and the
    /// cursor advances by exactly its length.
    open spec fn ok_on(&self, text: Seq<char>, i: int, v: String, j: int) -> bool {
        match_at(self.pat(), text.skip(i)) == Some(v@) && j == i + v@.len()
    }

    /// The engine finds no match at the current position; the cursor does
    /// not move, and the error says so.
    open spec fn err_on(&self, text: Seq<char>, i: int, e: ParserError, j: int) -> bool {
        &&& match_at(self.pat(), text.skip(i)) is None
        &&& j == i
        &&& e.kind == ParserErrorKind::UnexpectedInput
        &&& e.msg@ == "literal did not match"@
    }

    fn parse(&self, s: &mut State) -> (r: Result<String, ParserError>) {
        let rem = s.remaining();
        match find_leftmost(self.pattern.as_str(), rem) {
            Some((st, m)) => {
                if st == 0 {
                    let n = m.as_str().unicode_len();
                    s.advance(n);
                    Ok(m)
                } else {
                    Err(ParserError::unexpected("literal did not match"))
                }
            },
            None => Err(ParserError::unexpected("literal did not match")),
        }
    }
}

} // verus!
