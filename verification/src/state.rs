use vstd::prelude::*;
use vstd::string::StrSliceExecFns;

verus! {

/// The shared input cursor: the input text together with the current
/// position, counted in characters of the text.
///
/// The position only ever moves forward, and only a successful literal
/// match advances it; a failing literal match leaves it unchanged.
pub struct State {
    text: String,
    index: usize,
}

impl State {
    /// The whole input, as a sequence of characters.
    pub closed spec fn text_view(&self) -> Seq<char> {
        self.text@
    }

    /// The current position, as a character index into the input.
    pub closed spec fn position(&self) -> int {
        self.index as int
    }

    /// The input from the current position to the end.
    pub open spec fn remaining_view(&self) -> Seq<char> {
        self.text_view().skip(self.position())
    }

    /// The position always lies within the input.
    pub open spec fn wf(&self) -> bool {
        0 <= self.position() <= self.text_view().len()
    }

    /// A fresh cursor over `text`, placed at its start.
    pub fn new(text: &str) -> (s: State)
        ensures
            s.wf(),
            s.text_view() == text@,
            s.position() == 0,
    {
        State { text: text.to_owned(), index: 0 }
    }

    /// Replace the input with `text` and move back to its start.
    pub fn reset(&mut self, text: &str)
        ensures
            final(self).wf(),
            final(self).text_view() == text@,
            final(self).position() == 0,
    {
        self.text = text.to_owned();
        self.index = 0;
    }

    /// The current position.
    pub fn offset(&self) -> (n: usize)
        ensures
            n as int == self.position(),
    {
        self.index
    }

    /// Whether any input is left after the current position.
    pub fn has_remaining(&self) -> (b: bool)
        requires
            self.wf(),
        ensures
            b == (self.position() < self.text_view().len()),
    {
        self.index < self.text.as_str().unicode_len()
    }

    /// The input from the current position to the end.
    pub(crate) fn remaining(&self) -> (r: &str)
        requires
            self.wf(),
        ensures
            r@ == self.remaining_view(),
    {
        let n = self.text.as_str().unicode_len();
        self.text.as_str().substring_char(self.index, n)
    }

    /// Move the position forward by `n` characters.
    pub(crate) fn advance(&mut self, n: usize)
        requires
            old(self).wf(),
            old(self).position() + n <= old(self).text_view().len(),
        ensures
            final(self).wf(),
            final(self).text_view() == old(self).text_view(),
            final(self).position() == old(self).position() + n,
    {
        let len = self.text.as_str().unicode_len();
        assert(self.index + n <= len);
        self.index = self.index + n;
    }
}

} // verus!
