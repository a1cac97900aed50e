//! The position tracker: a forward-only cursor over a character stream that
//! maintains a (column, row) locator and a consumed-character count, and a
//! located error type for reporting through it.
//!
//! The cursor never rewinds; the sole undo mechanism is restoring a copy
//! taken earlier, and the cursor is `Copy` for exactly that purpose.

use vstd::prelude::*;

verus! {

/// A (column, row) position in the input text.
#[derive(Clone, Copy, Debug, PartialEq, Eq, Structural)]
pub struct Locator {
    pub column: usize,
    pub row: usize,
}

impl Locator {
    pub fn new(column: usize, row: usize) -> (l: Locator)
        ensures
            l == (Locator { column, row }),
    {
        Locator { column, row }
    }

    /// The position one ordinary character later: the next column of the
    /// same row.
    pub fn default(&self) -> (l: Locator)
        requires
            self.column < usize::MAX,
        ensures
            l.column == self.column + 1,
            l.row == self.row,
    {
        Locator { column: self.column + 1, row: self.row }
    }
}

/// The column after consuming `c` at `loc`: a newline resets it to 0, a tab
/// advances it to the next multiple of 8, any other character advances it
/// by 1.
pub open spec fn spec_next_column(loc: Locator, c: char) -> int {
    if c == '\n' {
        0
    } else if c == '\t' {
        loc.column + 8 - (loc.column % 8)
    } else {
        loc.column + 1
    }
}

/// The row after consuming `c` at `loc`: a newline moves to the next row,
/// everything else stays.
pub open spec fn spec_next_row(loc: Locator, c: char) -> int {
    if c == '\n' {
        loc.row + 1
    } else {
        loc.row as int
    }
}

/// A forward-only cursor over an input text: the remaining input is
/// `source` from `index` on, and `locator` gives the column and row that
/// `index` characters reached.
#[derive(Clone, Copy, Debug)]
pub struct State<'a> {
    pub source: &'a str,
    pub locator: Locator,
    /// How many characters have been consumed.
    pub index: usize,
}

impl<'a> State<'a> {
    /// The cursor's invariant: the index stays within the input, the
    /// column and row stay bounded by what that many characters can reach,
    /// and the input is short enough for the column arithmetic never to
    /// overflow.
    pub open spec fn wf(&self) -> bool {
        &&& self.index <= self.source@.len()
        &&& self.locator.column <= 8 * self.index
        &&& self.locator.row <= self.index
        &&& 8 * self.source@.len() <= usize::MAX
    }

    /// Yields the next character and advances the locator per the
    /// newline/tab/ordinary rule, counting it as consumed; yields nothing
    /// at the input's end, changing nothing.
    pub fn next(&mut self) -> (r: Option<char>)
        requires
            old(self).wf(),
        ensures
            final(self).wf(),
            final(self).source == old(self).source,
            (match r {
                Some(c) => {
                    &&& old(self).index < old(self).source@.len()
                    &&& c == old(self).source@[old(self).index as int]
                    &&& final(self).index == old(self).index + 1
                    &&& final(self).locator.column == spec_next_column(old(self).locator, c)
                    &&& final(self).locator.row == spec_next_row(old(self).locator, c)
                },
                None => old(self).index == old(self).source@.len() && *final(self) == *old(self),
            }),
    {
        let len = self.source.unicode_len();
        if self.index >= len {
            return None;
        }
        let c = self.source.get_char(self.index);
        self.locator = if c == '\n' {
            Locator { column: 0, row: self.locator.row + 1 }
        } else if c == '\t' {
            Locator { column: self.locator.column + (8 - self.locator.column % 8), ..self.locator }
        } else {
            Locator { column: self.locator.column + 1, ..self.locator }
        };
        self.index = self.index + 1;
        Some(c)
    }
}

/// Starts a cursor at the beginning of `input`, at column 0 of row 0, with
/// nothing consumed.
pub fn state<'a>(input: &'a str) -> (s: State<'a>)
    requires
        8 * input@.len() <= usize::MAX,
    ensures
        s.source == input,
        s.index == 0,
        s.locator == (Locator { column: 0, row: 0 }),
        s.wf(),
{
    State { source: input, locator: Locator { column: 0, row: 0 }, index: 0 }
}

/// A failure with a message, optionally located: errors are ordinary
/// values, never an escalation.
#[derive(Debug, PartialEq, Eq)]
pub struct ParserError {
    pub message: String,
    /// Where the failure stands, when a position is known.
    pub locator: Option<Locator>,
}

impl ParserError {
    pub fn new(message: &str) -> (e: ParserError)
        ensures
            e.message@ == message@,
            e.locator is None,
    {
        ParserError { message: message.to_owned(), locator: None }
    }
}

/// An unlocated failure with the given message.
pub fn err<X>(message: &str) -> (r: Result<X, ParserError>)
    ensures
        (match r {
            Err(e) => e.message@ == message@ && e.locator is None,
            Ok(_) => false,
        }),
{
    Err(ParserError::new(message))
}

/// A failure with the given message, located at `locator`.
pub fn err_at<X>(message: &str, locator: Locator) -> (r: Result<X, ParserError>)
    ensures
        (match r {
            Err(e) => e.message@ == message@ && e.locator == Some(locator),
            Ok(_) => false,
        }),
{
    Err(ParserError { message: message.to_owned(), locator: Some(locator) })
}

} // verus!
