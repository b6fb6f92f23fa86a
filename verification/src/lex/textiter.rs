//! A character cursor over the source text with lookahead and running
//! line/column/offset tracking.

use vstd::prelude::*;
use vstd::string::StrSliceExecFns;

use crate::lex::scan::col_of;
use crate::lex::scan::lemma_line_col_bounds;
use crate::lex::scan::line_of;
use crate::lex::token::TextLocation;

verus! {

/// A character cursor for tokenizing: one-character lookahead plus the
/// location of the next character.
pub trait TextIter {
    /// The next character, without consuming it.
    fn peek_char(&self) -> Option<char>;

    /// The location before the next character.
    fn location(&self) -> TextLocation;
}

/// A peekable character cursor that tracks the location of the next
/// character.  `get_location` returns the location *before* the next
/// character.
#[derive(Debug)]
pub struct PeekTextIter {
    source: String,
    pos: usize,
    line: usize,
    column: usize,
}

impl PeekTextIter {
    /// The characters of the source text.
    pub closed spec fn src(&self) -> Seq<char> {
        self.source@
    }

    /// The position of the next character.
    pub closed spec fn pos_spec(&self) -> int {
        self.pos as int
    }

    /// The cursor is inside the text and its line/column counters agree
    /// with the newlines seen so far.
    pub closed spec fn wf(&self) -> bool {
        &&& self.pos <= self.src().len()
        &&& self.line == line_of(self.src(), self.pos as int)
        &&& self.column == col_of(self.src(), self.pos as int)
    }

    /// A well-formed cursor stands between 0 and the end of its text.
    pub proof fn lemma_wf(&self)
        requires
            self.wf(),
        ensures
            0 <= self.pos_spec() <= self.src().len(),
    {
    }

    /// A cursor at the start of `source`.
    pub fn new(source: &str) -> (r: PeekTextIter)
        ensures
            r.wf(),
            r.src() == source@,
            r.pos_spec() == 0,
    {
        PeekTextIter { source: source.to_owned(), pos: 0, line: 0, column: 0 }
    }

    /// The position of the next character, as a machine integer.
    pub fn position(&self) -> (r: usize)
        ensures
            r as int == self.pos_spec(),
    {
        self.pos
    }

    /// The next character, without consuming it.
    pub fn peek(&self) -> (r: Option<char>)
        ensures
            r == if self.pos_spec() < self.src().len() {
                Some(self.src()[self.pos_spec()])
            } else {
                None::<char>
            },
    {
        let n = self.source.as_str().unicode_len();
        if self.pos < n {
            Some(self.source.as_str().get_char(self.pos))
        } else {
            None
        }
    }

    /// The character `k` places after the next one, without consuming
    /// anything.
    pub fn peek_at(&self, k: usize) -> (r: Option<char>)
        ensures
            r == if self.pos_spec() + k < self.src().len() {
                Some(self.src()[self.pos_spec() + k])
            } else {
                None::<char>
            },
    {
        let n = self.source.as_str().unicode_len();
        if self.pos < n && k < n - self.pos {
            Some(self.source.as_str().get_char(self.pos + k))
        } else {
            None
        }
    }

    /// Consumes and returns one character, or signals end of input.  Counters
    /// advance monotonically; a newline resets the column and increments the
    /// line.
    pub fn next(&mut self) -> (r: Option<char>)
        requires
            old(self).wf(),
        ensures
            final(self).wf(),
            final(self).src() == old(self).src(),
            old(self).pos_spec() < old(self).src().len() ==> {
                &&& r == Some(old(self).src()[old(self).pos_spec()])
                &&& final(self).pos_spec() == old(self).pos_spec() + 1
            },
            old(self).pos_spec() >= old(self).src().len() ==> {
                &&& r == None::<char>
                &&& final(self).pos_spec() == old(self).pos_spec()
            },
    {
        let n = self.source.as_str().unicode_len();
        if self.pos < n {
            let c = self.source.as_str().get_char(self.pos);
            proof {
                lemma_line_col_bounds(self.src(), self.pos as int);
            }
            self.pos = self.pos + 1;
            if c == '\n' {
                self.line = self.line + 1;
                self.column = 0;
            } else {
                self.column = self.column + 1;
            }
            Some(c)
        } else {
            None
        }
    }

    /// The location before the next character.
    pub fn get_location(&self) -> (r: TextLocation)
        requires
            self.wf(),
        ensures
            r.start_char as int == self.pos_spec(),
            r.start_line as int == line_of(self.src(), self.pos_spec()),
            r.start_column as int == col_of(self.src(), self.pos_spec()),
    {
        TextLocation { start_char: self.pos, start_line: self.line, start_column: self.column }
    }

    /// The text between two character positions, as an owned string.
    pub fn text_range(&self, from: usize, to: usize) -> (r: String)
        requires
            from <= to <= self.src().len(),
        ensures
            r@ == self.src().subrange(from as int, to as int),
    {
        self.source.as_str().substring_char(from, to).to_owned()
    }
}

impl TextIter for PeekTextIter {
    fn peek_char(&self) -> Option<char> {
        self.peek()
    }

    fn location(&self) -> TextLocation {
        TextLocation { start_char: self.pos, start_line: self.line, start_column: self.column }
    }
}

} // verus!
