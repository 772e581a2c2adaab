//! The note-buffer cursor engine: a flat character buffer plus an integer
//! cursor, with boundary-safe editing and line-relative motion.
//!
//! Lines are never stored: every motion derives its line boundaries from the
//! flat buffer on demand. Vertical motion keeps the visual column, clamped to
//! the target line's length.

use vstd::prelude::*;

verus! {

/// The start of the line holding position `pos`: the offset just past the
/// nearest newline before `pos`, or 0 when no newline precedes it.
pub open spec fn line_start(s: Seq<char>, pos: int) -> int
    decreases pos,
{
    if pos <= 0 {
        0
    } else if s[pos - 1] == '\n' {
        pos
    } else {
        line_start(s, pos - 1)
    }
}

/// The end of the line holding position `pos`: the offset of the first
/// newline at or after `pos`, or the buffer length when none follows.
pub open spec fn line_end(s: Seq<char>, pos: int) -> int
    decreases s.len() - pos,
{
    if pos < 0 {
        line_end(s, 0)
    } else if pos >= s.len() {
        s.len() as int
    } else if s[pos] == '\n' {
        pos
    } else {
        line_end(s, pos + 1)
    }
}

/// Where the cursor lands on moving up one line from `pos`: the same column
/// in the previous line, clamped to that line's length. On the first line
/// there is no line above, and the cursor falls back to the line's start,
/// the buffer start.
pub open spec fn up_target(s: Seq<char>, pos: int) -> int {
    let ls = line_start(s, pos);
    if ls == 0 {
        0
    } else {
        let col = pos - ls;
        let pls = line_start(s, ls - 1);
        let pll = ls - 1 - pls;
        pls + vstd::math::min(col, pll)
    }
}

/// Where the cursor lands on moving down one line from `pos`: the same
/// column in the following line, clamped to that line's length. A newline
/// at the buffer's very end opens an empty final line, onto which the
/// cursor still moves; only with no newline at or after the cursor does it
/// stay put.
pub open spec fn down_target(s: Seq<char>, pos: int) -> int {
    let le = line_end(s, pos);
    if le < s.len() {
        let col = pos - line_start(s, pos);
        let nls = le + 1;
        let nll = line_end(s, nls) - nls;
        nls + vstd::math::min(col, nll)
    } else {
        pos
    }
}

/// A flat note buffer with an edit cursor.
pub struct NoteBuffer {
    pub text: Vec<char>,
    pub cursor: usize,
}

impl NoteBuffer {
    /// The cursor sits at a position of the buffer, its end included.
    pub open spec fn wf(&self) -> bool {
        self.cursor <= self.text@.len()
    }

    /// An empty buffer with the cursor at its start.
    pub fn new() -> (r: NoteBuffer)
        ensures
            r.wf(),
            r.text@ =~= Seq::<char>::empty(),
            r.cursor == 0,
    {
        NoteBuffer { text: Vec::new(), cursor: 0 }
    }

    /// A buffer over the given text with the cursor at its end.
    pub fn from_text(text: Vec<char>) -> (r: NoteBuffer)
        ensures
            r.wf(),
            r.text@ == text@,
            r.cursor == text@.len(),
    {
        let cursor = text.len();
        NoteBuffer { text, cursor }
    }

    /// Splice one character in at the cursor and step past it.
    pub fn insert_char(&mut self, c: char)
        requires
            old(self).wf(),
        ensures
            final(self).wf(),
            final(self).text@ == old(self).text@.insert(old(self).cursor as int, c),
            final(self).cursor == old(self).cursor + 1,
    {
        self.text.insert(self.cursor, c);
        proof {
            // the grown buffer still has a usize length, so the cursor can
            // step past the new character
            vstd::std_specs::vec::axiom_spec_len(&self.text);
        }
        self.cursor = self.cursor + 1;
    }

    /// Remove the character just before the cursor; at the buffer start this
    /// changes nothing.
    pub fn delete_backward(&mut self)
        requires
            old(self).wf(),
        ensures
            final(self).wf(),
            old(self).cursor == 0 ==> final(self).text@ == old(self).text@ && final(self).cursor == old(
                self,
            ).cursor,
            old(self).cursor > 0 ==> final(self).text@ == old(self).text@.remove(
                old(self).cursor - 1,
            ) && final(self).cursor == old(self).cursor - 1,
    {
        if self.cursor > 0 {
            self.cursor = self.cursor - 1;
            self.text.remove(self.cursor);
        }
    }

    /// Remove the character at the cursor; at the buffer end this changes
    /// nothing.
    pub fn delete_forward(&mut self)
        requires
            old(self).wf(),
        ensures
            final(self).wf(),
            old(self).cursor == old(self).text@.len() ==> final(self).text@ == old(self).text@
                && final(self).cursor == old(self).cursor,
            old(self).cursor < old(self).text@.len() ==> final(self).text@ == old(self).text@.remove(
                old(self).cursor as int,
            ) && final(self).cursor == old(self).cursor,
    {
        if self.cursor < self.text.len() {
            self.text.remove(self.cursor);
        }
    }

    /// Step the cursor one position left, stopping at the buffer start.
    pub fn move_left(&mut self)
        requires
            old(self).wf(),
        ensures
            final(self).wf(),
            final(self).text@ == old(self).text@,
            final(self).cursor == if old(self).cursor > 0 {
                (old(self).cursor - 1) as int
            } else {
                0int
            },
    {
        if self.cursor > 0 {
            self.cursor = self.cursor - 1;
        }
    }

    /// Step the cursor one position right, stopping at the buffer end.
    pub fn move_right(&mut self)
        requires
            old(self).wf(),
        ensures
            final(self).wf(),
            final(self).text@ == old(self).text@,
            final(self).cursor == if old(self).cursor < old(self).text@.len() {
                old(self).cursor + 1
            } else {
                old(self).cursor as int
            },
    {
        if self.cursor < self.text.len() {
            self.cursor = self.cursor + 1;
        }
    }

    /// Put the cursor at the start of its current line.
    pub fn move_home(&mut self)
        requires
            old(self).wf(),
        ensures
            final(self).wf(),
            final(self).text@ == old(self).text@,
            final(self).cursor == line_start(old(self).text@, old(self).cursor as int),
    {
        self.cursor = find_line_start(&self.text, self.cursor);
    }

    /// Put the cursor at the end of its current line: on its newline, or at
    /// the buffer end for the last line.
    pub fn move_end(&mut self)
        requires
            old(self).wf(),
        ensures
            final(self).wf(),
            final(self).text@ == old(self).text@,
            final(self).cursor == line_end(old(self).text@, old(self).cursor as int),
    {
        self.cursor = find_line_end(&self.text, self.cursor);
    }

    /// Move the cursor up one line, keeping its column clamped to the
    /// previous line's length; on the first line it falls back to the
    /// buffer start.
    pub fn move_up(&mut self)
        requires
            old(self).wf(),
        ensures
            final(self).wf(),
            final(self).text@ == old(self).text@,
            final(self).cursor == up_target(old(self).text@, old(self).cursor as int),
    {
        let ls = find_line_start(&self.text, self.cursor);
        if ls > 0 {
            let col = self.cursor - ls;
            let pls = find_line_start(&self.text, ls - 1);
            let pll = ls - 1 - pls;
            self.cursor = pls + if col < pll {
                col
            } else {
                pll
            };
        } else {
            self.cursor = 0;
        }
    }

    /// Move the cursor down one line, keeping its column clamped to the
    /// next line's length, the empty line a trailing newline opens at the
    /// buffer end included; with no newline at or after the cursor this
    /// changes nothing.
    pub fn move_down(&mut self)
        requires
            old(self).wf(),
        ensures
            final(self).wf(),
            final(self).text@ == old(self).text@,
            final(self).cursor == down_target(old(self).text@, old(self).cursor as int),
    {
        let le = find_line_end(&self.text, self.cursor);
        if le < self.text.len() {
            let ls = find_line_start(&self.text, self.cursor);
            let col = self.cursor - ls;
            let nls = le + 1;
            let nle = find_line_end(&self.text, nls);
            let nll = nle - nls;
            self.cursor = nls + if col < nll {
                col
            } else {
                nll
            };
        }
    }
}

/// The offset just past the newline nearest before `pos`, or 0.
pub fn find_line_start(text: &Vec<char>, pos: usize) -> (r: usize)
    requires
        pos <= text@.len(),
    ensures
        r == line_start(text@, pos as int),
        r <= pos,
{
    let mut i = pos;
    while i > 0 && text[i - 1] != '\n'
        invariant
            i <= pos <= text@.len(),
            line_start(text@, pos as int) == line_start(text@, i as int),
        decreases i,
    {
        i = i - 1;
    }
    i
}

/// The offset of the first newline at or after `pos`, or the buffer length.
pub fn find_line_end(text: &Vec<char>, pos: usize) -> (r: usize)
    requires
        pos <= text@.len(),
    ensures
        r == line_end(text@, pos as int),
        pos <= r <= text@.len(),
{
    let mut i = pos;
    while i < text.len() && text[i] != '\n'
        invariant
            pos <= i <= text@.len(),
            line_end(text@, pos as int) == line_end(text@, i as int),
        decreases text@.len() - i,
    {
        i = i + 1;
    }
    i
}

} // verus!
