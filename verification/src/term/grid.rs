//! The lines of a terminal: the screen, and above it the history.

use vstd::prelude::*;

verus! {

/// A line of the grid: counted from the top of the screen downwards, negative
/// in the history.
#[derive(Clone, Copy, Debug, PartialEq, Eq, Structural)]
pub struct Line(pub i32);

/// A column of the grid.
#[derive(Clone, Copy, Debug, PartialEq, Eq, Structural)]
pub struct Column(pub usize);

/// A cell of the grid.
#[derive(Clone, Copy, Debug, PartialEq, Eq, Structural)]
pub struct Point {
    pub line: Line,
    pub column: Column,
}

/// Where text is written next.
#[derive(Clone, Copy, Debug, PartialEq, Eq, Structural)]
pub struct Cursor {
    pub point: Point,
}

/// `line`, moved into the range from 0 to `max`.
pub open spec fn clamped(line: int, max: int) -> int {
    if line < 0 {
        0
    } else if line > max {
        max
    } else {
        line
    }
}

impl Cursor {
    /// The cursor moved down by `lines` but kept on a screen with `bottommost`
    /// as its lowest line.
    pub open spec fn moved(self, lines: int, bottommost: int) -> Cursor {
        Cursor {
            point: Point {
                line: Line(clamped(self.point.line.0 + lines, bottommost) as i32),
                column: self.point.column,
            },
        }
    }

    /// Move the cursor down by `lines` but keep it on the screen.
    pub fn move_down(&mut self, lines: i32, bottommost: Line)
        requires
            i32::MIN <= old(self).point.line.0 + lines <= i32::MAX,
            bottommost.0 >= 0,
        ensures
            *final(self) == old(self).moved(lines as int, bottommost.0 as int),
    {
        let line: i32 = self.point.line.0 + lines;
        self.point.line = if line < 0 {
            Line(0)
        } else if line > bottommost.0 {
            bottommost
        } else {
            Line(line)
        };
    }
}

/// `count` lines without text.
pub open spec fn blank_lines(count: nat) -> Seq<Seq<char>> {
    Seq::new(count, |i: int| Seq::empty())
}

/// The smaller of two numbers.
pub open spec fn smaller(a: nat, b: nat) -> nat {
    if a <= b {
        a
    } else {
        b
    }
}

/// Model of a [`Grid`].
#[verifier::ext_equal]
pub struct GridView {
    /// The text of each line, from the oldest one of the history to the
    /// lowest one of the screen.
    pub lines: Seq<Seq<char>>,
    pub screen_lines: nat,
    /// The most lines that the history may have.
    pub max_scroll_limit: nat,
    pub cursor: Cursor,
    pub saved_cursor: Cursor,
}

impl GridView {
    /// There is a screen, the history keeps to its limit, and every line has
    /// a number.
    pub open spec fn wf(self) -> bool {
        &&& 1 <= self.screen_lines <= self.lines.len()
        &&& self.lines.len() <= self.screen_lines + self.max_scroll_limit
        &&& self.lines.len() <= i32::MAX
    }

    /// Number of lines in the history.
    pub open spec fn history(self) -> int {
        self.lines.len() - self.screen_lines
    }

    /// The lowest line of the screen.
    pub open spec fn bottommost(self) -> int {
        self.screen_lines - 1
    }

    /// The text of a line.
    pub open spec fn line(self, line: int) -> Seq<char> {
        self.lines[self.history() + line]
    }

    /// History and screen moved down by `count` lines, a whole screen at most:
    /// blank lines enter at the top of the history, the lowest lines of the
    /// screen leave.
    pub open spec fn scrolled_down(self, count: nat) -> GridView {
        let count = smaller(count, self.screen_lines);
        GridView {
            lines: blank_lines(count) + self.lines.take(self.lines.len() - count),
            ..self
        }
    }

    /// The screen moved up by `count` lines, a whole screen at most: its upper
    /// lines enter the history, blank lines enter at the bottom, and the
    /// oldest lines leave a history which would get too long.
    pub open spec fn scrolled_up(self, count: nat) -> GridView {
        let count = smaller(count, self.screen_lines);
        let grown = self.lines + blank_lines(count);
        let kept = smaller(grown.len(), self.screen_lines + self.max_scroll_limit);
        GridView { lines: grown.skip(grown.len() - kept), ..self }
    }

    /// The grid without the oldest `count` lines of the history.
    pub open spec fn shrunk(self, count: nat) -> GridView {
        GridView { lines: self.lines.skip(smaller(count, self.history() as nat) as int), ..self }
    }

    /// The grid with both cursors moved down by `lines` but kept on the
    /// screen.
    pub open spec fn cursors_moved(self, lines: int) -> GridView {
        GridView {
            cursor: self.cursor.moved(lines, self.bottommost()),
            saved_cursor: self.saved_cursor.moved(lines, self.bottommost()),
            ..self
        }
    }
}

/// The lines of a terminal, with the places of its cursors.
pub struct Grid {
    pub cursor: Cursor,
    pub saved_cursor: Cursor,
    /// The text of each line, from the oldest one of the history to the
    /// lowest one of the screen.
    pub lines: Vec<String>,
    pub screen_lines: usize,
    /// The most lines that the history may have.
    pub max_scroll_limit: usize,
}

/// The text of each of `lines`.
pub open spec fn texts(lines: Seq<String>) -> Seq<Seq<char>> {
    lines.map_values(|line: String| line@)
}

impl View for Grid {
    type V = GridView;

    open spec fn view(&self) -> GridView {
        GridView {
            lines: texts(self.lines@),
            screen_lines: self.screen_lines as nat,
            max_scroll_limit: self.max_scroll_limit as nat,
            cursor: self.cursor,
            saved_cursor: self.saved_cursor,
        }
    }
}

/// Append `count` blank lines.
fn push_blank_lines(lines: &mut Vec<String>, count: usize)
    ensures
        texts(final(lines)@) == texts(old(lines)@) + blank_lines(count as nat),
{
    let mut pushed: usize = 0;
    assert(texts(lines@) =~= texts(old(lines)@) + blank_lines(0));
    while pushed < count
        invariant
            pushed <= count,
            texts(lines@) == texts(old(lines)@) + blank_lines(pushed as nat),
        decreases count - pushed,
    {
        let ghost before = lines@;
        lines.push(String::new());
        assert(texts(lines@) =~= texts(before).push(Seq::empty()));
        assert(texts(lines@) =~= texts(old(lines)@) + blank_lines((pushed + 1) as nat));
        pushed = pushed + 1;
    }
}

impl Grid {
    /// Whether the grid has a screen, keeps its history within the limit, and
    /// has a number for every line.
    pub fn is_wf(&self) -> (wf: bool)
        ensures
            wf == self@.wf(),
    {
        let total: usize = self.lines.len();
        1 <= self.screen_lines && self.screen_lines <= total && total - self.screen_lines
            <= self.max_scroll_limit && total <= i32::MAX as usize
    }

    /// Number of lines which have left the screen at the top.
    pub fn history_size(&self) -> (size: usize)
        requires
            self@.wf(),
        ensures
            size == self@.history(),
    {
        self.lines.len() - self.screen_lines
    }

    /// The lowest line of the screen.
    pub fn bottommost_line(&self) -> (line: Line)
        requires
            self@.wf(),
        ensures
            line.0 == self@.bottommost(),
    {
        Line((self.screen_lines - 1) as i32)
    }

    /// The text of a whole line.
    pub fn line_to_string(&self, line: Line) -> (text: &str)
        requires
            self@.wf(),
            -self@.history() <= line.0 <= self@.bottommost(),
        ensures
            text@ == self@.line(line.0 as int),
    {
        let index: i64 = self.history_size() as i64 + line.0 as i64;
        self.lines[index as usize].as_str()
    }

    /// Scroll history and screen down.
    pub fn scroll_down(&mut self, lines: usize)
        requires
            old(self)@.wf(),
        ensures
            final(self)@ == old(self)@.scrolled_down(lines as nat),
            final(self)@.wf(),
    {
        let count: usize = if lines <= self.screen_lines {
            lines
        } else {
            self.screen_lines
        };
        let kept: usize = self.lines.len() - count;
        let mut scrolled: Vec<String> = Vec::new();
        push_blank_lines(&mut scrolled, count);
        self.lines.truncate(kept);
        let ghost blank = scrolled@;
        scrolled.append(&mut self.lines);
        self.lines = scrolled;
        assert(self@.lines =~= blank_lines(count as nat) + old(self)@.lines.take(kept as int)) by {
            assert(texts(blank) =~= blank_lines(count as nat));
        }
    }

    /// Scroll the screen up into the history.
    pub fn scroll_up(&mut self, lines: usize)
        requires
            old(self)@.wf(),
            old(self)@.scrolled_up(lines as nat).lines.len() <= i32::MAX,
        ensures
            final(self)@ == old(self)@.scrolled_up(lines as nat),
            final(self)@.wf(),
    {
        let count: usize = if lines <= self.screen_lines {
            lines
        } else {
            self.screen_lines
        };
        push_blank_lines(&mut self.lines, count);
        let ghost grown = self.lines@;
        let history: usize = self.lines.len() - self.screen_lines;
        if history > self.max_scroll_limit {
            let excess: usize = history - self.max_scroll_limit;
            self.lines = self.lines.split_off(excess);
            assert(self@.lines =~= texts(grown).skip(excess as int));
        } else {
            assert(texts(grown).skip(0) =~= texts(grown));
        }
    }

    /// Drop the oldest lines of the history.
    pub fn decrease_scroll_limit(&mut self, count: usize)
        requires
            old(self)@.wf(),
        ensures
            final(self)@ == old(self)@.shrunk(count as nat),
            final(self)@.wf(),
    {
        let history: usize = self.history_size();
        let count: usize = if count <= history {
            count
        } else {
            history
        };
        self.lines = self.lines.split_off(count);
        assert(self@.lines =~= old(self)@.lines.skip(count as int));
    }
}

} // verus!
