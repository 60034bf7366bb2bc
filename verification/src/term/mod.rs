//! The terminal.

pub mod blank;
pub mod grid;
pub mod laws;
pub mod windows;

use vstd::prelude::*;

use crate::term::grid::{Grid, Line};

verus! {

/// A terminal: its grid, and the application that hears of what it does.
pub struct Term<T> {
    pub event_proxy: T,
    pub grid: Grid,
    /// Whether the whole screen has to be drawn anew.
    pub fully_damaged: bool,
}

impl<T> Term<T> {
    /// A terminal with everything still to be drawn.
    pub fn new(event_proxy: T, grid: Grid) -> (term: Term<T>)
        ensures
            term == (Term { event_proxy, grid, fully_damaged: true }),
    {
        Term { event_proxy, grid, fully_damaged: true }
    }

    /// Number of lines which have left the screen at the top.
    pub fn history_size(&self) -> (size: usize)
        requires
            self.grid@.wf(),
        ensures
            size == self.grid@.history(),
    {
        self.grid.history_size()
    }

    /// The lowest line of the screen.
    pub fn bottommost_line(&self) -> (line: Line)
        requires
            self.grid@.wf(),
        ensures
            line.0 == self.grid@.bottommost(),
    {
        self.grid.bottommost_line()
    }

    /// The text of a whole line.
    pub fn line_to_string(&self, line: Line) -> (text: &str)
        requires
            self.grid@.wf(),
            -self.grid@.history() <= line.0 <= self.grid@.bottommost(),
        ensures
            text@ == self.grid@.line(line.0 as int),
    {
        self.grid.line_to_string(line)
    }

    /// Scroll history and screen down, and draw everything anew.
    pub fn scroll_down(&mut self, lines: usize)
        requires
            old(self).grid@.wf(),
        ensures
            final(self).grid@ == old(self).grid@.scrolled_down(lines as nat),
            final(self).grid@.wf(),
            final(self).fully_damaged,
            final(self).event_proxy == old(self).event_proxy,
    {
        self.grid.scroll_down(lines);
        self.mark_fully_damaged();
    }

    /// Scroll the screen up into the history, and draw everything anew.
    pub fn scroll_up(&mut self, lines: usize)
        requires
            old(self).grid@.wf(),
            old(self).grid@.scrolled_up(lines as nat).lines.len() <= i32::MAX,
        ensures
            final(self).grid@ == old(self).grid@.scrolled_up(lines as nat),
            final(self).grid@.wf(),
            final(self).fully_damaged,
            final(self).event_proxy == old(self).event_proxy,
    {
        self.grid.scroll_up(lines);
        self.mark_fully_damaged();
    }

    /// Have the whole screen drawn anew.
    pub fn mark_fully_damaged(&mut self)
        ensures
            *final(self) == (Term { fully_damaged: true, ..*old(self) }),
    {
        self.fully_damaged = true;
    }
}

} // verus!
