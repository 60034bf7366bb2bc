//! Keeping the grid in step with conpty.

use vstd::prelude::*;

use crate::term::blank::{is_blank, is_blank_line, lemma_trailing_blank, trailing_blank};
use crate::term::grid::{smaller, GridView, Line};
use crate::term::Term;

verus! {

/// By how many lines the history of `grid` grew since it had
/// `history_size_before_resize` lines.
pub open spec fn history_size_change(grid: GridView, history_size_before_resize: usize) -> int {
    grid.history() - (history_size_before_resize as i32)
}

/// How many lines to scroll down for a history which grew by `change` lines:
/// as many as there are blank lines at the bottom of the screen, but the
/// cursor's own line stays on the screen.
pub open spec fn lines_to_scroll_down(grid: GridView, change: int) -> nat {
    let below_cursor = grid.bottommost() - grid.cursor.point.line.0;
    smaller(
        smaller(trailing_blank(grid.lines), change as nat),
        if below_cursor > 0 {
            below_cursor as nat
        } else {
            0
        },
    )
}

/// The grid after the correction.
pub open spec fn adjusted(grid: GridView, history_size_before_resize: usize) -> GridView {
    let change = history_size_change(grid, history_size_before_resize);
    if change > 0 {
        let count = lines_to_scroll_down(grid, change);
        if count > 0 {
            grid.scrolled_down(count).cursors_moved(count as int).shrunk(count)
        } else {
            grid
        }
    } else if change < 0 {
        grid.scrolled_up((-change) as nat).cursors_moved(change)
    } else {
        grid
    }
}

/// Whether all line numbers that the correction computes can be represented,
/// and there are as many lines as it looks at.
pub open spec fn adjustable(grid: GridView, history_size_before_resize: usize) -> bool {
    let change = history_size_change(grid, history_size_before_resize);
    let cursor = grid.cursor.point.line.0;
    let saved_cursor = grid.saved_cursor.point.line.0;
    &&& change <= i32::MAX
    &&& change > 0 ==> {
        &&& change <= grid.lines.len() || trailing_blank(grid.lines) < grid.lines.len()
        &&& grid.bottommost() - cursor <= i32::MAX
        &&& lines_to_scroll_down(grid, change) > 0 ==> saved_cursor + lines_to_scroll_down(
            grid,
            change,
        ) <= i32::MAX
    }
    &&& change < 0 ==> {
        &&& cursor + change >= i32::MIN
        &&& saved_cursor + change >= i32::MIN
        &&& grid.scrolled_up((-change) as nat).lines.len() <= i32::MAX
    }
}

/// Number of blank lines at the bottom, up to `limit`.
pub fn count_blank_lines<T>(term: &Term<T>, limit: i32) -> (count: i32)
    requires
        term.grid@.wf(),
        limit >= 0,
        limit <= term.grid@.lines.len() || trailing_blank(term.grid@.lines)
            < term.grid@.lines.len(),
    ensures
        count == smaller(trailing_blank(term.grid@.lines), limit as nat),
{
    let ghost lines = term.grid@.lines;
    let bottommost: i32 = term.bottommost_line().0;
    let mut count: i32 = 0;
    proof {
        lemma_trailing_blank(lines);
    }
    while count < limit
        invariant
            term.grid@.wf(),
            lines == term.grid@.lines,
            bottommost == term.grid@.bottommost(),
            0 <= count <= limit,
            count <= trailing_blank(lines) <= lines.len(),
            limit <= lines.len() || trailing_blank(lines) < lines.len(),
            forall|i: int|
                lines.len() - trailing_blank(lines) <= i < lines.len()
                    ==> is_blank(#[trigger] lines[i]),
            trailing_blank(lines) < lines.len() ==> !is_blank(
                lines[lines.len() - 1 - trailing_blank(lines)],
            ),
        decreases limit - count,
    {
        assert(term.grid@.line(bottommost - count) == lines[lines.len() - 1 - count]);
        if !is_blank_line(term.line_to_string(Line(bottommost - count))) {
            return count;
        }
        count = count + 1;
    }
    count
}

/// Whether the correction can be made: the grid is in order, all line numbers
/// that are computed can be represented, and there are as many lines as are
/// looked at.
pub fn is_adjustable<T>(term: &Term<T>, history_size_before_resize: usize) -> (is_adjustable: bool)
    ensures
        is_adjustable == (term.grid@.wf() && adjustable(term.grid@, history_size_before_resize)),
{
    if !term.grid.is_wf() {
        return false;
    }
    let min: i64 = i32::MIN as i64;
    let max: i64 = i32::MAX as i64;
    let total: usize = term.grid.lines.len();
    let screen_lines: usize = term.grid.screen_lines;
    let cursor: i64 = term.grid.cursor.point.line.0 as i64;
    let saved_cursor: i64 = term.grid.saved_cursor.point.line.0 as i64;
    let change: i64 = term.history_size() as i64 - (history_size_before_resize as i32) as i64;
    if change > max {
        false
    } else if change > 0 {
        let blank: i64 = count_blank_lines(term, total as i32) as i64;
        proof {
            lemma_trailing_blank(term.grid@.lines);
        }
        let below_cursor: i64 = term.bottommost_line().0 as i64 - cursor;
        let count: i64 = blank.min(change).min(below_cursor.max(0));
        (change <= total as i64 || blank < total as i64) && below_cursor <= max && (count == 0
            || saved_cursor + count <= max)
    } else if change < 0 {
        let count: i64 = (-change).min(screen_lines as i64);
        cursor + change >= min && saved_cursor + change >= min && (total as i64 + count <= max
            || term.grid.max_scroll_limit <= i32::MAX as usize - screen_lines)
    } else {
        true
    }
}

/// Powershell / conpty has a different resize behavior than this terminal if line wraps occur
/// during resize:
/// - This terminal keeps all blank lines in the bottom of the screen and any new line introduced
///   due to line wrapping is appended to the history section.
/// - Conpty first consumes blank lines in the bottom of the screen and only appends to the
///   history if no more space is left in the bottom of the screen.
/// In order to keep both in sync after resize we need to adjust the terminal's state
/// correspondingly. Otherwise bad things can happen because there is no additional state
/// sync happening between the two.
///
/// The cursor's own line is never scrolled out of the viewport: the cursor marks the terminal's
/// growth point, and the next write would overwrite the line it would be moved to instead.
pub fn adjust_to_conpty_resize_behavior<T>(term: &mut Term<T>, history_size_before_resize: usize)
    requires
        old(term).grid@.wf(),
        adjustable(old(term).grid@, history_size_before_resize),
    ensures
        final(term).grid@ == adjusted(old(term).grid@, history_size_before_resize),
        final(term).grid@.wf(),
        final(term).fully_damaged,
        final(term).event_proxy == old(term).event_proxy,
{
    let change: i32 = (term.history_size() as i32) - (history_size_before_resize as i32);
    let bottommost = term.bottommost_line();

    if change > 0 {
        // determine number of lines we can scroll down (i.e. number of blank lines available)
        let blank_lines: i32 = count_blank_lines(term, change);
        let max_scroll: i32 = (bottommost.0 - term.grid.cursor.point.line.0).max(0);
        let scroll_lines: i32 = blank_lines.min(max_scroll);
        if scroll_lines > 0 {
            term.scroll_down(scroll_lines as usize);
            term.grid.cursor.move_down(scroll_lines, bottommost);
            term.grid.saved_cursor.move_down(scroll_lines, bottommost);
            // scroll down introduces blank lines at the top of the history - remove them
            term.grid.decrease_scroll_limit(scroll_lines as usize);
        }
    } else if change < 0 {
        // scroll up introduces blank lines at the bottom of the screen (similar to scroll down)
        // however these can stay
        term.scroll_up((-change) as usize);
        term.grid.cursor.move_down(change, bottommost);
        term.grid.saved_cursor.move_down(change, bottommost);
    }

    term.mark_fully_damaged();
}

} // verus!
