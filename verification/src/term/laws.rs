//! What holds of the correction as a whole.

use vstd::prelude::*;

use crate::term::blank::{is_blank, lemma_trailing_blank};
use crate::term::grid::{blank_lines, smaller, Cursor, GridView};
use crate::term::windows::{
    adjustable, adjusted, history_size_change, lines_to_scroll_down,
};

verus! {

/// Whether a cursor is on the screen of `grid`.
pub open spec fn on_screen(grid: GridView, cursor: Cursor) -> bool {
    0 <= cursor.point.line.0 <= grid.bottommost()
}

/// For a history which grew, the correction takes away as many lines at the
/// bottom as it scrolls down.
proof fn lemma_shrinking(grid: GridView, before: usize)
    requires
        grid.wf(),
        before <= i32::MAX,
        history_size_change(grid, before) > 0,
        grid.cursor.point.line.0 >= 0,
    ensures
        ({
            let count = lines_to_scroll_down(grid, history_size_change(grid, before));
            let after = adjusted(grid, before);
            &&& count <= grid.history()
            &&& count < grid.screen_lines
            &&& after.lines == grid.lines.take(grid.lines.len() - count)
            &&& after.history() == grid.history() - count
            &&& after.screen_lines == grid.screen_lines
            &&& count > 0 ==> after.cursor == grid.cursor.moved(count as int, grid.bottommost())
            &&& count > 0 ==> after.saved_cursor == grid.saved_cursor.moved(
                count as int,
                grid.bottommost(),
            )
            &&& count == 0 ==> after == grid
        }),
{
    let count = lines_to_scroll_down(grid, history_size_change(grid, before));
    let after = adjusted(grid, before);
    if count == 0 {
        assert(grid.lines.take(grid.lines.len() as int) =~= grid.lines);
    } else {
        assert(after.lines =~= grid.lines.take(grid.lines.len() - count));
    }
}

/// A history which did not change leaves the grid as it is.
pub proof fn law_unchanged_history_changes_nothing(grid: GridView, before: usize)
    requires
        grid.wf(),
        grid.history() == before,
    ensures
        adjusted(grid, before) == grid,
{
}

/// The cursor's own line never leaves the screen: where lines are scrolled
/// down, the cursor stays on the text it was on, in the same column.
pub proof fn law_cursor_keeps_its_line(grid: GridView, before: usize)
    requires
        grid.wf(),
        before <= grid.history(),
        on_screen(grid, grid.cursor),
    ensures
        on_screen(adjusted(grid, before), adjusted(grid, before).cursor),
        adjusted(grid, before).line(adjusted(grid, before).cursor.point.line.0 as int)
            == grid.line(grid.cursor.point.line.0 as int),
        adjusted(grid, before).cursor.point.column == grid.cursor.point.column,
{
    if before < grid.history() {
        lemma_shrinking(grid, before);
    }
}

/// Where lines are scrolled down, the text stays as it is but for blank lines
/// at the bottom, which go, and no more of them than the history grew by.
pub proof fn law_only_blank_lines_are_consumed(grid: GridView, before: usize)
    requires
        grid.wf(),
        before <= grid.history(),
        grid.cursor.point.line.0 >= 0,
    ensures
        ({
            let after = adjusted(grid, before);
            &&& before <= after.history() <= grid.history()
            &&& after.lines.len() <= grid.lines.len()
            &&& after.lines == grid.lines.take(after.lines.len() as int)
            &&& forall|i: int|
                after.lines.len() <= i < grid.lines.len() ==> is_blank(#[trigger] grid.lines[i])
        }),
{
    if before < grid.history() {
        lemma_shrinking(grid, before);
        lemma_trailing_blank(grid.lines);
    } else {
        assert(grid.lines.take(grid.lines.len() as int) =~= grid.lines);
    }
}

/// Blank lines strictly below the cursor are consumed for as long as the
/// history is longer than before the resize: in the end it is as long as it
/// was, or the lowest line has text, or the cursor is on the lowest line.
pub proof fn law_blank_lines_below_cursor_are_consumed(grid: GridView, before: usize)
    requires
        grid.wf(),
        before <= grid.history(),
        on_screen(grid, grid.cursor),
    ensures
        ({
            let after = adjusted(grid, before);
            ||| after.history() == before
            ||| !is_blank(after.line(after.bottommost()))
            ||| after.cursor.point.line.0 == after.bottommost()
        }),
{
    if before < grid.history() {
        lemma_shrinking(grid, before);
        lemma_trailing_blank(grid.lines);
    }
}

/// No cursor leaves the screen: both are on it afterwards if they were before,
/// and wherever they are moved they end up on it.
pub proof fn law_cursors_stay_on_screen(grid: GridView, before: usize)
    requires
        grid.wf(),
        adjustable(grid, before),
    ensures
        ({
            let after = adjusted(grid, before);
            &&& after.screen_lines == grid.screen_lines
            &&& on_screen(grid, grid.cursor) || after.cursor != grid.cursor ==> on_screen(
                after,
                after.cursor,
            )
            &&& on_screen(grid, grid.saved_cursor) || after.saved_cursor != grid.saved_cursor
                ==> on_screen(after, after.saved_cursor)
            &&& history_size_change(grid, before) < 0 ==> {
                &&& on_screen(after, after.cursor)
                &&& on_screen(after, after.saved_cursor)
            }
        }),
{
}

/// For a history which got shorter, the text moves up by as many lines, a
/// whole screen at most: blank lines follow at the bottom, and only lines
/// beyond the limit of the history are lost, the oldest ones first.
pub proof fn law_growing_keeps_the_text(grid: GridView, before: usize)
    requires
        grid.wf(),
        before <= i32::MAX,
        grid.history() < before,
    ensures
        ({
            let after = adjusted(grid, before);
            let count = smaller((before - grid.history()) as nat, grid.screen_lines);
            let lost = grid.lines.len() + count - after.lines.len();
            &&& after.lines == (grid.lines + blank_lines(count)).skip(lost)
            &&& after.history() == smaller((grid.history() + count) as nat, grid.max_scroll_limit)
            &&& lost > 0 ==> after.history() == grid.max_scroll_limit
            &&& before <= grid.max_scroll_limit && before - grid.history() <= grid.screen_lines
                ==> lost == 0 && after.history() == before
        }),
{
}

/// For a history which got shorter, the cursor stays on the text it was on
/// unless that text leaves the screen at the top; it is on the topmost line
/// then.
pub proof fn law_growing_moves_the_cursor_along(grid: GridView, before: usize)
    requires
        grid.wf(),
        before <= i32::MAX,
        grid.history() < before,
        on_screen(grid, grid.cursor),
    ensures
        ({
            let after = adjusted(grid, before);
            let line = grid.cursor.point.line.0 - (before - grid.history());
            &&& line >= 0 ==> {
                &&& after.cursor.point.line.0 == line
                &&& after.line(line) == grid.line(grid.cursor.point.line.0 as int)
            }
            &&& line < 0 ==> after.cursor.point.line.0 == 0
            &&& after.cursor.point.column == grid.cursor.point.column
        }),
{
    law_growing_keeps_the_text(grid, before);
}

/// Correcting twice for the same resize is correcting once, unless the history
/// cannot be brought back to its former length because it got shorter by more
/// than a screen or its limit was lowered below that length.
pub proof fn law_correction_is_idempotent(grid: GridView, before: usize)
    requires
        grid.wf(),
        before <= grid.history() ==> on_screen(grid, grid.cursor),
        before > grid.history() ==> {
            &&& before <= grid.max_scroll_limit
            &&& before - grid.history() <= grid.screen_lines
        },
    ensures
        adjusted(adjusted(grid, before), before) == adjusted(grid, before),
{
    let after = adjusted(grid, before);
    if before < grid.history() {
        lemma_shrinking(grid, before);
        lemma_trailing_blank(grid.lines);
        lemma_trailing_blank(after.lines);
        law_blank_lines_below_cursor_are_consumed(grid, before);
        if after.history() > before {
            lemma_shrinking(after, before);
        }
    } else if before > grid.history() {
        law_growing_keeps_the_text(grid, before);
    }
}

/// Both cursors move along with the text, by as many lines as that moves, but
/// not over the edges of the screen, and stay in their columns. Where the text
/// stays, they stay too.
pub proof fn law_cursors_move_with_the_text(grid: GridView, before: usize)
    requires
        grid.wf(),
        before <= i32::MAX,
        grid.cursor.point.line.0 >= 0,
    ensures
        ({
            let after = adjusted(grid, before);
            let shift: int = if before <= grid.history() {
                grid.lines.len() - after.lines.len()
            } else {
                grid.history() - before
            };
            let bottommost = grid.screen_lines - 1;
            let line = grid.cursor.point.line.0 + shift;
            let saved_line = grid.saved_cursor.point.line.0 + shift;
            &&& after.cursor.point.column == grid.cursor.point.column
            &&& after.saved_cursor.point.column == grid.saved_cursor.point.column
            &&& shift == 0 ==> {
                &&& after.cursor == grid.cursor
                &&& after.saved_cursor == grid.saved_cursor
            }
            &&& shift != 0 ==> {
                &&& line < 0 ==> after.cursor.point.line.0 == 0
                &&& 0 <= line <= bottommost ==> after.cursor.point.line.0 == line
                &&& line > bottommost ==> after.cursor.point.line.0 == bottommost
                &&& saved_line < 0 ==> after.saved_cursor.point.line.0 == 0
                &&& 0 <= saved_line <= bottommost ==> after.saved_cursor.point.line.0 == saved_line
                &&& saved_line > bottommost ==> after.saved_cursor.point.line.0 == bottommost
            }
        }),
{
    if before < grid.history() {
        lemma_shrinking(grid, before);
    }
}

/// A saved cursor stays on the text it was on, in the same column, unless that
/// text leaves the screen; it is on the nearest line of the screen then.
pub proof fn law_saved_cursor_keeps_its_text(grid: GridView, before: usize)
    requires
        grid.wf(),
        before <= i32::MAX,
        grid.cursor.point.line.0 >= 0,
        on_screen(grid, grid.saved_cursor),
    ensures
        ({
            let after = adjusted(grid, before);
            let shift: int = if before <= grid.history() {
                grid.lines.len() - after.lines.len()
            } else {
                grid.history() - before
            };
            let line = grid.saved_cursor.point.line.0;
            let moved = after.saved_cursor.point.line.0;
            &&& after.saved_cursor.point.column == grid.saved_cursor.point.column
            &&& 0 <= line + shift <= grid.bottommost() ==> {
                &&& moved == line + shift
                &&& after.line(moved as int) == grid.line(line as int)
            }
            &&& line + shift < 0 ==> moved == 0
            &&& line + shift > grid.bottommost() ==> moved == grid.bottommost()
        }),
{
    law_cursors_move_with_the_text(grid, before);
    if before < grid.history() {
        lemma_shrinking(grid, before);
    } else if before > grid.history() {
        law_growing_keeps_the_text(grid, before);
    }
}

/// The correction changes neither the size of the screen nor the limit of the
/// history.
pub proof fn law_correction_keeps_the_sizes(grid: GridView, before: usize)
    ensures
        adjusted(grid, before).screen_lines == grid.screen_lines,
        adjusted(grid, before).max_scroll_limit == grid.max_scroll_limit,
{
}

/// The lines that follow the text of a shorter history have no text at all.
pub proof fn law_growing_appends_blank_lines(grid: GridView, before: usize)
    requires
        grid.wf(),
        before <= i32::MAX,
        grid.history() < before,
    ensures
        ({
            let after = adjusted(grid, before);
            let count: int = if before - grid.history() < grid.screen_lines {
                before - grid.history()
            } else {
                grid.screen_lines as int
            };
            &&& count <= after.lines.len()
            &&& forall|i: int|
                after.lines.len() - count <= i < after.lines.len() ==> (
                #[trigger] after.lines[i]).len() == 0
            &&& forall|i: int|
                0 <= i < after.lines.len() - count ==> #[trigger] after.lines[i]
                    == grid.lines[grid.lines.len() + i + count - after.lines.len()]
        }),
{
    law_growing_keeps_the_text(grid, before);
}

/// Every terminal whose cursors are on the screen can be corrected, as long as
/// one more screen of lines can be numbered.
pub proof fn law_ordinary_terminals_are_adjustable(grid: GridView, before: usize)
    requires
        grid.wf(),
        before <= i32::MAX,
        on_screen(grid, grid.cursor),
        on_screen(grid, grid.saved_cursor),
        grid.lines.len() + grid.screen_lines <= i32::MAX,
    ensures
        adjustable(grid, before),
{
}

/// Scrolling down by `count` lines moves all text down by as many lines, a
/// whole screen at most. Blank lines enter at the top, and no more lines leave
/// at the bottom than enter.
pub proof fn law_scrolling_down_moves_the_text(grid: GridView, count: nat)
    requires
        grid.wf(),
    ensures
        ({
            let after = grid.scrolled_down(count);
            let moved: int = if count < grid.screen_lines {
                count as int
            } else {
                grid.screen_lines as int
            };
            &&& after == (GridView { lines: after.lines, ..grid })
            &&& after.lines.len() == grid.lines.len()
            &&& forall|i: int| 0 <= i < moved ==> (#[trigger] after.lines[i]).len() == 0
            &&& forall|i: int|
                moved <= i < after.lines.len() ==> #[trigger] after.lines[i] == grid.lines[i
                    - moved]
        }),
{
}

/// Scrolling up by `count` lines appends as many blank lines, a whole screen
/// at most, and drops the oldest lines beyond the limit of the history, and no
/// others.
pub proof fn law_scrolling_up_moves_the_text(grid: GridView, count: nat)
    requires
        grid.wf(),
    ensures
        ({
            let after = grid.scrolled_up(count);
            let moved: int = if count < grid.screen_lines {
                count as int
            } else {
                grid.screen_lines as int
            };
            let lost = grid.lines.len() + moved - after.lines.len();
            &&& after == (GridView { lines: after.lines, ..grid })
            &&& lost >= 0
            &&& after.history() <= grid.max_scroll_limit
            &&& lost > 0 ==> after.history() == grid.max_scroll_limit
            &&& forall|i: int|
                after.lines.len() - moved <= i < after.lines.len() ==> i >= 0 && (
                #[trigger] after.lines[i]).len() == 0
            &&& forall|i: int|
                0 <= i < after.lines.len() - moved ==> #[trigger] after.lines[i] == grid.lines[i
                    + lost]
        }),
{
}

/// Dropping `count` lines of the history drops the oldest ones, and never a
/// line of the screen.
pub proof fn law_shrinking_drops_the_oldest_lines(grid: GridView, count: nat)
    requires
        grid.wf(),
    ensures
        ({
            let after = grid.shrunk(count);
            let dropped = grid.lines.len() - after.lines.len();
            &&& after == (GridView { lines: after.lines, ..grid })
            &&& dropped == if count < grid.history() {
                count as int
            } else {
                grid.history()
            }
            &&& forall|i: int|
                0 <= i < after.lines.len() ==> #[trigger] after.lines[i] == grid.lines[i + dropped]
        }),
{
}

/// A cursor on the lowest line, or below it, keeps everything where it is.
pub proof fn law_cursor_at_the_bottom_keeps_everything(grid: GridView, before: usize)
    requires
        grid.wf(),
        before <= grid.history(),
        grid.cursor.point.line.0 >= grid.screen_lines - 1,
    ensures
        adjusted(grid, before) == grid,
{
}

/// Former lengths of the history which are the same number of lines to the
/// grid lead to the same correction.
pub proof fn law_equal_lengths_lead_to_equal_corrections(
    grid: GridView,
    before: usize,
    other: usize,
)
    requires
        before as i32 == other as i32,
    ensures
        adjusted(grid, before) == adjusted(grid, other),
        adjustable(grid, before) == adjustable(grid, other),
{
}

/// A cursor moves by as many lines as it is told to, stops at the edges of the
/// screen, and stays in its column.
pub proof fn law_cursor_stops_at_the_edges(cursor: Cursor, lines: int, bottommost: i32)
    requires
        bottommost >= 0,
    ensures
        ({
            let moved = cursor.moved(lines, bottommost as int);
            let line = cursor.point.line.0 + lines;
            &&& moved.point.column == cursor.point.column
            &&& 0 <= line <= bottommost ==> moved.point.line.0 == line
            &&& line < 0 ==> moved.point.line.0 == 0
            &&& line > bottommost ==> moved.point.line.0 == bottommost
        }),
{
}

/// The lines of the screen are numbered from 0 on, and those of the history
/// backwards from -1 on.
pub proof fn law_lines_are_numbered(grid: GridView, number: int)
    requires
        grid.wf(),
    ensures
        grid.history() + grid.screen_lines == grid.lines.len(),
        grid.bottommost() + 1 == grid.screen_lines,
        -grid.history() <= number <= grid.bottommost() ==> {
            &&& 0 <= grid.lines.len() - grid.screen_lines + number < grid.lines.len()
            &&& grid.line(number) == grid.lines[grid.lines.len() - grid.screen_lines + number]
        },
        grid.line(grid.bottommost()) == grid.lines.last(),
{
}

} // verus!
