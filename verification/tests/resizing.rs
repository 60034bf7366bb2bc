use terminal_loop::term::blank::is_blank_line;
use terminal_loop::term::grid::{Column, Cursor, Grid, Line, Point};
use terminal_loop::term::windows::{
    adjust_to_conpty_resize_behavior, count_blank_lines, is_adjustable,
};
use terminal_loop::term::Term;

fn cursor(line: i32, column: usize) -> Cursor {
    Cursor { point: Point { line: Line(line), column: Column(column) } }
}

fn term(lines: &[&str], screen_lines: usize, cursor_line: i32, saved_line: i32) -> Term<u8> {
    let grid = Grid {
        cursor: cursor(cursor_line, 3),
        saved_cursor: cursor(saved_line, 4),
        lines: lines.iter().map(|line| line.to_string()).collect(),
        screen_lines,
        max_scroll_limit: 100,
    };
    let mut term = Term::new(9, grid);
    assert!(term.fully_damaged);
    term.fully_damaged = false;
    term
}

fn assert_lines(term: &Term<u8>, lines: &[&str]) {
    assert_eq!(term.grid.lines, lines);
}

#[test]
fn parts_of_the_grid() {
    let term = term(&["h1", "h2", "a", "b", "c"], 3, 0, 0);
    assert_eq!(term.history_size(), 2);
    assert_eq!(term.bottommost_line(), Line(2));
    assert_eq!(term.line_to_string(Line(-2)), "h1");
    assert_eq!(term.line_to_string(Line(0)), "a");
    assert_eq!(term.line_to_string(Line(2)), "c");
}

#[test]
fn same_history_changes_only_the_damage() {
    let mut term = term(&["h1", "a", "", ""], 3, 0, 1);
    adjust_to_conpty_resize_behavior(&mut term, 1);
    assert_lines(&term, &["h1", "a", "", ""]);
    assert_eq!(term.grid.cursor, cursor(0, 3));
    assert_eq!(term.grid.saved_cursor, cursor(1, 4));
    assert!(term.fully_damaged);
    assert_eq!(term.event_proxy, 9);
}

#[test]
fn blank_lines_below_the_cursor_are_consumed() {
    let mut term = term(&["h1", "h2", "a", "  ", "\t\n"], 3, 0, 1);
    adjust_to_conpty_resize_behavior(&mut term, 0);
    assert_lines(&term, &["h1", "h2", "a"]);
    assert_eq!(term.history_size(), 0);
    assert_eq!(term.grid.cursor, cursor(2, 3));
    assert_eq!(term.line_to_string(Line(2)), "a");
    // The saved cursor is kept on the screen.
    assert_eq!(term.grid.saved_cursor, cursor(2, 4));
    assert!(term.fully_damaged);
}

#[test]
fn no_more_lines_are_consumed_than_the_history_grew_by() {
    let mut term = term(&["h1", "h2", "a", "", ""], 3, 0, 0);
    adjust_to_conpty_resize_behavior(&mut term, 1);
    assert_lines(&term, &["h1", "h2", "a", ""]);
    assert_eq!(term.history_size(), 1);
    assert_eq!(term.grid.cursor, cursor(1, 3));
    assert_eq!(term.grid.saved_cursor, cursor(1, 4));
}

#[test]
fn line_of_the_cursor_stays_on_the_screen() {
    let mut term = term(&["h1", "h2", "a", "", ""], 3, 2, 0);
    adjust_to_conpty_resize_behavior(&mut term, 0);
    assert_lines(&term, &["h1", "h2", "a", "", ""]);
    assert_eq!(term.grid.cursor, cursor(2, 3));
    assert_eq!(term.grid.saved_cursor, cursor(0, 4));

    let mut term = self::term(&["h1", "h2", "a", "", ""], 3, 1, 0);
    adjust_to_conpty_resize_behavior(&mut term, 0);
    assert_lines(&term, &["h1", "h2", "a", ""]);
    assert_eq!(term.grid.cursor, cursor(2, 3));
    assert_eq!(term.line_to_string(Line(2)), "");
}

#[test]
fn text_at_the_bottom_is_kept() {
    let mut term = term(&["h1", "h2", "", "", "text"], 3, 0, 0);
    adjust_to_conpty_resize_behavior(&mut term, 0);
    assert_lines(&term, &["h1", "h2", "", "", "text"]);
    assert_eq!(term.grid.cursor, cursor(0, 3));
}

#[test]
fn cursor_below_the_screen_prevents_scrolling() {
    let mut term = term(&["h1", "a", "", ""], 3, 5, 0);
    adjust_to_conpty_resize_behavior(&mut term, 0);
    assert_lines(&term, &["h1", "a", "", ""]);
    assert_eq!(term.grid.cursor, cursor(5, 3));
}

#[test]
fn correcting_twice_is_correcting_once() {
    let mut term = term(&["h1", "h2", "a", "", ""], 3, 0, 0);
    adjust_to_conpty_resize_behavior(&mut term, 1);
    let lines = term.grid.lines.clone();
    let place = term.grid.cursor;
    adjust_to_conpty_resize_behavior(&mut term, 1);
    assert_eq!(term.grid.lines, lines);
    assert_eq!(term.grid.cursor, place);

    let mut term = self::term(&["h1", "a", "b", "c"], 3, 2, 1);
    adjust_to_conpty_resize_behavior(&mut term, 3);
    assert_eq!(term.history_size(), 3);
    let lines = term.grid.lines.clone();
    let place = term.grid.cursor;
    adjust_to_conpty_resize_behavior(&mut term, 3);
    assert_eq!(term.grid.lines, lines);
    assert_eq!(term.grid.cursor, place);
}

#[test]
fn shorter_history_scrolls_up() {
    let mut term = term(&["h1", "a", "b", "c"], 3, 2, 1);
    adjust_to_conpty_resize_behavior(&mut term, 2);
    assert_lines(&term, &["h1", "a", "b", "c", ""]);
    assert_eq!(term.history_size(), 2);
    assert_eq!(term.grid.cursor, cursor(1, 3));
    assert_eq!(term.line_to_string(Line(1)), "c");
    assert_eq!(term.grid.saved_cursor, cursor(0, 4));
    assert!(term.fully_damaged);
}

#[test]
fn cursor_does_not_leave_the_screen_at_the_top() {
    let mut term = term(&["a", "b", "c"], 3, 1, 0);
    adjust_to_conpty_resize_behavior(&mut term, 2);
    assert_lines(&term, &["a", "b", "c", "", ""]);
    assert_eq!(term.grid.cursor, cursor(0, 3));
    assert_eq!(term.grid.saved_cursor, cursor(0, 4));
}

#[test]
fn at_most_a_screen_is_scrolled_up() {
    let mut term = term(&["a", "b"], 2, 1, 0);
    adjust_to_conpty_resize_behavior(&mut term, 7);
    assert_lines(&term, &["a", "b", "", ""]);
    assert_eq!(term.history_size(), 2);
}

#[test]
fn oldest_lines_leave_a_full_history() {
    let mut term = term(&["h1", "h2", "a", "b"], 2, 1, 1);
    term.grid.max_scroll_limit = 3;
    adjust_to_conpty_resize_behavior(&mut term, 4);
    assert_lines(&term, &["h2", "a", "b", "", ""]);
    assert_eq!(term.history_size(), 3);
}

#[test]
fn history_may_be_unlimited() {
    let mut term = term(&["h1", "a", "b"], 2, 1, 1);
    term.grid.max_scroll_limit = usize::MAX;
    assert!(term.grid.is_wf());
    assert!(is_adjustable(&term, 2));
    adjust_to_conpty_resize_behavior(&mut term, 2);
    assert_lines(&term, &["h1", "a", "b", ""]);
    assert_eq!(term.history_size(), 2);
}

#[test]
fn blank_lines_at_the_bottom_are_counted() {
    let term = term(&["h1", "a", "", " ", ""], 3, 0, 0);
    assert_eq!(count_blank_lines(&term, 0), 0);
    assert_eq!(count_blank_lines(&term, 2), 2);
    assert_eq!(count_blank_lines(&term, 5), 3);
    assert_eq!(count_blank_lines(&term, i32::MAX), 3);
}

#[test]
fn grids_in_order() {
    let mut grid = term(&["h1", "a", "b"], 2, 0, 0).grid;
    assert!(grid.is_wf());
    grid.max_scroll_limit = 1;
    assert!(grid.is_wf());
    grid.max_scroll_limit = 0;
    assert!(!grid.is_wf());
    grid.screen_lines = 0;
    assert!(!grid.is_wf());
    grid.screen_lines = 4;
    assert!(!grid.is_wf());
}

#[test]
fn numbers_which_overflow_cannot_be_adjusted() {
    // The history grew.
    assert!(is_adjustable(&term(&["h1", "a", ""], 2, 0, 0), 0));
    assert!(!is_adjustable(&term(&["h1", "a", ""], 2, i32::MIN, 0), 0));
    assert!(!is_adjustable(&term(&["h1", "a", ""], 2, 0, i32::MAX), 0));
    assert!(is_adjustable(&term(&["h1", "a", "b"], 2, 0, i32::MAX), 0));
    // The history got shorter.
    assert!(is_adjustable(&term(&["a", "b"], 2, 0, 0), 1));
    assert!(!is_adjustable(&term(&["a", "b"], 2, i32::MIN, 0), 1));
    assert!(!is_adjustable(&term(&["a", "b"], 2, 0, i32::MIN), 1));
    // It did neither.
    assert!(is_adjustable(&term(&["a", "b"], 2, i32::MIN, i32::MAX), 0));
    // A grid without a screen.
    assert!(!is_adjustable(&term(&["a", "b"], 0, 0, 0), 0));
    // All lines are blank, but the history would have grown by more.
    assert!(is_adjustable(&term(&["", "", "a"], 1, 0, 0), (1u64 << 32) as usize - 5));
    assert!(!is_adjustable(&term(&["", "", ""], 1, 0, 0), (1u64 << 32) as usize - 5));
}

#[test]
fn scrolling_by_hand() {
    let mut term = term(&["h1", "a", "b"], 2, 0, 0);
    term.scroll_down(1);
    assert_lines(&term, &["", "h1", "a"]);
    term.grid.decrease_scroll_limit(5);
    assert_lines(&term, &["h1", "a"]);
    term.scroll_up(1);
    assert_lines(&term, &["h1", "a", ""]);
    term.scroll_down(9);
    assert_lines(&term, &["", "", "h1"]);
}

#[test]
fn cursor_moves_within_the_screen() {
    let mut moving = cursor(5, 2);
    moving.move_down(3, Line(10));
    assert_eq!(moving, cursor(8, 2));
    moving.move_down(3, Line(10));
    assert_eq!(moving, cursor(10, 2));
    moving.move_down(-20, Line(10));
    assert_eq!(moving, cursor(0, 2));
}

#[test]
fn blank_lines_hold_white_space_only() {
    assert!(is_blank_line(""));
    assert!(is_blank_line(" \t\r\n\u{a0}\u{3000}"));
    assert!(!is_blank_line("  x  "));
    assert!(!is_blank_line("\u{200b}"));
}

#[test]
fn white_space_characters() {
    for c in '\0'..=char::MAX {
        let expected = matches!(
            c as u32,
            0x09..=0x0d
                | 0x20
                | 0x85
                | 0xa0
                | 0x1680
                | 0x2000..=0x200a
                | 0x2028
                | 0x2029
                | 0x202f
                | 0x205f
                | 0x3000
        );
        assert_eq!(is_blank_line(&c.to_string()), expected, "{:x}", c as u32);
    }
}
