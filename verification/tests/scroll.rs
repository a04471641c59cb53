use jeek::scroll::{
    column_widths, scroll_down, scroll_up, visible_range, visible_slice, MAX_COLUMN_WIDTH,
    MIN_COLUMN_WIDTH, SCROLL_WINDOW,
};

fn table(rows: &[&[&str]]) -> Vec<Vec<String>> {
    rows.iter().map(|r| r.iter().map(|c| c.to_string()).collect()).collect()
}

fn numbered(n: usize) -> Vec<Vec<String>> {
    (0..n).map(|i| vec![i.to_string()]).collect()
}

#[test]
fn scroll_up_stops_at_the_top() {
    let mut offset = 2;
    scroll_up(&mut offset);
    assert_eq!(offset, 1);
    scroll_up(&mut offset);
    assert_eq!(offset, 0);
    scroll_up(&mut offset);
    assert_eq!(offset, 0);
}

#[test]
fn scroll_down_stops_when_the_window_reaches_the_end() {
    let mut offset = 0;
    for expected in 1..=5 {
        scroll_down(&mut offset, 15);
        assert_eq!(offset, expected);
    }
    scroll_down(&mut offset, 15);
    assert_eq!(offset, 5);
    scroll_down(&mut offset, 15);
    assert_eq!(offset, 5);
}

#[test]
fn scroll_down_does_nothing_on_short_tables() {
    for len in 0..=SCROLL_WINDOW {
        let mut offset = 0;
        scroll_down(&mut offset, len);
        assert_eq!(offset, 0);
    }
    let mut offset = 0;
    scroll_down(&mut offset, SCROLL_WINDOW + 1);
    assert_eq!(offset, 1);
}

#[test]
fn scroll_down_never_overflows() {
    let mut offset = usize::MAX;
    scroll_down(&mut offset, usize::MAX);
    assert_eq!(offset, usize::MAX);
    let mut offset = usize::MAX - 11;
    scroll_down(&mut offset, usize::MAX);
    assert_eq!(offset, usize::MAX - 10);
    scroll_down(&mut offset, usize::MAX);
    assert_eq!(offset, usize::MAX - 10);
}

#[test]
fn scroll_down_is_monotonic_and_bounded() {
    for len in 0..40usize {
        let ceiling = len.saturating_sub(SCROLL_WINDOW);
        for start in 0..=ceiling {
            let mut offset = start;
            scroll_down(&mut offset, len);
            assert!(offset >= start);
            assert!(offset <= ceiling);
            if start == ceiling {
                assert_eq!(offset, start);
            }
        }
    }
}

#[test]
fn visible_range_clamps_to_the_rows() {
    assert_eq!(visible_range(20, 0, 5), (0, 5));
    assert_eq!(visible_range(20, 18, 5), (18, 20));
    assert_eq!(visible_range(20, 25, 5), (20, 20));
    assert_eq!(visible_range(0, 0, 5), (0, 0));
    assert_eq!(visible_range(3, 1, 0), (1, 1));
    assert_eq!(visible_range(10, 4, usize::MAX), (4, 10));
}

#[test]
fn visible_slice_shows_the_window() {
    let rows = numbered(12);
    let shown = visible_slice(&rows, 3, 4);
    assert_eq!(shown, &rows[3..7]);
    assert_eq!(visible_slice(&rows, 10, 4), &rows[10..12]);
    assert!(visible_slice(&rows, 12, 4).is_empty());
    assert!(visible_slice(&rows, 99, 4).is_empty());
}

#[test]
fn column_widths_take_the_longest_cell() {
    let rows = table(&[&["name", "a rather long description"], &["a much longer name", "x", "y"]]);
    let widths = column_widths(&rows, MIN_COLUMN_WIDTH, MAX_COLUMN_WIDTH);
    assert_eq!(widths, vec![18, 25, 8]);
}

#[test]
fn column_widths_are_clamped() {
    let long = "x".repeat(45);
    let rows = table(&[&["ab", long.as_str()]]);
    assert_eq!(column_widths(&rows, 8, 30), vec![8, 30]);
    assert_eq!(column_widths(&rows, 0, 100), vec![2, 45]);
    assert_eq!(column_widths(&rows, 3, 3), vec![3, 3]);
}

#[test]
fn column_widths_count_characters_not_bytes() {
    let rows = table(&[&["交易时间交易时间交易"]]);
    assert_eq!(column_widths(&rows, 8, 30), vec![10]);
}

#[test]
fn column_widths_of_no_rows_are_none() {
    assert!(column_widths(&Vec::new(), 8, 30).is_empty());
    assert!(column_widths(&vec![Vec::new()], 8, 30).is_empty());
}
