use jeek::table::{edit_table, load_table, parse_table};

fn row(cells: &[&str]) -> Vec<String> {
    cells.iter().map(|c| c.to_string()).collect()
}

#[test]
fn parse_table_reads_pipe_rows() {
    let text = "# Tasks\n\n| Task | State |\n|------|-------|\n| write report | open |\nnot a row\n";
    let rows = parse_table(text, 1);
    assert_eq!(
        rows,
        vec![row(&["Task", "State"]), row(&["------", "-------"]), row(&["write report", "open"])]
    );
}

#[test]
fn parse_table_drops_short_rows() {
    let rows = parse_table("| a |\n| b | c |\n", 2);
    assert_eq!(rows, vec![row(&["b", "c"])]);
}

#[test]
fn parse_table_trims_lines_and_cells() {
    let rows = parse_table("   |  a  |\tb\t|   \r\n|c|d|", 1);
    assert_eq!(rows, vec![row(&["a", "b"]), row(&["c", "d"])]);
}

#[test]
fn parse_table_needs_a_pipe_at_both_ends() {
    assert!(parse_table("| a | b", 1).is_empty());
    assert!(parse_table("a | b |", 1).is_empty());
    assert!(parse_table("", 0).is_empty());
    assert!(parse_table("\n\n", 0).is_empty());
}

#[test]
fn parse_table_keeps_a_blank_cell_between_two_pipes() {
    assert_eq!(parse_table("| a |  | b |", 3), vec![row(&["a", "", "b"])]);
    assert_eq!(parse_table("| a |  | b |", 1), vec![row(&["a", "", "b"])]);
    assert!(parse_table("| a |  | b |", 4).is_empty());
    assert_eq!(parse_table("| a || b |", 3), vec![row(&["a", "", "b"])]);
    assert_eq!(parse_table("|  | x |\t|", 3), vec![row(&["", "x", ""])]);
}

#[test]
fn parse_table_keeps_the_columns_of_every_row() {
    let rows = parse_table("| name | note | state |\n| a |  | open |\n|  | late | |\n", 3);
    assert_eq!(
        rows,
        vec![row(&["name", "note", "state"]), row(&["a", "", "open"]), row(&["", "late", ""])]
    );
    assert!(rows.iter().all(|r| r.len() == 3));
}

#[test]
fn parse_table_drops_what_stands_outside_the_outer_pipes() {
    assert_eq!(parse_table("||", 0), vec![row(&[""])]);
    assert_eq!(parse_table("||", 1), vec![row(&[""])]);
    assert!(parse_table("||", 2).is_empty());
    assert_eq!(parse_table("|", 0), vec![row(&[])]);
    assert!(parse_table("|", 1).is_empty());
    assert_eq!(parse_table("|||", 2), vec![row(&["", ""])]);
}

#[test]
fn parse_table_knows_unicode_white_space() {
    let rows = parse_table("\u{3000}|\u{a0}任务\u{2003}| done |\u{3000}", 2);
    assert_eq!(rows, vec![row(&["任务", "done"])]);
}

#[test]
fn parse_table_reads_back_what_was_written() {
    let cells = vec![row(&["a", " b ", "c d"]), row(&["x", "  ", "z"]), row(&["", "", ""])];
    let margins = [("", ""), ("  ", "\t"), ("\u{3000}", " \r")];
    let mut text = String::new();
    for (r, (lead, trail)) in cells.iter().zip(margins) {
        text.push_str(lead);
        text.push('|');
        for c in r {
            text.push_str(c);
            text.push('|');
        }
        text.push_str(trail);
        text.push('\n');
    }
    assert_eq!(text, "|a| b |c d|\n  |x|  |z|\t\n\u{3000}||||\u{20}\r\n");
    let rows = parse_table(&text, 3);
    assert_eq!(rows, vec![row(&["a", "b", "c d"]), row(&["x", "", "z"]), row(&["", "", ""])]);
    assert!(rows.iter().all(|r| r.len() >= 3));
}

#[test]
fn load_table_replaces_rows_and_resets_scroll() {
    let mut rows = vec![row(&["old"])];
    let mut scroll = 7;
    load_table(&mut rows, &mut scroll, Some("| new | row |\nplain\n|  |\n|\n"));
    assert_eq!(rows, vec![row(&["new", "row"]), row(&[""])]);
    assert_eq!(scroll, 0);
}

#[test]
fn load_table_clears_rows_when_nothing_was_read() {
    let mut rows = vec![row(&["old"])];
    let mut scroll = 3;
    load_table(&mut rows, &mut scroll, None);
    assert!(rows.is_empty());
    assert_eq!(scroll, 0);
}

#[test]
fn edit_table_reloads_after_a_good_edit() {
    let mut rows = vec![row(&["old"])];
    let mut scroll = 4;
    let mut redraw = false;
    edit_table(&mut rows, &mut scroll, true, Some("| a |"), &mut redraw);
    assert_eq!(rows, vec![row(&["a"])]);
    assert_eq!(scroll, 0);
    assert!(redraw);
}

#[test]
fn edit_table_clears_rows_after_a_failed_edit() {
    let mut rows = vec![row(&["old"])];
    let mut scroll = 4;
    let mut redraw = false;
    edit_table(&mut rows, &mut scroll, false, Some("| a |"), &mut redraw);
    assert!(rows.is_empty());
    assert_eq!(scroll, 0);
    assert!(redraw);
    let mut rows = vec![row(&["old"])];
    edit_table(&mut rows, &mut scroll, true, None, &mut redraw);
    assert!(rows.is_empty());
}
