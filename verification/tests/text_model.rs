use fed::model::text_model::{Loc, LocDelta, Selection, TextModel};

fn model(lines: &[&str]) -> TextModel {
    TextModel::new().load_from_lines(lines.iter().map(|s| s.to_string()).collect())
}

fn lines_of(m: &TextModel) -> Vec<String> {
    m.lines.iter().cloned().collect()
}

fn at(m: TextModel, row: usize, column: usize) -> TextModel {
    TextModel { cursor: Loc::new(row, column), ..m }
}

#[test]
fn loc_new_and_zero() {
    assert_eq!(Loc::new(3, 4), Loc { row: 3, column: 4 });
    assert_eq!(Loc::zero(), Loc { row: 0, column: 0 });
    assert_eq!(Loc::from((2, 7)), Loc::new(2, 7));
}

#[test]
fn loc_offset_stops_at_zero() {
    assert_eq!(Loc::new(2, 3).offset(LocDelta::new(1, -1)), Loc::new(3, 2));
    assert_eq!(Loc::new(2, 3).offset(LocDelta::new(-5, -9)), Loc::new(0, 0));
    assert_eq!(Loc::new(2, 3).offset((0, 0).into()), Loc::new(2, 3));
}

#[test]
fn loc_offset_reads_huge_coordinates_as_isize() {
    // usize::MAX read as isize is -1: one row down lands on row 0.
    assert_eq!(Loc::new(usize::MAX, 4).offset(LocDelta::new(1, 0)), Loc::new(0, 4));
    assert_eq!(Loc::new(usize::MAX, 4).offset(LocDelta::new(0, 0)), Loc::new(0, 4));
}

#[test]
fn loc_add_wrapped_doc_examples() {
    assert_eq!(Loc::new(10, 5).add_wrapped(Loc::new(0, 5)), Loc::new(10, 10));
    assert_eq!(Loc::new(10, 5).add_wrapped(Loc::new(10, 7)), Loc::new(20, 7));
}

#[test]
fn loc_with_row_and_column() {
    assert_eq!(Loc::new(1, 2).with_row(9), Loc::new(9, 2));
    assert_eq!(Loc::new(1, 2).with_column(9), Loc::new(1, 9));
}

#[test]
fn selection_orders_its_ends() {
    let s = Selection::new(Loc::new(3, 1), Loc::new(1, 5));
    assert_eq!(s.first, Loc::new(1, 5));
    assert_eq!(s.last, Loc::new(3, 1));
    assert_eq!(s.start, Loc::new(3, 1));
    assert_eq!(s.end, Loc::new(1, 5));
    let t = s.with_end(Loc::new(4, 0));
    assert_eq!(t.first, Loc::new(3, 1));
    assert_eq!(t.last, Loc::new(4, 0));
    assert!(!t.is_empty());
    assert!(Selection::empty().is_empty());
    assert_eq!(Selection::empty().first, Loc::zero());
}

#[test]
fn constrain_moves_into_text() {
    let m = model(&["hello", "hi"]);
    assert_eq!(Loc::new(0, 9).constrain(&m.lines), Loc::new(0, 5));
    assert_eq!(Loc::new(7, 1).constrain(&m.lines), Loc::new(1, 2));
    assert_eq!(Loc::new(1, 1).constrain(&m.lines), Loc::new(1, 1));
    assert_eq!(Loc::new(7, 1).constrain_only_row(&m.lines), Loc::new(1, 2));
    assert_eq!(Loc::new(0, 9).constrain_only_row(&m.lines), Loc::new(0, 9));
    let empty = TextModel::new();
    assert_eq!(Loc::new(3, 3).constrain(&empty.lines), Loc::new(0, 0));
}

#[test]
fn insert_within_a_line() {
    let m = at(model(&["hello"]), 0, 1);
    let r = m.insert("abc");
    assert_eq!(lines_of(&r), vec!["habcello"]);
    assert_eq!(r.cursor, Loc::new(0, 4));
    assert_eq!(r.original_cursor, None);
}

#[test]
fn insert_several_lines() {
    let m = at(model(&["hello", "world"]), 0, 2);
    let r = m.insert("X\nYY\r\nZ");
    assert_eq!(lines_of(&r), vec!["heX", "YY", "Zllo", "world"]);
    assert_eq!(r.cursor, Loc::new(2, 1));
}

#[test]
fn insert_trailing_newline_is_dropped() {
    let m = at(model(&["ab"]), 0, 1);
    let r = m.insert("x\n");
    assert_eq!(lines_of(&r), vec!["axb"]);
    assert_eq!(r.cursor, Loc::new(0, 2));
}

#[test]
fn insert_into_empty_text() {
    let r = TextModel::new().insert("hi");
    assert_eq!(lines_of(&r), vec!["hi"]);
    assert_eq!(r.cursor, Loc::new(0, 2));
    let e = TextModel::new().insert("");
    assert_eq!(lines_of(&e), vec![""]);
    assert_eq!(e.cursor, Loc::new(0, 0));
}

#[test]
fn insert_counts_bytes() {
    let m = at(model(&["ab"]), 0, 1);
    let r = m.insert("é");
    assert_eq!(lines_of(&r), vec!["aéb"]);
    assert_eq!(r.cursor, Loc::new(0, 3));
}

#[test]
fn backspace_removes_char() {
    let r = at(model(&["hello"]), 0, 3).backspace_key();
    assert_eq!(lines_of(&r), vec!["helo"]);
    assert_eq!(r.cursor, Loc::new(0, 2));
}

#[test]
fn backspace_far_past_the_text_reads_the_row_as_isize() {
    // A row past isize::MAX, read as isize, is negative: it moves to row 0.
    let m = at(model(&["a"]), usize::MAX, 3);
    assert!(m.backspace_fits());
    let r = m.backspace_key();
    assert_eq!(lines_of(&r), vec!["a"]);
    assert_eq!(r.cursor, Loc::new(0, 2));
}

#[test]
fn backspace_joins_rows() {
    let r = at(model(&["ab", "cd", "ef"]), 1, 0).backspace_key();
    assert_eq!(lines_of(&r), vec!["abcd", "ef"]);
    assert_eq!(r.cursor, Loc::new(0, 2));
}

#[test]
fn backspace_at_start_changes_nothing() {
    let m = TextModel { original_cursor: Some(Loc::new(0, 4)), ..model(&["ab"]) };
    let r = m.backspace_key();
    assert_eq!(lines_of(&r), vec!["ab"]);
    assert_eq!(r.cursor, Loc::zero());
    assert_eq!(r.original_cursor, Some(Loc::new(0, 4)));
}

#[test]
fn insert_newline_splits_row() {
    let r = at(model(&["hello", "x"]), 0, 2).insert_newline();
    assert_eq!(lines_of(&r), vec!["he", "llo", "x"]);
    assert_eq!(r.cursor, Loc::new(1, 0));
}

#[test]
fn delete_across_rows() {
    let m = model(&["hello", "big", "world"]);
    let r = m.delete(Selection::new(Loc::new(0, 2), Loc::new(2, 3)));
    assert_eq!(lines_of(&r), vec!["held"]);
    assert_eq!(r.cursor, Loc::new(0, 2));
}

#[test]
fn delete_within_row() {
    let m = model(&["hello", "x"]);
    let r = m.delete(Selection::new(Loc::new(0, 4), Loc::new(0, 1)));
    assert_eq!(lines_of(&r), vec!["ho", "x"]);
    assert_eq!(r.cursor, Loc::new(0, 1));
}

#[test]
fn get_string_ends_rows_with_newline() {
    let m = model(&["hello", "big", "world"]);
    assert_eq!(m.get_string(Selection::new(Loc::new(0, 2), Loc::new(2, 3))), "llo\nbig\nwor\n");
    assert_eq!(m.get_string(Selection::new(Loc::new(1, 1), Loc::new(1, 2))), "i\n");
    assert_eq!(m.get_string(Selection::new(Loc::new(2, 1), Loc::new(9, 2))), "orld\n");
}

#[test]
fn to_string_joins_lines() {
    assert_eq!(model(&["a", "bc", ""]).to_string(), "a\nbc\n");
    assert_eq!(TextModel::new().to_string(), "");
}

#[test]
fn move_cursor_remembers_column_vertically() {
    let m = at(model(&["hello", "hi", "world"]), 0, 4);
    let down = m.move_cursor(LocDelta::new(1, 0));
    assert_eq!(down.cursor, Loc::new(1, 2));
    assert_eq!(down.original_cursor, Some(Loc::new(1, 4)));
    let again = down.move_cursor(LocDelta::new(1, 0));
    assert_eq!(again.cursor, Loc::new(2, 4));
    let right = again.move_cursor(LocDelta::new(0, 1));
    assert_eq!(right.cursor, Loc::new(2, 5));
    assert_eq!(right.original_cursor, None);
}

#[test]
fn move_cursor_far_reaches_row_ends() {
    let m = at(model(&["hello", "hi"]), 0, 2);
    assert_eq!(m.move_cursor(LocDelta::new(0, 1000000000)).cursor, Loc::new(0, 5));
    assert_eq!(m.move_cursor(LocDelta::new(0, -1000000000)).cursor, Loc::new(0, 0));
    assert_eq!(m.move_cursor(LocDelta::new(1000000000, 0)).cursor, Loc::new(1, 2));
}

#[test]
fn law_newline_then_backspace_restores() {
    let m = at(model(&["hello", "x"]), 0, 2);
    let r = m.insert_newline().backspace_key();
    assert_eq!(lines_of(&r), lines_of(&m));
    assert_eq!(r.cursor, m.cursor);
}

#[test]
fn law_char_then_backspace_restores() {
    let m = at(model(&["hello", "x"]), 1, 1);
    let r = m.insert("q").backspace_key();
    assert_eq!(lines_of(&r), lines_of(&m));
    assert_eq!(r.cursor, m.cursor);
}

#[test]
fn law_empty_selection_deletes_nothing() {
    let m = model(&["hello", "x"]);
    let r = m.delete(Selection::new(Loc::new(0, 3), Loc::new(0, 3)));
    assert_eq!(lines_of(&r), lines_of(&m));
}

#[test]
fn law_cut_within_row_matches_copy() {
    let m = model(&["hello"]);
    let sel = Selection::new(Loc::new(0, 1), Loc::new(0, 4));
    let copied = m.get_string(sel);
    let rest = m.delete(sel);
    assert_eq!(copied, "ell\n");
    let row = &lines_of(&rest)[0];
    assert_eq!(format!("{}{}{}", &row[..1], &copied[..copied.len() - 1], &row[1..]), "hello");
}

#[test]
fn law_insert_then_delete_restores() {
    let m = at(model(&["hello", "x"]), 0, 2);
    let typed = m.insert("ab\ncd\nef");
    assert_eq!(lines_of(&typed), vec!["heab", "cd", "efllo", "x"]);
    let r = typed.delete(Selection::new(m.cursor, typed.cursor));
    assert_eq!(lines_of(&r), lines_of(&m));
}

#[test]
fn edit_checks_accept_ascii_positions() {
    let m = at(model(&["hello", "x"]), 1, 1);
    assert!(m.insert_fits("ab\ncd"));
    assert!(m.newline_fits());
    assert!(m.backspace_fits());
    let sel = Selection::new(Loc::new(0, 1), Loc::new(1, 1));
    assert!(m.delete_fits(sel));
    assert!(m.get_string_fits(sel));
    assert!(m.move_fits(LocDelta::new(-1, 0)));
}

#[test]
fn edit_checks_refuse_mid_char_positions() {
    // "é" takes two bytes: offset 1 falls inside it.
    let m = at(model(&["é", "x"]), 0, 1);
    assert!(!m.insert_fits("a"));
    assert!(!m.newline_fits());
    let m2 = at(model(&["é", "x"]), 0, 2);
    assert!(!m2.backspace_fits());
    let sel = Selection::new(Loc::new(0, 1), Loc::new(1, 0));
    assert!(!m.delete_fits(sel));
    assert!(!m.get_string_fits(sel));
    assert!(m.get_string_fits(Selection::new(Loc::new(0, 2), Loc::new(1, 1))));
}

#[test]
fn edit_checks_refuse_overflow() {
    let m = at(model(&["a"]), 5, 0);
    assert!(!m.insert_fits("a"));
    // Past the last row the column is not checked against a row, only for
    // overflow.
    let m = at(model(&["a"]), 1, usize::MAX);
    assert!(!m.insert_fits("a"));
    assert!(m.insert_fits(""));
    assert!(m.insert_fits("a\nb"));
    let m = at(model(&["a"]), 0, 0);
    assert!(m.move_fits(LocDelta::new(isize::MIN, 0)));
    let m = at(model(&["a"]), isize::MAX as usize, 0);
    assert!(!m.move_fits(LocDelta::new(1, 0)));
    assert!(m.move_fits(LocDelta::new(-1, 0)));
    assert!(!m.delete_fits(Selection::new(Loc::new(0, 0), Loc::new(usize::MAX, 0))));
}

#[test]
fn law_cut_then_paste_restores() {
    let m = model(&["hello", "big", "world"]);
    let sel = Selection::new(Loc::new(2, 3), Loc::new(0, 2));
    let copied = m.get_string(sel);
    assert_eq!(copied, "llo\nbig\nwor\n");
    let rest = m.delete(sel);
    assert_eq!(lines_of(&rest), vec!["held"]);
    let pasted = rest.insert(&copied);
    assert_eq!(lines_of(&pasted), lines_of(&m));
    assert_eq!(pasted.cursor, sel.last);

    let m = model(&["héllo"]);
    let sel = Selection::new(Loc::new(0, 1), Loc::new(0, 3));
    let copied = m.get_string(sel);
    assert_eq!(copied, "é\n");
    let pasted = m.delete(sel).insert(&copied);
    assert_eq!(lines_of(&pasted), vec!["héllo"]);
    assert_eq!(pasted.cursor, Loc::new(0, 3));
}

#[test]
fn map_changes_a_copy() {
    let m = model(&["hello"]);
    let r = m.map(|d| {
        d.cursor = Loc::new(0, 3);
        *d = d.insert("X");
    });
    assert_eq!(lines_of(&r), vec!["helXlo"]);
    assert_eq!(r.cursor, Loc::new(0, 4));
    assert_eq!(lines_of(&m), vec!["hello"]);
    assert_eq!(m.cursor, Loc::zero());
}

#[test]
fn load_from_lines_keeps_cursor() {
    let m = at(TextModel::new(), 1, 1);
    let r = m.load_from_lines(vec!["a".to_string(), "b".to_string()]);
    assert_eq!(lines_of(&r), vec!["a", "b"]);
    assert_eq!(r.cursor, Loc::new(1, 1));
}

#[test]
fn clone_keeps_everything() {
    let m = at(model(&["a", "b"]), 1, 0);
    let c = m.clone();
    assert_eq!(lines_of(&c), lines_of(&m));
    assert_eq!(c.cursor, m.cursor);
}
