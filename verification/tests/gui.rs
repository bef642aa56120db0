use fed::gui::container::{focus_key, offset_index, offset_selected_index, propagation_index, FocusKey};
use fed::gui::editor::{
    apply_editor_action, apply_to_file, can_apply_action, can_handle_key, handle_key, receive_input, Key,
    Modifiers,
};
use fed::gui::files::{find_path_at_index, skipped_entry, tree_key, File, TreeAction, TreeKey};
use fed::gui::widget::Outcome;
use fed::model::text_model::{Loc, Selection, TextModel};
use fed::utf8_text::text_lines;
use fed::{EditorAction, EditorState, Location, LocDelta, Mode, OpenFile};
use std::path::PathBuf;

fn file_with(lines: &[&str]) -> OpenFile {
    let model = TextModel::new().load_from_lines(lines.iter().map(|s| s.to_string()).collect());
    OpenFile::new(PathBuf::from("f.txt"), model)
}

fn lines_of(m: &TextModel) -> Vec<String> {
    m.lines.iter().cloned().collect()
}

#[test]
fn tree_rows_in_order() {
    let tree = File::directory(
        ".".into(),
        PathBuf::from("."),
        vec![
            File::directory("a".into(), PathBuf::from("./a"), vec![File::file("b".into(), PathBuf::from("./a/b"))]),
            File::undetermined("c".into(), PathBuf::from("./c")),
        ],
    );
    assert_eq!(find_path_at_index(&tree, 0), Some(PathBuf::from(".")));
    assert_eq!(find_path_at_index(&tree, 1), Some(PathBuf::from("./a")));
    assert_eq!(find_path_at_index(&tree, 2), Some(PathBuf::from("./a/b")));
    assert_eq!(find_path_at_index(&tree, 3), Some(PathBuf::from("./c")));
    assert_eq!(find_path_at_index(&tree, 4), None);
}

#[test]
fn tree_keys_move_open_and_reload() {
    let tree = Some(File::directory(
        ".".into(),
        PathBuf::from("."),
        vec![File::file("a".into(), PathBuf::from("./a"))],
    ));
    let mut selected = 0usize;
    let r = tree_key(&tree, &mut selected, TreeKey::Up);
    assert_eq!(selected, 0);
    assert_eq!(r.outcome, Outcome::Handled);
    assert!(matches!(r.action, TreeAction::Nothing));
    tree_key(&tree, &mut selected, TreeKey::Down);
    assert_eq!(selected, 1);
    let r = tree_key(&tree, &mut selected, TreeKey::Return);
    assert!(matches!(r.action, TreeAction::Open(p) if p == PathBuf::from("./a")));
    tree_key(&tree, &mut selected, TreeKey::Down);
    assert_eq!(selected, 2);
    let r = tree_key(&tree, &mut selected, TreeKey::Return);
    assert!(matches!(r.action, TreeAction::NothingSelected));
    tree_key(&tree, &mut selected, TreeKey::Up);
    assert_eq!(selected, 1);
    let r = tree_key(&None, &mut selected, TreeKey::Return);
    assert!(matches!(r.action, TreeAction::NothingSelected));
    let r = tree_key(&tree, &mut selected, TreeKey::F5);
    assert_eq!(r.outcome, Outcome::Handled);
    assert!(matches!(r.action, TreeAction::Reload));
    let r = tree_key(&tree, &mut selected, TreeKey::Other);
    assert_eq!(r.outcome, Outcome::Ignored);
    assert_eq!(selected, 1);
}

#[test]
fn skipped_entries() {
    assert!(skipped_entry(".git"));
    assert!(skipped_entry("target"));
    assert!(!skipped_entry("src"));
    assert!(!skipped_entry("targets"));
}

#[test]
fn container_focus() {
    assert_eq!(offset_index(0, 2, 1), 1);
    assert_eq!(offset_index(1, 2, 1), 1);
    assert_eq!(offset_index(1, 2, -5), 0);
    assert_eq!(offset_index(0, 0, 1), usize::MAX);
    // usize::MAX read as isize is -1.
    assert_eq!(offset_index(usize::MAX, 2, 1), 0);
    assert_eq!(offset_selected_index(usize::MAX, 2, 1), Some(0));
    assert_eq!(offset_selected_index(0, 2, 1), Some(1));
    assert_eq!(offset_selected_index(1, 2, 1), None);
    assert_eq!(propagation_index(3, 2), 0);
    assert_eq!(propagation_index(2, 2), 2);
}

#[test]
fn law_focus_stays_among_children() {
    for selected in [0usize, 1, 2, 7, usize::MAX] {
        for offset in [-3isize, -1, 0, 1, 3] {
            assert!(offset_index(selected, 3, offset) < 3);
        }
    }
}

#[test]
fn history_is_bounded() {
    let mut f = file_with(&["a"]);
    let t0 = std::time::Instant::now();
    for i in 0..105 {
        let m = f.model.insert("x");
        f.record_edit_at(m, false, t0);
        assert!(f.undo_stack.len() <= 100, "at {}", i);
    }
    assert_eq!(f.undo_stack.len(), 100);
    assert_eq!(lines_of(&f.undo_stack[0]), lines_of(&f.model));
    let m = f.model.insert("y");
    f.record_edit_at(m, true, t0);
    assert_eq!(f.undo_stack.len(), 100);
    assert!(f.redo_stack.is_empty());
}

#[test]
fn first_edit_starts_the_history_with_the_new_model() {
    let mut f = file_with(&["a"]);
    assert!(f.last_edit_time.is_none());
    let m = f.model.insert("x");
    f.record_edit(m);
    assert_eq!(f.undo_stack.len(), 1);
    assert_eq!(lines_of(&f.undo_stack[0]), lines_of(&f.model));
    assert!(f.last_edit_time.is_some());
    let mut s = EditorState::new(PathBuf::from("."));
    s.set_open_file(Some(file_with(&["ab"])));
    handle_key(&mut s, Key::Right, Modifiers::NoModifiers);
    let g = s.open_file().as_ref().unwrap();
    assert_eq!(g.undo_stack.len(), 1);
    assert_eq!(g.undo_stack[0].cursor, g.model.cursor);
    assert_eq!(g.model.cursor, Loc::new(0, 1));
}

#[test]
fn an_edit_within_a_second_replaces_the_newest_entry() {
    let mut f = file_with(&["a"]);
    let t0 = std::time::Instant::now();
    let m = f.model.insert("x");
    f.record_edit_after(m, None, t0);
    assert_eq!(f.undo_stack.len(), 1);
    let m = f.model.insert("y");
    f.record_edit_after(m, Some(1), t0);
    assert_eq!(f.undo_stack.len(), 2);
    let m = f.model.insert("z");
    f.record_edit_after(m, Some(0), t0);
    assert_eq!(f.undo_stack.len(), 2);
    assert_eq!(lines_of(&f.undo_stack[0]), vec!["xyza"]);
    assert_eq!(lines_of(&f.undo_stack[1]), vec!["xa"]);
}

#[test]
fn law_saved_text_reads_back() {
    let f = file_with(&["a", "", "bc"]);
    assert_eq!(text_lines(&f.save_text()), vec!["a", "", "bc"]);
    // A line ending in a carriage return does not read back.
    let g = file_with(&["a\r"]);
    assert_eq!(text_lines(&g.save_text()), vec!["a"]);
}

#[test]
fn focus_keys() {
    assert_eq!(focus_key(0, 2, true, FocusKey::Right), Some(1));
    assert_eq!(focus_key(1, 2, true, FocusKey::Right), None);
    assert_eq!(focus_key(1, 2, true, FocusKey::Left), Some(0));
    assert_eq!(focus_key(0, 2, false, FocusKey::Right), None);
    assert_eq!(focus_key(0, 2, true, FocusKey::Other), None);
}

#[test]
fn save_text_ends_each_line() {
    assert_eq!(file_with(&["a", "b"]).save_text(), "a\nb\n");
    assert_eq!(file_with(&[]).save_text(), "");
}

#[test]
fn insert_action_edits_and_records() {
    let mut f = file_with(&["hello"]);
    f.model.cursor = Loc::new(0, 5);
    let w = apply_to_file(&mut f, &EditorAction::InsertString("!".into()), "");
    assert!(w.is_empty());
    assert_eq!(lines_of(&f.model), vec!["hello!"]);
    assert_eq!(f.undo_stack.len(), 1);
    assert!(f.last_edit_time.is_some());
}

#[test]
fn copy_puts_selection_on_clipboard_twice() {
    let mut f = file_with(&["hello"]);
    f.selection = Selection::new(Loc::new(0, 1), Loc::new(0, 3));
    let w = apply_to_file(&mut f, &EditorAction::Copy, "");
    assert_eq!(w, vec!["el\n", "el\n"]);
    assert_eq!(lines_of(&f.model), vec!["hello"]);
}

#[test]
fn cut_as_the_editor_runs_it() {
    // The edit runs twice: the first pass copies the selection and clears
    // it; the second cuts the now empty selection.
    let mut f = file_with(&["hello"]);
    f.model.cursor = Loc::new(0, 4);
    f.selection = Selection::new(Loc::new(0, 1), Loc::new(0, 3));
    let w = apply_to_file(&mut f, &EditorAction::Cut, "");
    assert_eq!(w, vec!["el\n", "\n"]);
    assert_eq!(lines_of(&f.model), vec!["hello"]);
    assert_eq!(f.model.cursor, Loc::new(0, 0));
    assert!(f.selection.is_empty());
}

#[test]
fn paste_inserts_clipboard_text() {
    let mut f = file_with(&["ab"]);
    f.model.cursor = Loc::new(0, 1);
    apply_to_file(&mut f, &EditorAction::Paste, "XY");
    assert_eq!(lines_of(&f.model), vec!["aXYb"]);
    assert_eq!(f.model.cursor, Loc::new(0, 3));
}

#[test]
fn selection_actions() {
    let mut f = file_with(&["hello"]);
    f.model.cursor = Loc::new(0, 2);
    apply_to_file(&mut f, &EditorAction::BeginSelection, "");
    assert_eq!(f.selection.start, Loc::new(0, 2));
    assert!(f.selection.is_empty());
    apply_to_file(&mut f, &EditorAction::EndSelection, "");
    assert_eq!(f.selection.start, Loc::zero());
}

#[test]
fn goto_actions() {
    let mut f = file_with(&["hello", "hi"]);
    f.model.cursor = Loc::new(0, 2);
    apply_to_file(&mut f, &EditorAction::GoTo(Location::EndOfLine), "");
    assert_eq!(f.model.cursor, Loc::new(0, 5));
    apply_to_file(&mut f, &EditorAction::GoTo(Location::LastLine), "");
    assert_eq!(f.model.cursor, Loc::new(1, 2));
    // The column remembered by the vertical move is that of the last row's end.
    apply_to_file(&mut f, &EditorAction::GoTo(Location::Offset(LocDelta::new(-1, 0))), "");
    assert_eq!(f.model.cursor, Loc::new(0, 2));
}

#[test]
fn typing_with_no_file_is_ignored() {
    let mut s = EditorState::new(PathBuf::from("."));
    assert!(receive_input(&mut s, 'i').is_none());
    assert_eq!(s.input().mode, Mode::Insert);
    assert!(apply_editor_action(&mut s, &EditorAction::Paste, "x").is_empty());
    assert!(s.open_file().is_none());
}

#[test]
fn typing_into_open_file() {
    let mut s = EditorState::new(PathBuf::from("."));
    s.set_open_file(Some(file_with(&["ab"])));
    let acts = receive_input(&mut s, 'a').unwrap();
    for a in acts.as_slice() {
        apply_editor_action(&mut s, a, "");
    }
    let acts = receive_input(&mut s, 'z').unwrap();
    for a in acts.as_slice() {
        apply_editor_action(&mut s, a, "");
    }
    let f = s.open_file().as_ref().unwrap();
    assert_eq!(lines_of(&f.model), vec!["azb"]);
    assert_eq!(s.input().mode, Mode::Insert);
}

#[test]
fn keys_move_and_save() {
    let mut s = EditorState::new(PathBuf::from("."));
    s.set_open_file(Some(file_with(&["hello", "x"])));
    let r = handle_key(&mut s, Key::Down, Modifiers::NoModifiers);
    assert_eq!(r.outcome, Outcome::Handled);
    assert!(!r.save);
    assert_eq!(s.open_file().as_ref().unwrap().model.cursor, Loc::new(1, 0));
    let r = handle_key(&mut s, Key::Tab, Modifiers::NoModifiers);
    assert_eq!(r.outcome, Outcome::Handled);
    assert_eq!(lines_of(&s.open_file().as_ref().unwrap().model), vec!["hello", "    x"]);
    let r = handle_key(&mut s, Key::S, Modifiers::NoModifiers);
    assert_eq!(r.outcome, Outcome::Ignored);
    let r = handle_key(&mut s, Key::S, Modifiers::Ctrl);
    assert_eq!(r.outcome, Outcome::Handled);
    assert!(r.save);
    let r = handle_key(&mut s, Key::Up, Modifiers::Other);
    assert_eq!(r.outcome, Outcome::Ignored);
}

#[test]
fn edits_and_keys_are_checked_first() {
    let mut s = EditorState::new(PathBuf::from("."));
    assert!(can_apply_action(&s, &EditorAction::DeleteLeft, ""));
    assert!(can_handle_key(&s, Key::Tab, Modifiers::NoModifiers));
    let mut f = file_with(&["é"]);
    f.model.cursor = Loc::new(0, 1);
    s.set_open_file(Some(f));
    assert!(!can_apply_action(&s, &EditorAction::InsertNewline, ""));
    assert!(!can_apply_action(&s, &EditorAction::Paste, "x"));
    assert!(can_apply_action(&s, &EditorAction::BeginSelection, ""));
    assert!(can_apply_action(&s, &EditorAction::GoTo(Location::EndOfLine), ""));
    assert!(!can_handle_key(&s, Key::Tab, Modifiers::NoModifiers));
    assert!(can_handle_key(&s, Key::Tab, Modifiers::Ctrl));
    assert!(can_handle_key(&s, Key::Left, Modifiers::NoModifiers));
    let mut g = file_with(&["ab"]);
    g.model.cursor = Loc::new(0, 2);
    g.selection = Selection::new(Loc::new(0, 0), Loc::new(0, 1));
    s.set_open_file(Some(g));
    assert!(can_apply_action(&s, &EditorAction::Cut, ""));
    assert!(can_apply_action(&s, &EditorAction::Copy, ""));
    assert!(can_apply_action(&s, &EditorAction::InsertString("q".to_string()), ""));
}

#[test]
fn visual_selection_follows_cursor() {
    let mut s = EditorState::new(PathBuf::from("."));
    s.set_open_file(Some(file_with(&["hello"])));
    let acts = receive_input(&mut s, 'v').unwrap();
    for a in acts.as_slice() {
        apply_editor_action(&mut s, a, "");
    }
    handle_key(&mut s, Key::Right, Modifiers::NoModifiers);
    handle_key(&mut s, Key::Right, Modifiers::NoModifiers);
    let f = s.open_file().as_ref().unwrap();
    assert_eq!(f.selection.start, Loc::new(0, 0));
    assert_eq!(f.selection.end, Loc::new(0, 2));
    assert_eq!(f.model.get_string(f.selection), "he\n");
}
