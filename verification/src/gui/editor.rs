//! What the editor widget does with an event: the edits an action makes
//! to the open file, the history it records, the selection it keeps.
//!
//! The clipboard lives outside the library: `Paste` is handed the text
//! read from it, and `Copy` and `Cut` return the text to put on it.
use vstd::prelude::*;
use crate::input::vim_input::{EditorAction, EditorActions, Location, Mode, mode_after, typed_actions};
use crate::ext::small_vec::editor_action_items;
use crate::model::editor_state::EditorState;
use crate::model::open_file::{kept_history, same_model, OpenFile};
use crate::model::text_model::{
    can_backspace, can_delete, can_get_string, can_insert, constrained, constrained_only_row,
    cursor_after_backspace, cursor_after_insert, lines_after_backspace, lines_after_delete,
    lines_after_insert, lines_after_newline, loc_max, loc_min, selected_text, shift_fits,
    shifted, Loc, LocDelta, Selection, TextModel,
};
use crate::utf8_text::at_boundary;
use crate::gui::widget::Outcome;

verus! {

/// The parts of an open file that an edit changes.
pub struct FileView {
    pub text: Seq<Seq<char>>,
    pub cursor: Loc,
    pub original_cursor: Option<Loc>,
    pub selection: Selection,
}

/// What `file` holds of a `FileView`.
pub open spec fn view_of(file: &OpenFile) -> FileView {
    FileView {
        text: file.model.text(),
        cursor: file.model.cursor,
        original_cursor: file.model.original_cursor,
        selection: file.selection,
    }
}

/// The movement a `GoTo` makes: far enough to reach the start or end of
/// the row or of the text, where the cursor is stopped.
pub open spec fn goto_delta(loc: Location) -> LocDelta {
    match loc {
        Location::EndOfLine => LocDelta { row: 0, column: 1000000000 },
        Location::StartOfLine => LocDelta { row: 0, column: -1000000000isize },
        Location::FirstLine => LocDelta { row: -1000000000isize, column: 0 },
        Location::LastLine => LocDelta { row: 1000000000, column: 0 },
        Location::Offset(d) => d,
    }
}

/// Where a movement by `d` starts: the remembered location for a
/// vertical one, else the cursor.
pub open spec fn start_of_move(v: FileView, d: LocDelta) -> Loc {
    if d.column == 0 {
        match v.original_cursor {
            Some(c) => c,
            None => v.cursor,
        }
    } else {
        v.cursor
    }
}

/// The cursor moved by `d`, before it is kept inside the text.
pub open spec fn target_of_move(v: FileView, d: LocDelta) -> Loc {
    let b = start_of_move(v, d);
    Loc { row: shifted(b.row, d.row) as usize, column: shifted(b.column, d.column) as usize }
}

/// `v` after moving the cursor by `d`.
pub open spec fn moved_view(v: FileView, d: LocDelta) -> FileView {
    FileView {
        text: v.text,
        cursor: constrained(target_of_move(v, d), v.text),
        original_cursor: if d.column == 0 {
            Some(constrained_only_row(target_of_move(v, d), v.text))
        } else {
            None
        },
        selection: v.selection,
    }
}

/// `v` after inserting `data` at the cursor.
pub open spec fn inserted_view(v: FileView, data: Seq<char>) -> FileView {
    FileView {
        text: lines_after_insert(v.text, v.cursor, data),
        cursor: cursor_after_insert(v.cursor, data),
        original_cursor: None,
        selection: v.selection,
    }
}

/// The empty selection at the start of the text.
pub open spec fn no_selection() -> Selection {
    Selection::empty_spec()
}

/// `v` after one edit by `action`, `clip` being the clipboard's text: the
/// new model and the selection left behind.
pub open spec fn step(v: FileView, action: EditorAction, clip: Seq<char>) -> FileView {
    match action {
        EditorAction::InsertString(s) => inserted_view(v, s@),
        EditorAction::Paste => inserted_view(v, clip),
        EditorAction::InsertNewline => FileView {
            text: lines_after_newline(v.text, v.cursor),
            cursor: Loc { row: (v.cursor.row + 1) as usize, column: 0 },
            original_cursor: None,
            selection: v.selection,
        },
        EditorAction::DeleteLeft => FileView {
            text: lines_after_backspace(v.text, v.cursor),
            cursor: cursor_after_backspace(v.text, v.cursor),
            original_cursor: if v.cursor == Loc::zero_spec() { v.original_cursor } else { None },
            selection: v.selection,
        },
        EditorAction::Copy => v,
        EditorAction::Cut => FileView {
            text: lines_after_delete(v.text, v.selection),
            cursor: v.selection.first,
            original_cursor: None,
            selection: no_selection(),
        },
        EditorAction::BeginSelection => FileView {
            selection: Selection {
                first: loc_min(v.cursor, v.cursor),
                last: loc_max(v.cursor, v.cursor),
                start: v.cursor,
                end: v.cursor,
            },
            ..v
        },
        EditorAction::EndSelection => FileView { selection: no_selection(), ..v },
        EditorAction::GoTo(loc) => moved_view(v, goto_delta(loc)),
    }
}

/// The text an edit by `action` puts on the clipboard, if any.
pub open spec fn clipboard_write(v: FileView, action: EditorAction) -> Option<Seq<char>> {
    match action {
        EditorAction::Copy => Some(selected_text(v.text, v.selection)),
        EditorAction::Cut => Some(selected_text(v.text, v.selection)),
        _ => None,
    }
}

/// An edit by `action` does not panic on `v`.
pub open spec fn can_step(v: FileView, action: EditorAction, clip: Seq<char>) -> bool {
    match action {
        EditorAction::InsertString(s) => can_insert(v.text, v.cursor, s@),
        EditorAction::Paste => can_insert(v.text, v.cursor, clip),
        EditorAction::InsertNewline => {
            &&& v.cursor.row < v.text.len()
            &&& at_boundary(v.text[v.cursor.row as int], v.cursor.column as int)
        },
        EditorAction::DeleteLeft => can_backspace(v.text, v.cursor),
        EditorAction::Copy => can_get_string(v.text, v.selection),
        EditorAction::Cut => can_get_string(v.text, v.selection) && can_delete(v.text, v.selection),
        EditorAction::BeginSelection => true,
        EditorAction::EndSelection => true,
        EditorAction::GoTo(loc) => {
            &&& shift_fits(start_of_move(v, goto_delta(loc)).row, goto_delta(loc).row)
            &&& shift_fits(start_of_move(v, goto_delta(loc)).column, goto_delta(loc).column)
        },
    }
}

/// The state after the first of the two edits `apply_editor_action`
/// makes, whose model is dropped: only the selection it leaves stays.
pub open spec fn after_first_pass(v: FileView, action: EditorAction, clip: Seq<char>) -> FileView {
    FileView { selection: step(v, action, clip).selection, ..v }
}

/// The texts put on the clipboard, in order.
pub open spec fn writes_of(v: FileView, action: EditorAction, clip: Seq<char>) -> Seq<Seq<char>> {
    let first = match clipboard_write(v, action) {
        Some(t) => seq![t],
        None => Seq::empty(),
    };
    let second = match clipboard_write(after_first_pass(v, action, clip), action) {
        Some(t) => seq![t],
        None => Seq::empty(),
    };
    first + second
}

/// The views of the strings in `v`.
pub open spec fn string_views(v: Seq<String>) -> Seq<Seq<char>> {
    v.map_values(|s: String| s@)
}

/// The movement of a `GoTo` to `loc`.
fn goto_offset(loc: &Location) -> (d: LocDelta)
    ensures
        d == goto_delta(*loc),
{
    match loc {
        Location::EndOfLine => LocDelta::new(0, 1000000000),
        Location::StartOfLine => LocDelta::new(0, -1000000000),
        Location::FirstLine => LocDelta::new(-1000000000, 0),
        Location::LastLine => LocDelta::new(1000000000, 0),
        Location::Offset(delta) => *delta,
    }
}

/// The parts of a `FileView` held by a model and a selection.
pub open spec fn model_view(m: &TextModel, selection: Selection) -> FileView {
    FileView { text: m.text(), cursor: m.cursor, original_cursor: m.original_cursor, selection }
}

/// Whether an edit by `action` can be made on the model `m` with
/// `selection` chosen: `can_step` of that view.
fn step_fits(m: &TextModel, selection: Selection, action: &EditorAction, clip: &str) -> (r: bool)
    ensures
        r == can_step(model_view(m, selection), *action, clip@),
{
    match action {
        EditorAction::InsertString(s) => m.insert_fits(s.as_str()),
        EditorAction::Paste => m.insert_fits(clip),
        EditorAction::InsertNewline => m.newline_fits(),
        EditorAction::DeleteLeft => m.backspace_fits(),
        EditorAction::Copy => m.get_string_fits(selection),
        EditorAction::Cut => m.get_string_fits(selection) && m.delete_fits(selection),
        EditorAction::BeginSelection => true,
        EditorAction::EndSelection => true,
        EditorAction::GoTo(loc) => m.move_fits(goto_offset(loc)),
    }
}

/// The selection the first of the two passes of an edit leaves.
fn first_pass_selection(m: &TextModel, selection: Selection, action: &EditorAction) -> (r: Selection)
    ensures
        r == step(model_view(m, selection), *action, Seq::empty()).selection,
{
    match action {
        EditorAction::Cut => Selection::empty(),
        EditorAction::BeginSelection => Selection::new(m.cursor, m.cursor),
        EditorAction::EndSelection => Selection::empty(),
        _ => selection,
    }
}

/// The model an edit by `action` gives, and the selection it leaves in
/// `file`; clipboard text goes to `writes`.
fn transform(file: &mut OpenFile, action: &EditorAction, clip: &str, writes: &mut Vec<String>) -> (r:
    TextModel)
    requires
        can_step(view_of(&*old(file)), *action, clip@),
    ensures
        ({
            let s = step(view_of(&*old(file)), *action, clip@);
            &&& r.text() == s.text
            &&& r.cursor == s.cursor
            &&& r.original_cursor == s.original_cursor
            &&& final(file).selection == s.selection
            &&& final(file).model == old(file).model
            &&& final(file).undo_stack == old(file).undo_stack
            &&& final(file).redo_stack == old(file).redo_stack
            &&& final(file).path == old(file).path
            &&& final(file).last_edit_time == old(file).last_edit_time
            &&& string_views(final(writes)@) == string_views(old(writes)@) + match clipboard_write(
                view_of(&*old(file)),
                *action,
            ) {
                Some(t) => seq![t],
                None => Seq::empty(),
            }
        }),
{
    let ghost w0 = writes@;
    match action {
        EditorAction::InsertString(s) => file.model.insert(s.as_str()),
        EditorAction::InsertNewline => file.model.insert_newline(),
        EditorAction::DeleteLeft => file.model.backspace_key(),
        EditorAction::Copy => {
            let s = file.model.get_string(file.selection);
            writes.push(s);
            assert(string_views(writes@) =~= string_views(w0) + seq![selected_text(file.model.text(), file.selection)]);
            file.model.clone()
        },
        EditorAction::Paste => file.model.insert(clip),
        EditorAction::Cut => {
            let selection = file.selection;
            file.selection = Selection::empty();
            let s = file.model.get_string(selection);
            writes.push(s);
            assert(string_views(writes@) =~= string_views(w0) + seq![selected_text(file.model.text(), selection)]);
            file.model.delete(selection)
        },
        EditorAction::BeginSelection => {
            let cursor = file.model.cursor;
            file.selection = Selection::new(cursor, cursor);
            file.model.clone()
        },
        EditorAction::EndSelection => {
            file.selection = Selection::empty();
            file.model.clone()
        },
        EditorAction::GoTo(loc) => file.model.move_cursor(goto_offset(loc)),
    }
}

/// Applies the editor action `action` to `file` as the editor does: the
/// edit is computed twice over (the first result is dropped, but what it
/// does to the selection and the clipboard stays), and the second result
/// becomes the file's text and is recorded in its history. `clip` is the
/// clipboard's text; the result lists the texts to put on the clipboard,
/// in order.
pub fn apply_to_file(file: &mut OpenFile, action: &EditorAction, clip: &str) -> (writes: Vec<String>)
    requires
        can_step(view_of(&*old(file)), *action, clip@),
        can_step(after_first_pass(view_of(&*old(file)), *action, clip@), *action, clip@),
    ensures
        view_of(&*final(file)) == step(after_first_pass(view_of(&*old(file)), *action, clip@), *action, clip@),
        final(file).undo_stack@.len() > 0,
        same_model(final(file).undo_stack@[0], final(file).model),
        final(file).undo_stack@.drop_first() == kept_history(old(file).undo_stack@, true)
            || final(file).undo_stack@.drop_first() == kept_history(old(file).undo_stack@, false),
        old(file).last_edit_time is None ==> final(file).undo_stack@.drop_first() == kept_history(
            old(file).undo_stack@,
            false,
        ),
        final(file).redo_stack@.len() == 0,
        final(file).last_edit_time is Some,
        final(file).path == old(file).path,
        string_views(writes@) == writes_of(view_of(&*old(file)), *action, clip@),
{
    let mut writes: Vec<String> = Vec::new();
    assert(string_views(writes@) =~= Seq::<Seq<char>>::empty());
    let _ = transform(file, action, clip, &mut writes);
    let model = transform(file, action, clip, &mut writes);
    let ghost sel = file.selection;
    file.record_edit(model);
    assert(string_views(writes@) =~= writes_of(view_of(&*old(file)), *action, clip@));
    writes
}


/// Typing the char `c`: the input machine takes it; the actions it yields
/// come back when a file is open, and the event is ignored (`None`) when
/// none is.
pub fn receive_input(state: &mut EditorState, c: char) -> (r: Option<EditorActions>)
    ensures
        final(state).mode() == mode_after(old(state).mode(), c),
        final(state).current_file() == old(state).current_file(),
        final(state).dir() == old(state).dir(),
        old(state).current_file() is None ==> r is None,
        old(state).current_file() is Some ==> (r matches Some(a) && typed_actions(
            old(state).mode(),
            c,
            editor_action_items(a),
        )),
{
    let actions = state.input_mut().receive_char(c);
    match state.open_file() {
        Some(_) => Some(actions),
        None => None,
    }
}

/// An edit by `action` can be applied to the file open in `state`, if any.
pub open spec fn can_apply(state: EditorState, action: EditorAction, clip: Seq<char>) -> bool {
    state.current_file() matches Some(f) ==> {
        &&& can_step(view_of(&f), action, clip)
        &&& can_step(after_first_pass(view_of(&f), action, clip), action, clip)
    }
}

/// Whether `apply_editor_action(state, action, clip)` can be made:
/// exactly its requirement, `can_apply`.
pub fn can_apply_action(state: &EditorState, action: &EditorAction, clip: &str) -> (r: bool)
    ensures
        r == can_apply(*state, *action, clip@),
{
    match state.open_file() {
        None => true,
        Some(f) => {
            let sel = first_pass_selection(&f.model, f.selection, action);
            assert(after_first_pass(view_of(f), *action, clip@) == model_view(&f.model, sel));
            step_fits(&f.model, f.selection, action, clip) && step_fits(&f.model, sel, action, clip)
        },
    }
}

/// The editor's history of `f` moved from `before` as one recorded edit
/// does: a copy of the new model on top, redo history cleared.
pub open spec fn edit_recorded(before: OpenFile, f: OpenFile) -> bool {
    &&& f.undo_stack@.len() > 0
    &&& same_model(f.undo_stack@[0], f.model)
    &&& f.undo_stack@.drop_first() == kept_history(before.undo_stack@, true)
        || f.undo_stack@.drop_first() == kept_history(before.undo_stack@, false)
    &&& before.last_edit_time is None ==> f.undo_stack@.drop_first() == kept_history(
        before.undo_stack@,
        false,
    )
    &&& f.redo_stack@.len() == 0
    &&& f.last_edit_time is Some
    &&& f.path == before.path
}

/// Applies `action` to the open file, as `apply_to_file` does; with no
/// file open nothing happens. `clip` is the clipboard's text; the result
/// lists the texts to put on the clipboard, in order.
pub fn apply_editor_action(state: &mut EditorState, action: &EditorAction, clip: &str) -> (writes: Vec<String>)
    requires
        can_apply(*old(state), *action, clip@),
    ensures
        final(state).mode() == old(state).mode(),
        final(state).dir() == old(state).dir(),
        old(state).current_file() is None ==> final(state).current_file() is None && writes@.len() == 0,
        old(state).current_file() matches Some(f) ==> ({
            &&& final(state).current_file() matches Some(g) && {
                &&& view_of(&g) == step(after_first_pass(view_of(&f), *action, clip@), *action, clip@)
                &&& edit_recorded(f, g)
            }
            &&& string_views(writes@) == writes_of(view_of(&f), *action, clip@)
        }),
{
    match state.open_file_mut() {
        Some(file) => apply_to_file(file, action, clip),
        None => Vec::new(),
    }
}

/// The keys the editor widget reacts to.
#[derive(Debug, PartialEq, Eq, Structural, Clone, Copy)]
pub enum Key {
    Up,
    Down,
    Left,
    Right,
    Tab,
    S,
    Other,
}

/// The modifier keys held with a key.
#[derive(Debug, PartialEq, Eq, Structural, Clone, Copy)]
pub enum Modifiers {
    NoModifiers,
    Ctrl,
    Other,
}

/// What the editor widget answers a key press: whether it used it, and
/// whether the open file is to be saved.
#[derive(Debug, Clone, Copy)]
pub struct KeyReply {
    pub outcome: Outcome,
    pub save: bool,
}

/// The movement of an arrow key.
pub open spec fn arrow_delta(key: Key) -> LocDelta {
    match key {
        Key::Up => LocDelta { row: -1isize, column: 0 },
        Key::Down => LocDelta { row: 1, column: 0 },
        Key::Left => LocDelta { row: 0, column: -1isize },
        _ => LocDelta { row: 0, column: 1 },
    }
}

/// An arrow key.
pub open spec fn is_arrow(key: Key) -> bool {
    key == Key::Up || key == Key::Down || key == Key::Left || key == Key::Right
}

/// What a key without modifiers does to `v` (before the selection follows
/// the cursor).
pub open spec fn key_view(v: FileView, key: Key) -> FileView {
    if is_arrow(key) {
        moved_view(v, arrow_delta(key))
    } else if key == Key::Tab {
        inserted_view(v, "    "@)
    } else {
        v
    }
}

/// A key without modifiers can be applied to `v`.
pub open spec fn can_key(v: FileView, key: Key) -> bool {
    &&& is_arrow(key) ==> {
        &&& shift_fits(start_of_move(v, arrow_delta(key)).row, arrow_delta(key).row)
        &&& shift_fits(start_of_move(v, arrow_delta(key)).column, arrow_delta(key).column)
    }
    &&& key == Key::Tab ==> can_insert(v.text, v.cursor, "    "@)
}

/// In visual mode the selection's end follows the cursor.
pub open spec fn follow_cursor(v: FileView, mode: Mode) -> FileView {
    if mode == Mode::Visual {
        FileView {
            selection: Selection {
                first: loc_min(v.selection.start, v.cursor),
                last: loc_max(v.selection.start, v.cursor),
                start: v.selection.start,
                end: v.cursor,
            },
            ..v
        }
    } else {
        v
    }
}

/// Whether `handle_key(state, key, modifiers)` can be made: exactly its
/// requirement.
pub fn can_handle_key(state: &EditorState, key: Key, modifiers: Modifiers) -> (r: bool)
    ensures
        r == (modifiers == Modifiers::NoModifiers ==> (state.current_file() matches Some(f)
            ==> can_key(view_of(&f), key))),
{
    if modifiers != Modifiers::NoModifiers {
        return true;
    }
    match state.open_file() {
        None => true,
        Some(f) => {
            if key == Key::Up {
                f.model.move_fits(LocDelta::new(-1, 0))
            } else if key == Key::Down {
                f.model.move_fits(LocDelta::new(1, 0))
            } else if key == Key::Left {
                f.model.move_fits(LocDelta::new(0, -1))
            } else if key == Key::Right {
                f.model.move_fits(LocDelta::new(0, 1))
            } else if key == Key::Tab {
                f.model.insert_fits("    ")
            } else {
                true
            }
        },
    }
}

/// Pressing `key` with `modifiers`: without modifiers the arrows move the
/// cursor and tab inserts four spaces (each recorded as an edit), and in
/// visual mode the selection's end then follows the cursor; control and S
/// asks for the open file to be saved; anything else is ignored.
pub fn handle_key(state: &mut EditorState, key: Key, modifiers: Modifiers) -> (r: KeyReply)
    requires
        modifiers == Modifiers::NoModifiers ==> (old(state).current_file() matches Some(f)
            ==> can_key(view_of(&f), key)),
    ensures
        final(state).mode() == old(state).mode(),
        final(state).dir() == old(state).dir(),
        r.outcome == (if modifiers == Modifiers::NoModifiers {
            if is_arrow(key) || key == Key::Tab { Outcome::Handled } else { Outcome::Ignored }
        } else if modifiers == Modifiers::Ctrl && key == Key::S {
            Outcome::Handled
        } else {
            Outcome::Ignored
        }),
        r.save == (modifiers == Modifiers::Ctrl && key == Key::S && old(state).current_file() is Some),
        modifiers != Modifiers::NoModifiers ==> final(state).current_file() == old(state).current_file(),
        modifiers == Modifiers::NoModifiers ==> (old(state).current_file() is None
            ==> final(state).current_file() is None),
        modifiers == Modifiers::NoModifiers ==> (old(state).current_file() matches Some(f) ==> (
        final(state).current_file() matches Some(g) && {
            &&& view_of(&g) == follow_cursor(key_view(view_of(&f), key), old(state).mode())
            &&& (is_arrow(key) || key == Key::Tab) ==> edit_recorded(f, g)
            &&& !(is_arrow(key) || key == Key::Tab) ==> {
                &&& g.undo_stack == f.undo_stack
                &&& g.redo_stack == f.redo_stack
                &&& g.path == f.path
                &&& g.last_edit_time == f.last_edit_time
            }
        })),
{
    if modifiers == Modifiers::NoModifiers {
        let mut outcome = Outcome::Handled;
        let action: Option<EditorAction> = if key == Key::Up {
            Some(EditorAction::GoTo(Location::Offset(LocDelta::new(-1, 0))))
        } else if key == Key::Down {
            Some(EditorAction::GoTo(Location::Offset(LocDelta::new(1, 0))))
        } else if key == Key::Left {
            Some(EditorAction::GoTo(Location::Offset(LocDelta::new(0, -1))))
        } else if key == Key::Right {
            Some(EditorAction::GoTo(Location::Offset(LocDelta::new(0, 1))))
        } else if key == Key::Tab {
            Some(EditorAction::InsertString(String::from_str("    ")))
        } else {
            None
        };
        match action {
            Some(a) => {
                let _ = apply_editor_action(state, &a, "");
            },
            None => {
                outcome = Outcome::Ignored;
            },
        }
        let mode = state.input().mode;
        if mode == Mode::Visual {
            match state.open_file_mut() {
                Some(open_file) => {
                    let selection = open_file.selection;
                    let cursor = open_file.model.cursor;
                    open_file.selection = selection.with_end(cursor);
                },
                None => {},
            }
        }
        KeyReply { outcome, save: false }
    } else if modifiers == Modifiers::Ctrl {
        if key == Key::S {
            let save = state.open_file().is_some();
            KeyReply { outcome: Outcome::Handled, save }
        } else {
            KeyReply { outcome: Outcome::Ignored, save: false }
        }
    } else {
        KeyReply { outcome: Outcome::Ignored, save: false }
    }
}

} // verus!
