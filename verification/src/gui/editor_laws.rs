//! What the editor's keys and actions do to the open file, stated from
//! the file's text and cursor alone.
use vstd::prelude::*;
use crate::gui::editor::{arrow_delta, is_arrow, key_view, start_of_move, step, target_of_move, FileView, Key};
use crate::input::vim_input::EditorAction;
use crate::model::text_model::{last_cursor, Loc, LocDelta};
use crate::utf8_text::{at_boundary, byte_len, byte_prefix, byte_suffix, lemma_split_at_boundary};

verus! {

/// `text` fits in memory: its row count and each row's byte length are
/// `usize` values.
pub open spec fn fits(text: Seq<Seq<char>>) -> bool {
    &&& text.len() <= usize::MAX
    &&& forall|i: int| 0 <= i < text.len() ==> byte_len(#[trigger] text[i]) <= usize::MAX
}

/// Where a vertical move starts: the remembered location, else the
/// cursor.
pub open spec fn vertical_start(v: FileView) -> Loc {
    match v.original_cursor {
        Some(c) => c,
        None => v.cursor,
    }
}

/// Up, pressed without modifiers, moves the cursor one row up from where
/// the vertical move starts (row 0 stays), and leaves the text as it is.
pub proof fn law_up_moves_one_row_up(v: FileView)
    requires
        fits(v.text),
        vertical_start(v).row < v.text.len(),
        vertical_start(v).row <= isize::MAX,
    ensures
        key_view(v, Key::Up).text == v.text,
        key_view(v, Key::Up).cursor.row == (if vertical_start(v).row == 0 {
            0
        } else {
            vertical_start(v).row - 1
        }),
        key_view(v, Key::Up).cursor.row <= vertical_start(v).row,
{
    let d = arrow_delta(Key::Up);
    assert(d == LocDelta { row: -1isize, column: 0isize });
    assert(is_arrow(Key::Up));
    let b = vertical_start(v);
    assert(start_of_move(v, d) == b);
    assert((b.row as isize) as int == b.row as int);
    let t = target_of_move(v, d);
    assert(t.row == (if b.row == 0 { 0 } else { b.row - 1 }));
    assert(t.row < last_cursor(v.text).row || t.row == 0);
}

/// Down, pressed without modifiers, moves the cursor one row down from
/// where the vertical move starts, and stays on the last row.
pub proof fn law_down_moves_one_row_down(v: FileView)
    requires
        fits(v.text),
        vertical_start(v).row < v.text.len(),
        vertical_start(v).row < isize::MAX,
    ensures
        key_view(v, Key::Down).text == v.text,
        key_view(v, Key::Down).cursor.row == (if vertical_start(v).row + 1 < v.text.len() {
            vertical_start(v).row + 1
        } else {
            vertical_start(v).row as int
        }),
{
    let d = arrow_delta(Key::Down);
    assert(d == LocDelta { row: 1isize, column: 0isize });
    assert(is_arrow(Key::Down));
    let b = vertical_start(v);
    assert(start_of_move(v, d) == b);
    assert((b.row as isize) as int == b.row as int);
    let t = target_of_move(v, d);
    assert(t.row == b.row + 1);
    assert(last_cursor(v.text).row == v.text.len() - 1);
}

/// Left, pressed without modifiers, moves the cursor itself (not the
/// remembered location) one column to the left within its row.
pub proof fn law_left_moves_one_column_left(v: FileView)
    requires
        fits(v.text),
        v.cursor.row < v.text.len(),
        v.cursor.row <= isize::MAX,
        0 < v.cursor.column <= byte_len(v.text[v.cursor.row as int]),
        v.cursor.column <= isize::MAX,
    ensures
        key_view(v, Key::Left).text == v.text,
        key_view(v, Key::Left).cursor == (Loc { row: v.cursor.row, column: (v.cursor.column - 1) as usize }),
        key_view(v, Key::Left).original_cursor is None,
{
    let d = arrow_delta(Key::Left);
    assert(d == LocDelta { row: 0isize, column: -1isize });
    assert(is_arrow(Key::Left));
    assert(start_of_move(v, d) == v.cursor);
    assert((v.cursor.row as isize) as int == v.cursor.row as int);
    assert((v.cursor.column as isize) as int == v.cursor.column as int);
    let t = target_of_move(v, d);
    assert(t == Loc { row: v.cursor.row, column: (v.cursor.column - 1) as usize });
    let lc = last_cursor(v.text);
    assert(lc.row == v.text.len() - 1);
    assert(v.cursor.row == lc.row ==> lc.column == byte_len(v.text[v.cursor.row as int]));
}

/// Right, pressed without modifiers, moves the cursor itself one column
/// to the right within its row, short of its end.
pub proof fn law_right_moves_one_column_right(v: FileView)
    requires
        fits(v.text),
        v.cursor.row < v.text.len(),
        v.cursor.row <= isize::MAX,
        v.cursor.column < byte_len(v.text[v.cursor.row as int]),
        v.cursor.column < isize::MAX,
    ensures
        key_view(v, Key::Right).text == v.text,
        key_view(v, Key::Right).cursor == (Loc { row: v.cursor.row, column: (v.cursor.column + 1) as usize }),
        key_view(v, Key::Right).original_cursor is None,
{
    let d = arrow_delta(Key::Right);
    assert(d == LocDelta { row: 0isize, column: 1isize });
    assert(is_arrow(Key::Right));
    assert(start_of_move(v, d) == v.cursor);
    assert((v.cursor.row as isize) as int == v.cursor.row as int);
    assert((v.cursor.column as isize) as int == v.cursor.column as int);
    let t = target_of_move(v, d);
    assert(t == Loc { row: v.cursor.row, column: (v.cursor.column + 1) as usize });
    let lc = last_cursor(v.text);
    assert(lc.row == v.text.len() - 1);
    assert(v.cursor.row == lc.row ==> lc.column == byte_len(v.text[v.cursor.row as int]));
}

/// Enter (`InsertNewline`) splits the cursor's row at the cursor: the
/// text gains exactly one row, the part before the cursor stays on the
/// row and the part after it becomes the next row, the other rows are
/// kept, and the cursor moves to the start of the new row.
pub proof fn law_newline_splits_row(v: FileView, clip: Seq<char>)
    requires
        v.cursor.row < v.text.len(),
        at_boundary(v.text[v.cursor.row as int], v.cursor.column as int),
    ensures
        ({
            let s = step(v, EditorAction::InsertNewline, clip);
            let r = v.cursor.row as int;
            &&& s.text.len() == v.text.len() + 1
            &&& s.text[r] + s.text[r + 1] == v.text[r]
            &&& byte_len(s.text[r]) == v.cursor.column
            &&& s.text.take(r) == v.text.take(r)
            &&& s.text.skip(r + 2) == v.text.skip(r + 1)
            &&& s.cursor == (Loc { row: (v.cursor.row + 1) as usize, column: 0 })
            &&& s.selection == v.selection
        }),
{
    let s = step(v, EditorAction::InsertNewline, clip);
    let r = v.cursor.row as int;
    let line = v.text[r];
    lemma_split_at_boundary(line, v.cursor.column as int);
    assert(s.text[r] == byte_prefix(line, v.cursor.column as int));
    assert(s.text[r + 1] == byte_suffix(line, v.cursor.column as int));
    assert(s.text.take(r) =~= v.text.take(r));
    assert(s.text.skip(r + 2) =~= v.text.skip(r + 1));
}

} // verus!
