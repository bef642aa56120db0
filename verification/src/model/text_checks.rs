//! Tests, run before an edit, of the conditions under which the edits of
//! `TextModel` can be made: each answers exactly its edit's requirement.
use vstd::prelude::*;
use crate::ext::im_lines::{lines_get, lines_len};
use crate::model::text_model::{
    can_backspace, can_delete, can_get_string, can_insert, can_select_row, delete_end,
    delete_start, move_base, shift_fits, Loc, LocDelta, Selection, TextModel,
};
use crate::utf8_text::{at_boundary, split_line, str_byte_len, text_lines, views};

verus! {

/// Whether `x + d` can be computed in `isize`.
pub fn shift_fits_exec(x: usize, d: isize) -> (r: bool)
    ensures
        r == shift_fits(x, d),
{
    let w = x as isize;
    if d < 0 {
        w >= isize::MIN - d
    } else {
        w <= isize::MAX - d
    }
}

impl TextModel {
    /// Whether `insert(data)` can be made: `can_insert` of the text, the
    /// cursor and `data`.
    pub fn insert_fits(&self, data: &str) -> (r: bool)
        ensures
            r == can_insert(self.text(), self.cursor, data@),
    {
        let ghost t = self.text();
        let n = lines_len(&self.lines);
        let row = self.cursor.row;
        let col = self.cursor.column;
        if row < n {
            let line = lines_get(&self.lines, row).unwrap();
            assert(t[row as int] == line@);
            if !line.as_str().is_char_boundary(col) {
                return false;
            }
        } else if !(row == n || n == 0) {
            return false;
        }
        let pieces = text_lines(data);
        let k = pieces.len();
        assert(views(pieces@).len() == k);
        if k <= 1 {
            let extra: usize = if k == 0 {
                0
            } else {
                assert(views(pieces@)[0] == pieces@[0]@);
                str_byte_len(pieces[0].as_str())
            };
            col <= usize::MAX - extra
        } else {
            row <= usize::MAX - (k - 1)
        }
    }

    /// Whether `insert_newline()` can be made: the cursor is on a row, at
    /// a char boundary.
    pub fn newline_fits(&self) -> (r: bool)
        ensures
            r == (self.cursor.row < self.text().len() && at_boundary(
                self.text()[self.cursor.row as int],
                self.cursor.column as int,
            )),
    {
        let n = lines_len(&self.lines);
        if self.cursor.row < n {
            let line = lines_get(&self.lines, self.cursor.row).unwrap();
            line.as_str().is_char_boundary(self.cursor.column)
        } else {
            false
        }
    }

    /// Whether `backspace_key()` can be made: `can_backspace` of the text
    /// and the cursor.
    pub fn backspace_fits(&self) -> (r: bool)
        ensures
            r == can_backspace(self.text(), self.cursor),
    {
        let row = self.cursor.row;
        let col = self.cursor.column;
        if row == 0 && col == 0 {
            return true;
        }
        let n = lines_len(&self.lines);
        if col == 0 {
            row < n && shift_fits_exec(row, -1)
        } else if !shift_fits_exec(col, -1) {
            false
        } else if row < n {
            let line = lines_get(&self.lines, row).unwrap();
            line.as_str().is_char_boundary(col - 1) && col - 1 < str_byte_len(line.as_str())
        } else {
            true
        }
    }

    /// Whether `delete(selection)` can be made: `can_delete` of the text
    /// and the selection.
    pub fn delete_fits(&self, selection: Selection) -> (r: bool)
        ensures
            r == can_delete(self.text(), selection),
    {
        let ghost t = self.text();
        if selection.last.row == usize::MAX {
            return false;
        }
        let n = lines_len(&self.lines);
        let hi: usize = if selection.last.row + 1 < n { selection.last.row + 1 } else { n };
        let lo: usize = if hi == 0 { 0 } else { selection.first.row };
        assert(hi == delete_end(t, selection.last));
        assert(lo == delete_start(t, selection.first, selection.last));
        if lo > hi {
            false
        } else if lo == hi {
            true
        } else {
            let first_line = lines_get(&self.lines, lo).unwrap();
            let last_line = lines_get(&self.lines, hi - 1).unwrap();
            first_line.as_str().is_char_boundary(selection.first.column)
                && last_line.as_str().is_char_boundary(selection.last.column)
        }
    }

    /// Whether `get_string(selection)` can be made: `can_get_string` of
    /// the text and the selection.
    pub fn get_string_fits(&self, selection: Selection) -> (r: bool)
        ensures
            r == can_get_string(self.text(), selection),
    {
        let ghost t = self.text();
        let n = lines_len(&self.lines);
        let first = selection.first;
        let last = selection.last;
        let mut row = first.row;
        while row <= last.row && row < n
            invariant
                first == selection.first,
                last == selection.last,
                n == t.len(),
                t == self.text(),
                first.row <= row,
                forall|i: int|
                    first.row <= i < row && i <= last.row && i < t.len() ==> #[trigger] can_select_row(
                        t[i],
                        i,
                        first,
                        last,
                    ),
            decreases n - row,
        {
            let line = lines_get(&self.lines, row).unwrap();
            let l: usize = if row == first.row { first.column } else { 0 };
            let r: usize = if row == last.row { last.column } else { str_byte_len(line.as_str()) };
            if !line.as_str().is_char_boundary(r) {
                assert(!can_select_row(t[row as int], row as int, first, last));
                return false;
            }
            let (left, _) = split_line(line.as_str(), r);
            if !left.as_str().is_char_boundary(l) {
                assert(!can_select_row(t[row as int], row as int, first, last));
                return false;
            }
            row = row + 1;
        }
        true
    }

    /// Whether `move_cursor(offset)` can be made: both coordinates of the
    /// movement's start can be moved by `offset` in `isize`.
    pub fn move_fits(&self, offset: LocDelta) -> (r: bool)
        ensures
            r == (shift_fits(move_base(self, offset).row, offset.row) && shift_fits(
                move_base(self, offset).column,
                offset.column,
            )),
    {
        let base: Loc = if offset.column == 0 {
            match self.original_cursor {
                Some(c) => c,
                None => self.cursor,
            }
        } else {
            self.cursor
        };
        shift_fits_exec(base.row, offset.row) && shift_fits_exec(base.column, offset.column)
    }
}

} // verus!
