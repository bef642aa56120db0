//! What the editing operations of `TextModel` promise together.
use vstd::prelude::*;
use crate::model::text_model::{
    can_backspace, can_delete, can_get_string, can_insert, can_select_row, constrained,
    cursor_after_backspace, cursor_after_insert, delete_end, delete_start, gathered,
    inserted_block, lines_after_backspace, lines_after_delete, lines_after_insert,
    lines_after_newline, move_base, moved, selected_part, selected_rows, selected_text,
    splice_block, within, last_cursor, Loc, LocDelta, Selection, TextModel,
};
use crate::model::open_file::saved_text;
use crate::utf8_text::{
    at_boundary, byte_len, byte_prefix, byte_suffix, lemma_ascii_char_len,
    lemma_boundary_at_concat, lemma_split_at_boundary, scan_lines, split_lines, strip_cr,
};

verus! {

/// Breaking a row at the cursor and then pressing backspace at the start
/// of the new row gives back the text and the cursor. (From a row at or
/// past `isize::MAX` it does not: the backspace reads the new row as a
/// negative `isize` and sends the cursor to row 0.)
pub proof fn law_newline_then_backspace(lines: Seq<Seq<char>>, cursor: Loc)
    requires
        cursor.row < lines.len(),
        cursor.row < isize::MAX,
        at_boundary(lines[cursor.row as int], cursor.column as int),
    ensures
        ({
            let broken = lines_after_newline(lines, cursor);
            let below = Loc { row: (cursor.row + 1) as usize, column: 0 };
            &&& can_backspace(broken, below)
            &&& lines_after_backspace(broken, below) == lines
            &&& cursor_after_backspace(broken, below) == cursor
        }),
{
    let line = lines[cursor.row as int];
    lemma_split_at_boundary(line, cursor.column as int);
    let broken = lines_after_newline(lines, cursor);
    let below = Loc { row: (cursor.row + 1) as usize, column: 0 };
    assert(broken.len() == lines.len() + 1);
    assert(lines_after_backspace(broken, below) =~= lines);
}

/// The text with the one-char string `c` inserted at `cursor` can take
/// the insertion; a backspace right after it gives back the text and the
/// cursor, when `c` is an ASCII char other than a line feed. (A row past
/// `isize::MAX`, or a column that reaches it, reads as a negative `isize`
/// in the backspace, which then sends that coordinate to 0 or overflows.)
pub proof fn law_insert_char_then_backspace(lines: Seq<Seq<char>>, cursor: Loc, c: char)
    requires
        cursor.row < lines.len(),
        at_boundary(lines[cursor.row as int], cursor.column as int),
        cursor.row <= isize::MAX,
        cursor.column < isize::MAX,
        (c as u32) < 128,
        c != '\n',
    ensures
        ({
            let typed = lines_after_insert(lines, cursor, seq![c]);
            let after = cursor_after_insert(cursor, seq![c]);
            &&& can_insert(lines, cursor, seq![c])
            &&& after == (Loc { row: cursor.row, column: (cursor.column + 1) as usize })
            &&& can_backspace(typed, after)
            &&& lines_after_backspace(typed, after) == lines
            &&& cursor_after_backspace(typed, after) == cursor
        }),
{
    let line = lines[cursor.row as int];
    let col = cursor.column as int;
    lemma_split_at_boundary(line, col);
    lemma_ascii_char_len(c);
    let single: Seq<char> = seq![c];
    assert(split_lines(single) =~= seq![single]) by {
        reveal_with_fuel(crate::utf8_text::scan_lines, 2);
        assert(single.drop_last() =~= Seq::<char>::empty());
        assert(Seq::<char>::empty().push(c) =~= single);
    }
    let a = byte_prefix(line, col);
    let b = byte_suffix(line, col);
    let typed = lines_after_insert(lines, cursor, single);
    let new_line = a + single + b;
    assert(typed[cursor.row as int] =~= new_line);
    assert(a + single + b =~= a + (single + b));
    lemma_boundary_at_concat(a, single + b);
    lemma_boundary_at_concat(single, b);
    assert((single + b).drop_first() =~= b);
    assert(lines_after_backspace(typed, cursor_after_insert(cursor, single)) =~= lines);
}

/// Cutting out a selection that starts and ends at one location leaves
/// the text as it was.
pub proof fn law_delete_empty_selection(lines: Seq<Seq<char>>, at: Loc)
    requires
        at.row < lines.len(),
        at.row < usize::MAX,
        at_boundary(lines[at.row as int], at.column as int),
    ensures
        ({
            let sel = Selection { first: at, last: at, start: at, end: at };
            &&& can_delete(lines, sel)
            &&& lines_after_delete(lines, sel) == lines
        }),
{
    lemma_split_at_boundary(lines[at.row as int], at.column as int);
    let sel = Selection { first: at, last: at, start: at, end: at };
    assert(lines_after_delete(lines, sel) =~= lines);
}

/// Within one row, the copied text (less its line feed) is exactly what a
/// cut removes: the row is what is left before it, then it, then what is
/// left after it.
pub proof fn law_cut_within_row(lines: Seq<Seq<char>>, sel: Selection)
    requires
        sel.first.row == sel.last.row,
        sel.last.row < lines.len(),
        sel.first.column <= sel.last.column,
        can_get_string(lines, sel),
        can_delete(lines, sel),
    ensures
        ({
            let row = sel.first.row as int;
            let line = lines[row];
            let part = selected_part(line, row, sel.first, sel.last);
            &&& selected_text(lines, sel) == part.push('\n')
            &&& lines_after_delete(lines, sel)[row] == byte_prefix(line, sel.first.column as int)
                + byte_suffix(line, sel.last.column as int)
            &&& byte_prefix(line, sel.first.column as int) + part + byte_suffix(
                line,
                sel.last.column as int,
            ) == line
        }),
{
    let row = sel.first.row as int;
    let line = lines[row];
    let fc = sel.first.column as int;
    let lc = sel.last.column as int;
    assert(crate::model::text_model::can_select_row(line, row, sel.first, sel.last));
    lemma_split_at_boundary(line, lc);
    let p = byte_prefix(line, lc);
    lemma_split_at_boundary(p, fc);
    assert(vstd::utf8::encode_utf8(p).subrange(0, fc) =~= vstd::utf8::encode_utf8(line).subrange(
        0,
        fc,
    ));
    assert(byte_prefix(p, fc) == byte_prefix(line, fc));
    reveal_with_fuel(crate::model::text_model::gathered, 2);
    assert(selected_text(lines, sel) =~= Seq::<char>::empty() + selected_part(
        line,
        row,
        sel.first,
        sel.last,
    ).push('\n'));
    assert(lines_after_delete(lines, sel)[row] =~= byte_prefix(line, fc) + byte_suffix(line, lc));
}

/// Moving a location into the text lands inside it, and moving it in
/// again does nothing.
pub proof fn law_constrain_settles(c: Loc, lines: Seq<Seq<char>>)
    requires
        forall|i: int| 0 <= i < lines.len() ==> byte_len(#[trigger] lines[i]) <= usize::MAX,
        lines.len() <= usize::MAX,
    ensures
        within(constrained(c, lines), lines),
        constrained(constrained(c, lines), lines) == constrained(c, lines),
{
}

/// Cutting out exactly what an insertion put in (from the old cursor to
/// the cursor after it) gives back the text as it was.
pub proof fn law_insert_then_delete(lines: Seq<Seq<char>>, cursor: Loc, data: Seq<char>)
    requires
        cursor.row < lines.len(),
        can_insert(lines, cursor, data),
        cursor_after_insert(cursor, data).row < usize::MAX,
        split_lines(data).len() > 1 ==> byte_len(split_lines(data).last()) <= usize::MAX,
    ensures
        ({
            let typed = lines_after_insert(lines, cursor, data);
            let after = cursor_after_insert(cursor, data);
            let sel = Selection { first: cursor, last: after, start: cursor, end: after };
            &&& can_delete(typed, sel)
            &&& lines_after_delete(typed, sel) == lines
        }),
{
    let r = cursor.row as int;
    let col = cursor.column as int;
    let line = lines[r];
    lemma_split_at_boundary(line, col);
    let a = byte_prefix(line, col);
    let b = byte_suffix(line, col);
    let d = split_lines(data);
    let block = inserted_block(data);
    let k = block.len() as int;
    let with_front = block.update(0, a + block[0]);
    let spliced = splice_block(line, col, block);
    let typed = lines_after_insert(lines, cursor, data);
    let after = cursor_after_insert(cursor, data);
    let sel = Selection { first: cursor, last: after, start: cursor, end: after };
    assert(typed == lines.take(r) + spliced + lines.skip(r + 1));
    assert(typed.len() == lines.len() + k - 1);
    assert(after.row == r + k - 1);
    assert(delete_end(typed, after) == r + k);
    assert(delete_start(typed, cursor, after) == r);
    assert(typed[r] == spliced[0]);
    assert(typed[r + k - 1] == spliced[k - 1]);
    if k == 1 {
        let b0 = block[0];
        assert(spliced[0] == a + b0 + b);
        assert(a + b0 + b =~= a + (b0 + b));
        lemma_boundary_at_concat(a, b0 + b);
        lemma_boundary_at_concat(a + b0, b);
        lemma_boundary_at_concat(a, b0);
        assert(after.column == byte_len(a + b0)) by {
            if d.len() == 0 {
                assert(b0 =~= Seq::<char>::empty());
                assert(vstd::utf8::encode_utf8(b0) =~= Seq::<u8>::empty());
            }
        }
        assert(byte_prefix(typed[r], col) == a);
        assert(byte_suffix(typed[r + k - 1], after.column as int) == b);
    } else {
        let bl = block[k - 1];
        assert(block == d);
        assert(bl == d.last());
        assert(spliced[0] == a + block[0]);
        assert(spliced[k - 1] == bl + b);
        lemma_boundary_at_concat(a, block[0]);
        lemma_boundary_at_concat(bl, b);
        assert(after.column == byte_len(bl));
        assert(byte_prefix(typed[r], col) == a);
        assert(byte_suffix(typed[r + k - 1], after.column as int) == b);
    }
    assert(can_delete(typed, sel));
    assert(lines_after_delete(typed, sel) =~= lines.take(r) + seq![a + b] + lines.skip(r + 1));
    assert(lines.take(r) + seq![line] + lines.skip(r + 1) =~= lines);
}

/// `p` followed by a line feed reads back, as `str::lines` splits text,
/// as the one line `p`: it holds no line feed and does not end in a
/// carriage return.
pub open spec fn reads_back_as_line(p: Seq<char>) -> bool {
    &&& !p.contains('\n')
    &&& (p.len() > 0 ==> p.last() != '\r')
}

/// The selected parts of the rows from `first.row` to `last.row`, in
/// order.
pub open spec fn selected_parts(lines: Seq<Seq<char>>, first: Loc, last: Loc) -> Seq<Seq<char>> {
    Seq::new(
        selected_rows(first, last),
        |i: int| selected_part(lines[first.row + i], first.row + i, first, last),
    )
}

/// Reading chars with no line feed among them only extends the line under
/// way.
proof fn lemma_scan_no_newline(s: Seq<char>, q: Seq<char>)
    requires
        !q.contains('\n'),
    ensures
        scan_lines(s + q) == (scan_lines(s).0, scan_lines(s).1 + q),
    decreases q.len(),
{
    if q.len() == 0 {
        assert(s + q =~= s);
        assert(scan_lines(s).1 + q =~= scan_lines(s).1);
    } else {
        let q1 = q.drop_last();
        assert(!q1.contains('\n')) by {
            if q1.contains('\n') {
                let i = choose|i: int| 0 <= i < q1.len() && q1[i] == '\n';
                assert(q[i] == '\n');
            }
        }
        assert(q.last() != '\n') by {
            if q.last() == '\n' {
                assert(q[q.len() - 1] == '\n');
            }
        }
        lemma_scan_no_newline(s, q1);
        assert((s + q).drop_last() =~= s + q1);
        assert((s + q).last() == q.last());
        assert((scan_lines(s).1 + q1).push(q.last()) =~= scan_lines(s).1 + q);
    }
}

/// Reading the first `j` selected rows, each with its line feed, gives
/// back their parts as finished lines.
proof fn lemma_scan_gathered(lines: Seq<Seq<char>>, first: Loc, last: Loc, j: nat)
    requires
        j <= selected_rows(first, last),
        first.row + selected_rows(first, last) <= lines.len(),
        forall|i: int|
            0 <= i < selected_rows(first, last) ==> reads_back_as_line(
                #[trigger] selected_parts(lines, first, last)[i],
            ),
    ensures
        scan_lines(gathered(lines, first, last, j)) == (selected_parts(lines, first, last).take(
            j as int,
        ), Seq::<char>::empty()),
    decreases j,
{
    let parts = selected_parts(lines, first, last);
    if j == 0 {
        assert(parts.take(0) =~= Seq::<Seq<char>>::empty());
    } else {
        lemma_scan_gathered(lines, first, last, (j - 1) as nat);
        let row = first.row + j - 1;
        let p = selected_part(lines[row], row, first, last);
        assert(p == parts[j - 1]);
        assert(reads_back_as_line(parts[j - 1]));
        let g0 = gathered(lines, first, last, (j - 1) as nat);
        assert(gathered(lines, first, last, j) == g0 + p.push('\n'));
        lemma_scan_no_newline(g0, p);
        assert((g0 + p.push('\n')).drop_last() =~= g0 + p);
        assert(Seq::<char>::empty() + p =~= p);
        assert(strip_cr(p) == p);
        assert(parts.take(j as int) =~= parts.take(j - 1).push(parts[j - 1]));
    }
}

/// A line's prefix up to its end, and its suffix from its start, are the
/// line.
proof fn lemma_whole_line(s: Seq<char>)
    ensures
        byte_prefix(s, byte_len(s) as int) == s,
        byte_suffix(s, 0) == s,
        at_boundary(s, 0),
        at_boundary(s, byte_len(s) as int),
{
    let bytes = vstd::utf8::encode_utf8(s);
    assert(bytes.subrange(0, bytes.len() as int) =~= bytes);
    vstd::utf8::encode_utf8_decode_utf8(s);
    vstd::utf8::encode_utf8_valid_utf8(s);
    vstd::utf8::is_char_boundary_start_end_of_seq(bytes);
}

/// Cutting a selection and pasting the cut text where the selection
/// began gives back the text, with the cursor at the selection's end;
/// this holds when the selected rows lie in the text and each selected
/// part reads back as one line.
pub proof fn law_cut_then_paste(lines: Seq<Seq<char>>, sel: Selection)
    requires
        sel.first.row <= sel.last.row,
        sel.last.row < lines.len(),
        can_get_string(lines, sel),
        can_delete(lines, sel),
        forall|row: int|
            sel.first.row <= row <= sel.last.row ==> reads_back_as_line(
                #[trigger] selected_part(lines[row], row, sel.first, sel.last),
            ),
    ensures
        ({
            let copied = selected_text(lines, sel);
            let rest = lines_after_delete(lines, sel);
            &&& can_insert(rest, sel.first, copied)
            &&& lines_after_insert(rest, sel.first, copied) == lines
            &&& cursor_after_insert(sel.first, copied) == sel.last
        }),
{
    let first = sel.first;
    let last = sel.last;
    let k = selected_rows(first, last) as int;
    let parts = selected_parts(lines, first, last);
    let lo = first.row as int;
    let hi = last.row + 1;
    let c1 = first.column as int;
    let c2 = last.column as int;
    assert(k == hi - lo);
    assert forall|i: int| 0 <= i < k implies reads_back_as_line(#[trigger] parts[i]) by {
        assert(parts[i] == selected_part(lines[lo + i], lo + i, first, last));
    }
    lemma_scan_gathered(lines, first, last, k as nat);
    let copied = selected_text(lines, sel);
    assert(parts.take(k) =~= parts);
    assert(split_lines(copied) == parts);
    assert(inserted_block(copied) == parts);
    assert(delete_end(lines, last) == hi);
    assert(delete_start(lines, first, last) == lo);
    let line0 = lines[lo];
    let line1 = lines[hi - 1];
    let a = byte_prefix(line0, c1);
    let b = byte_suffix(line1, c2);
    lemma_split_at_boundary(line0, c1);
    lemma_split_at_boundary(line1, c2);
    let joined = a + b;
    let rest = lines_after_delete(lines, sel);
    assert(rest =~= lines.take(lo) + seq![joined] + lines.skip(hi));
    lemma_boundary_at_concat(a, b);
    assert(can_select_row(lines[lo], lo, first, last));
    assert(can_select_row(lines[hi - 1], hi - 1, first, last));
    let spliced = splice_block(joined, c1, parts);
    if k == 1 {
        let p = byte_prefix(line0, c2);
        lemma_split_at_boundary(p, c1);
        assert(vstd::utf8::encode_utf8(p).subrange(0, c1) =~= vstd::utf8::encode_utf8(
            line0,
        ).subrange(0, c1));
        assert(byte_prefix(p, c1) == a);
        assert(parts[0] == byte_suffix(p, c1));
        assert(spliced =~= seq![a + parts[0] + b]);
        assert(a + parts[0] + b =~= (a + parts[0]) + b);
        assert(spliced =~= lines.subrange(lo, hi));
        assert(byte_len(parts[0]) == c2 - c1);
    } else {
        lemma_whole_line(line0);
        assert(parts[0] == byte_suffix(line0, c1));
        let pl = byte_prefix(line1, c2);
        lemma_whole_line(pl);
        assert(parts[k - 1] == pl);
        assert forall|i: int| 0 < i < k - 1 implies parts[i] == lines[lo + i] by {
            lemma_whole_line(lines[lo + i]);
        }
        assert(spliced =~= lines.subrange(lo, hi));
        assert(parts.last() == pl);
    }
    assert(lines_after_insert(rest, first, copied) =~= lines);
}

/// Reading the saved form of `lines` char by char finishes exactly the
/// lines, with nothing under way.
proof fn lemma_scan_saved(lines: Seq<Seq<char>>)
    requires
        forall|i: int| 0 <= i < lines.len() ==> reads_back_as_line(#[trigger] lines[i]),
    ensures
        scan_lines(saved_text(lines)) == (lines, Seq::<char>::empty()),
    decreases lines.len(),
{
    if lines.len() > 0 {
        let init = lines.drop_last();
        assert forall|i: int| 0 <= i < init.len() implies reads_back_as_line(#[trigger] init[i]) by {
            assert(init[i] == lines[i]);
        }
        lemma_scan_saved(init);
        let p = lines.last();
        assert(reads_back_as_line(lines[lines.len() - 1]));
        let g0 = saved_text(init);
        lemma_scan_no_newline(g0, p);
        assert((g0 + p.push('\n')).drop_last() =~= g0 + p);
        assert(Seq::<char>::empty() + p =~= p);
        assert(strip_cr(p) == p);
        assert(init.push(p) =~= lines);
    } else {
        assert(saved_text(lines) =~= Seq::<char>::empty());
    }
}

/// Saving a text and splitting the saved text into lines, as `str::lines`
/// does, gives the text back, when each line reads back as one line.
pub proof fn law_saved_text_reads_back(lines: Seq<Seq<char>>)
    requires
        forall|i: int| 0 <= i < lines.len() ==> reads_back_as_line(#[trigger] lines[i]),
    ensures
        split_lines(saved_text(lines)) == lines,
{
    lemma_scan_saved(lines);
}

/// A horizontal move by one starts from the cursor itself, whatever
/// location a vertical move remembered: within its row the cursor lands
/// one column to the left (or right) of where it was.
pub proof fn law_horizontal_move_from_cursor(m: TextModel, step: isize)
    requires
        step == 1 || step == -1,
        m.text().len() <= usize::MAX,
        forall|i: int| 0 <= i < m.text().len() ==> byte_len(#[trigger] m.text()[i]) <= usize::MAX,
        m.cursor.row < m.text().len(),
        m.cursor.row <= isize::MAX,
        m.cursor.column < isize::MAX,
        0 <= m.cursor.column + step <= byte_len(m.text()[m.cursor.row as int]),
    ensures
        constrained(moved(&m, LocDelta { row: 0, column: step }), m.text()) == (Loc {
            row: m.cursor.row,
            column: (m.cursor.column + step) as usize,
        }),
{
    let d = LocDelta { row: 0, column: step };
    assert(move_base(&m, d) == m.cursor);
    assert((m.cursor.row as isize) as int == m.cursor.row as int);
    assert((m.cursor.column as isize) as int == m.cursor.column as int);
    let lc = last_cursor(m.text());
    assert(lc.row == m.text().len() - 1);
    assert(m.cursor.row == lc.row ==> lc.column == byte_len(m.text()[m.cursor.row as int]));
}

} // verus!
