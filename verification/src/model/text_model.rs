//! Locations, selections and the line-based text model of a document.
//!
//! Columns count bytes of a line's UTF-8 encoding, as `str::len` does.
use vstd::prelude::*;
use crate::ext::im_lines::{
    line_items, lines_append, lines_clone, lines_get, lines_last, lines_len, lines_new,
    lines_push_back, lines_remove, lines_unit, lines_insert, lines_set, lines_slice,
};
use crate::ext::std_items::string_push;
use crate::utf8_text::{
    at_boundary, byte_len, byte_prefix, byte_suffix, split_line, split_lines, str_byte_len,
    text_lines, views,
};

verus! {

/// Location in text.
#[derive(PartialEq, Eq, PartialOrd, Ord, Default, Copy, Clone, Debug, Structural)]
pub struct Loc {
    pub row: usize,
    pub column: usize,
}

/// The order of locations: by row, then by column.
pub open spec fn loc_le(a: Loc, b: Loc) -> bool {
    a.row < b.row || (a.row == b.row && a.column <= b.column)
}

/// The smaller of two locations; the first one when they are equal.
pub open spec fn loc_min(a: Loc, b: Loc) -> Loc {
    if loc_le(a, b) { a } else { b }
}

/// The larger of two locations; the second one when they are equal.
pub open spec fn loc_max(a: Loc, b: Loc) -> Loc {
    if loc_le(a, b) { b } else { a }
}

/// `x` read as `isize` (as `as` converts it) plus `d`, floored at zero.
pub open spec fn shifted(x: usize, d: isize) -> int {
    if (x as isize) + d < 0 { 0 } else { (x as isize) + d }
}

/// `x` read as `isize`, plus `d`, is computed in `isize` without
/// overflow.
pub open spec fn shift_fits(x: usize, d: isize) -> bool {
    isize::MIN <= (x as isize) + d <= isize::MAX
}

fn loc_le_exec(a: &Loc, b: &Loc) -> (r: bool)
    ensures
        r == loc_le(*a, *b),
{
    a.row < b.row || (a.row == b.row && a.column <= b.column)
}

fn loc_min_exec(a: Loc, b: Loc) -> (r: Loc)
    ensures
        r == loc_min(a, b),
{
    if loc_le_exec(&a, &b) { a } else { b }
}

fn loc_max_exec(a: Loc, b: Loc) -> (r: Loc)
    ensures
        r == loc_max(a, b),
{
    if loc_le_exec(&a, &b) { b } else { a }
}

fn shift(x: usize, d: isize) -> (r: usize)
    requires
        shift_fits(x, d),
    ensures
        r == shifted(x, d),
{
    let s: isize = (x as isize) + d;
    if s < 0 { 0 } else { s as usize }
}

impl Loc {
    pub fn new(row: usize, column: usize) -> (l: Loc)
        ensures
            l == (Loc { row, column }),
    {
        Loc { row, column }
    }

    pub fn zero() -> (l: Loc)
        ensures
            l == (Loc { row: 0, column: 0 }),
    {
        Loc { row: 0, column: 0 }
    }

    /// Moves by `offset` in both coordinates, stopping at zero.
    pub fn offset(&self, offset: LocDelta) -> (l: Loc)
        requires
            shift_fits(self.row, offset.row),
            shift_fits(self.column, offset.column),
        ensures
            l.row == shifted(self.row, offset.row),
            l.column == shifted(self.column, offset.column),
    {
        Loc { row: shift(self.row, offset.row), column: shift(self.column, offset.column) }
    }

    /// Adds `offset`; when it moves down a row, the column becomes the
    /// offset's own column.
    ///
    /// Examples:
    /// - (10, 5) + (0, 5) = (10, 10)
    /// - (10, 5) + (10, 7) = (20, *7*)
    pub fn add_wrapped(&self, offset: Loc) -> (l: Loc)
        requires
            offset.row == 0 ==> self.column + offset.column <= usize::MAX,
            offset.row != 0 ==> self.row + offset.row <= usize::MAX,
        ensures
            l == (if offset.row == 0 {
                Loc { row: self.row, column: (self.column + offset.column) as usize }
            } else {
                Loc { row: (self.row + offset.row) as usize, column: offset.column }
            }),
    {
        if offset.row == 0 {
            Loc { row: self.row, column: self.column + offset.column }
        } else {
            Loc { row: self.row + offset.row, column: offset.column }
        }
    }

    pub fn with_row(&self, row: usize) -> (l: Self)
        ensures
            l == (Loc { row, column: self.column }),
    {
        Self { column: self.column, row }
    }

    pub fn with_column(&self, column: usize) -> (l: Self)
        ensures
            l == (Loc { row: self.row, column }),
    {
        Self { column, row: self.row }
    }
}

impl From<(usize, usize)> for Loc {
    fn from(tuple: (usize, usize)) -> (l: Self) {
        Loc::new(tuple.0, tuple.1)
    }
}

impl vstd::std_specs::convert::FromSpecImpl<(usize, usize)> for Loc {
    open spec fn obeys_from_spec() -> bool {
        true
    }

    open spec fn from_spec(tuple: (usize, usize)) -> Loc {
        Loc { row: tuple.0, column: tuple.1 }
    }
}

/// A signed movement of a location.
#[derive(Default, Debug, Clone, Copy)]
pub struct LocDelta {
    pub row: isize,
    pub column: isize,
}

impl LocDelta {
    pub fn new(row: isize, column: isize) -> (d: LocDelta)
        ensures
            d == (LocDelta { row, column }),
    {
        LocDelta { row, column }
    }
}

impl From<(isize, isize)> for LocDelta {
    fn from(tuple: (isize, isize)) -> (d: Self) {
        LocDelta::new(tuple.0, tuple.1)
    }
}

impl vstd::std_specs::convert::FromSpecImpl<(isize, isize)> for LocDelta {
    open spec fn obeys_from_spec() -> bool {
        true
    }

    open spec fn from_spec(tuple: (isize, isize)) -> LocDelta {
        LocDelta { row: tuple.0, column: tuple.1 }
    }
}

/// A selection between two locations.
///
/// `start`/`end` are the logical start and end of the selection;
/// `first`/`last` are the same two locations in text order.
#[derive(Default, Debug, Clone, Copy)]
pub struct Selection {
    pub first: Loc,
    pub last: Loc,
    pub start: Loc,
    pub end: Loc,
}

impl Selection {
    /// The selection is ordered: `first` and `last` are `start` and `end`
    /// in text order.
    pub open spec fn well_ordered(&self) -> bool {
        &&& self.first == loc_min(self.start, self.end)
        &&& self.last == loc_max(self.start, self.end)
    }

    pub fn new(start: Loc, end: Loc) -> (s: Self)
        ensures
            s.start == start,
            s.end == end,
            s.first == loc_min(start, end),
            s.last == loc_max(start, end),
            s.well_ordered(),
            loc_le(s.first, s.last),
    {
        Selection { start, end, first: loc_min_exec(start, end), last: loc_max_exec(start, end) }
    }

    pub fn empty() -> (s: Self)
        ensures
            s == Selection::empty_spec(),
    {
        Self::new(Loc::zero(), Loc::zero())
    }

    pub fn with_end(&self, end: Loc) -> (s: Self)
        ensures
            s.start == self.start,
            s.end == end,
            s.well_ordered(),
    {
        Selection::new(self.start, end)
    }

    pub fn is_empty(&self) -> (b: bool)
        ensures
            b == (self.start == self.end),
    {
        self.start == self.end
    }
}

impl Loc {
    pub open spec fn zero_spec() -> Loc {
        Loc { row: 0, column: 0 }
    }
}

impl Selection {
    /// The empty selection at the start of the text.
    pub open spec fn empty_spec() -> Selection {
        Selection {
            first: Loc::zero_spec(),
            last: Loc::zero_spec(),
            start: Loc::zero_spec(),
            end: Loc::zero_spec(),
        }
    }
}


/// The location just past the end of the text `lines`.
pub open spec fn last_cursor(lines: Seq<Seq<char>>) -> Loc {
    if lines.len() == 0 {
        Loc { row: 0, column: 0 }
    } else {
        Loc { row: (lines.len() - 1) as usize, column: byte_len(lines.last()) as usize }
    }
}

/// The byte length of line `row`, or 0 past the end.
pub open spec fn row_len(lines: Seq<Seq<char>>, row: int) -> int {
    if 0 <= row < lines.len() { byte_len(lines[row]) as int } else { 0 }
}

/// `c` moved into the text: no later than its end, and no further right
/// than the end of its row.
pub open spec fn constrained(c: Loc, lines: Seq<Seq<char>>) -> Loc {
    let m = loc_min(c, last_cursor(lines));
    Loc {
        row: m.row,
        column: if m.column <= row_len(lines, m.row as int) { m.column } else { row_len(
            lines,
            m.row as int,
        ) as usize },
    }
}

/// `c` moved to no later than the end of the text.
pub open spec fn constrained_only_row(c: Loc, lines: Seq<Seq<char>>) -> Loc {
    loc_min(c, last_cursor(lines))
}

/// A location inside the text: on an existing row (row 0 of an empty
/// text) and no further right than that row's end.
pub open spec fn within(c: Loc, lines: Seq<Seq<char>>) -> bool {
    &&& (c.row < lines.len() || c.row == 0)
    &&& c.column <= row_len(lines, c.row as int)
}

/// The text held by a vector of lines.
pub open spec fn text_of(v: im::Vector<String>) -> Seq<Seq<char>> {
    views(line_items(v))
}

fn get_last_cursor(lines: &im::Vector<String>) -> (l: Loc)
    ensures
        l == last_cursor(text_of(*lines)),
        l.column == row_len(text_of(*lines), l.row as int),
{
    let n = lines_len(lines);
    let row: usize = if n == 0 { 0 } else { n - 1 };
    let column: usize = match lines_last(lines) {
        Some(x) => str_byte_len(x.as_str()),
        None => 0,
    };
    Loc::new(row, column)
}

impl Loc {
    /// Moves the location into `lines`: first no later than the end of
    /// the text, then no further right than the end of its row.
    pub fn constrain(&self, lines: &im::Vector<String>) -> (l: Loc)
        ensures
            l == constrained(*self, text_of(*lines)),
            within(l, text_of(*lines)),
    {
        let lc = get_last_cursor(lines);
        let cursor = loc_min_exec(*self, lc);
        let max_col: usize = match lines_get(lines, cursor.row) {
            Some(x) => str_byte_len(x.as_str()),
            None => 0,
        };
        let column = if cursor.column <= max_col { cursor.column } else { max_col };
        Loc::new(cursor.row, column)
    }

    /// Moves the location to no later than the end of `lines`.
    pub fn constrain_only_row(&self, lines: &im::Vector<String>) -> (l: Loc)
        ensures
            l == constrained_only_row(*self, text_of(*lines)),
            l.row < text_of(*lines).len() || l.row == 0,
    {
        let lc = get_last_cursor(lines);
        loc_min_exec(*self, lc)
    }
}

/// The text of an open document and its cursor.
#[derive(Debug)]
pub struct TextModel {
    pub lines: im::Vector<String>,
    pub cursor: Loc,
    /// The location a vertical movement started from, kept while the
    /// cursor moves up and down through shorter rows.
    pub original_cursor: Option<Loc>,
}

impl Clone for TextModel {
    fn clone(&self) -> (r: Self)
        ensures
            r.text() == self.text(),
            r.cursor == self.cursor,
            r.original_cursor == self.original_cursor,
    {
        TextModel {
            lines: lines_clone(&self.lines),
            cursor: self.cursor,
            original_cursor: self.original_cursor,
        }
    }
}

impl Default for TextModel {
    fn default() -> (r: Self)
        ensures
            r.text() == Seq::<Seq<char>>::empty(),
            r.cursor == Loc::zero_spec(),
            r.original_cursor is None,
    {
        TextModel::new()
    }
}

/// Where a vertical or horizontal movement by `offset` starts from.
pub open spec fn move_base(m: &TextModel, offset: LocDelta) -> Loc {
    if offset.column == 0 {
        match m.original_cursor {
            Some(c) => c,
            None => m.cursor,
        }
    } else {
        m.cursor
    }
}

/// The start of the movement, moved by `offset`.
pub open spec fn moved(m: &TextModel, offset: LocDelta) -> Loc {
    let b = move_base(m, offset);
    Loc { row: shifted(b.row, offset.row) as usize, column: shifted(b.column, offset.column) as usize }
}

impl TextModel {
    /// The lines of the document.
    pub open spec fn text(&self) -> Seq<Seq<char>> {
        text_of(self.lines)
    }

    pub fn new() -> (r: Self)
        ensures
            r.text() == Seq::<Seq<char>>::empty(),
            r.cursor == Loc::zero_spec(),
            r.original_cursor is None,
    {
        let lines = lines_new();
        assert(text_of(lines) =~= Seq::<Seq<char>>::empty());
        TextModel { lines, cursor: Loc::zero(), original_cursor: None }
    }

    /// The same model with its lines replaced by `lines` (the lines read
    /// from a file).
    pub fn load_from_lines(&self, lines: Vec<String>) -> (r: Self)
        ensures
            r.text() == views(lines@),
            r.cursor == self.cursor,
            r.original_cursor == self.original_cursor,
    {
        let mut v = lines_new();
        let n = lines.len();
        for i in 0..n
            invariant
                n == lines.len(),
                line_items(v) == lines@.take(i as int),
        {
            lines_push_back(&mut v, lines[i].clone());
            assert(lines@.take(i + 1) =~= lines@.take(i as int).push(lines@[i as int]));
        }
        assert(lines@.take(n as int) =~= lines@);
        TextModel { lines: v, cursor: self.cursor, original_cursor: self.original_cursor }
    }

    /// Moves the cursor by `offset` and keeps it inside the text.
    ///
    /// A purely vertical movement starts from the remembered column
    /// (`original_cursor`) and remembers it again; any other movement
    /// forgets it.
    pub fn move_cursor(&self, offset: LocDelta) -> (r: Self)
        requires
            shift_fits(move_base(self, offset).row, offset.row),
            shift_fits(move_base(self, offset).column, offset.column),
        ensures
            r.text() == self.text(),
            r.cursor == constrained(moved(self, offset), self.text()),
            within(r.cursor, self.text()),
            r.original_cursor == (if offset.column == 0 {
                Some(constrained_only_row(moved(self, offset), self.text()))
            } else {
                None::<Loc>
            }),
    {
        let lines = lines_clone(&self.lines);
        if offset.column == 0 {
            let base = match self.original_cursor {
                Some(c) => c,
                None => self.cursor,
            };
            let target = base.offset(offset);
            let cursor = target.constrain(&self.lines);
            let original = target.constrain_only_row(&self.lines);
            TextModel { lines, cursor, original_cursor: Some(original) }
        } else {
            let target = self.cursor.offset(offset);
            let cursor = target.constrain(&self.lines);
            TextModel { lines, cursor, original_cursor: None }
        }
    }
}


/// The lines `data` adds: its lines, or one empty line when it has none.
pub open spec fn inserted_block(data: Seq<char>) -> Seq<Seq<char>> {
    if split_lines(data).len() == 0 { seq![Seq::<char>::empty()] } else { split_lines(data) }
}

/// `block` put into `line` at byte offset `col`: the part of `line` before
/// `col` goes in front of the block's first line, the rest after its last.
pub open spec fn splice_block(line: Seq<char>, col: int, block: Seq<Seq<char>>) -> Seq<Seq<char>> {
    let with_front = block.update(0, byte_prefix(line, col) + block[0]);
    with_front.update(
        with_front.len() - 1,
        with_front.last() + byte_suffix(line, col),
    )
}

/// The text after inserting `data` at `cursor`; past the last row the
/// block is appended.
pub open spec fn lines_after_insert(lines: Seq<Seq<char>>, cursor: Loc, data: Seq<char>) -> Seq<
    Seq<char>,
> {
    let block = inserted_block(data);
    if cursor.row < lines.len() {
        lines.take(cursor.row as int) + splice_block(lines[cursor.row as int], cursor.column as int, block)
            + lines.skip(cursor.row + 1)
    } else {
        lines + block
    }
}

/// Where the cursor lands after inserting `data` at `cursor`: moved by the
/// size of the inserted lines.
pub open spec fn cursor_after_insert(cursor: Loc, data: Seq<char>) -> Loc {
    let d = split_lines(data);
    if d.len() <= 1 {
        Loc {
            row: cursor.row,
            column: (cursor.column + (if d.len() == 0 { 0 } else { byte_len(d[0]) })) as usize,
        }
    } else {
        Loc { row: (cursor.row + d.len() - 1) as usize, column: byte_len(d.last()) as usize }
    }
}

/// `insert` does not panic: the cursor is at a char boundary of its row,
/// or at the end of the text, and the new cursor fits in `usize`.
pub open spec fn can_insert(lines: Seq<Seq<char>>, cursor: Loc, data: Seq<char>) -> bool {
    let d = split_lines(data);
    &&& cursor.row < lines.len() ==> at_boundary(lines[cursor.row as int], cursor.column as int)
    &&& cursor.row >= lines.len() ==> (cursor.row == lines.len() || lines.len() == 0)
    &&& d.len() <= 1 ==> cursor.column + (if d.len() == 0 { 0 } else { byte_len(d[0]) })
        <= usize::MAX
    &&& d.len() > 1 ==> cursor.row + d.len() - 1 <= usize::MAX
}

impl TextModel {
    /// Inserts `data` at the cursor, which moves past it.
    #[verifier::rlimit(30)]
    pub fn insert(&self, data: &str) -> (r: Self)
        requires
            can_insert(self.text(), self.cursor, data@),
        ensures
            r.text() == lines_after_insert(self.text(), self.cursor, data@),
            r.cursor == cursor_after_insert(self.cursor, data@),
            r.original_cursor is None,
    {
        let row = self.cursor.row;
        let pieces = text_lines(data);
        let mut inbetween = lines_new();
        let n = pieces.len();
        for i in 0..n
            invariant
                n == pieces.len(),
                line_items(inbetween) == pieces@.take(i as int),
        {
            lines_push_back(&mut inbetween, pieces[i].clone());
            assert(pieces@.take(i + 1) =~= pieces@.take(i as int).push(pieces@[i as int]));
        }
        assert(pieces@.take(n as int) =~= pieces@);
        let ghost d = split_lines(data@);
        assert(text_of(inbetween) == d);
        let cursor = self.cursor.add_wrapped(get_last_cursor(&inbetween));
        if lines_len(&inbetween) == 0 {
            lines_push_back(&mut inbetween, String::new());
        }
        let ghost block = inserted_block(data@);
        assert(text_of(inbetween) =~= block);
        match lines_get(&self.lines, row) {
            Some(line) => {
                let ghost l = line@;
                let (a, b) = split_line(line.as_str(), self.cursor.column);
                let first = lines_get(&inbetween, 0).unwrap().clone();
                let new_first = a.concat(first.as_str());
                lines_set(&mut inbetween, 0, new_first);
                let ghost with_front = block.update(0, byte_prefix(l, self.cursor.column as int) + block[0]);
                assert(text_of(inbetween) =~= with_front);
                let k = lines_len(&inbetween) - 1;
                let last = lines_get(&inbetween, k).unwrap().clone();
                let new_last = last.concat(b.as_str());
                lines_set(&mut inbetween, k, new_last);
                assert(text_of(inbetween) =~= splice_block(l, self.cursor.column as int, block));
            },
            None => {},
        }
        let mut lines = lines_clone(&self.lines);
        let pre = lines_slice(&mut lines, 0, row);
        let rest = lines_len(&lines);
        let post = lines_slice(&mut lines, 1, rest);
        let mut out = pre;
        lines_append(&mut out, inbetween);
        lines_append(&mut out, post);
        proof {
            let t = self.text();
            let it = line_items(self.lines);
            if row < t.len() {
                assert(line_items(pre) =~= it.take(row as int));
                assert(line_items(post) =~= it.skip(row + 1));
            } else {
                assert(line_items(pre) =~= it);
                assert(line_items(post) =~= Seq::<String>::empty());
            }
            assert(text_of(out) =~= lines_after_insert(t, self.cursor, data@));
        }
        TextModel { lines: out, cursor, original_cursor: None }
    }
}


/// `backspace_key` does not panic: a row being joined to the previous one
/// exists, a char being removed starts at a char boundary inside its row,
/// and the coordinate that moves back by one can be moved in `isize`.
pub open spec fn can_backspace(lines: Seq<Seq<char>>, cursor: Loc) -> bool {
    cursor != Loc::zero_spec() ==> {
        &&& cursor.column == 0 ==> cursor.row < lines.len() && shift_fits(cursor.row, -1isize)
        &&& cursor.column > 0 ==> shift_fits(cursor.column, -1isize)
        &&& (cursor.column > 0 && cursor.row < lines.len()) ==> {
            &&& at_boundary(lines[cursor.row as int], cursor.column - 1)
            &&& cursor.column - 1 < byte_len(lines[cursor.row as int])
        }
    }
}

/// Line `line` without the char that starts at byte offset `at`.
pub open spec fn without_char_at(line: Seq<char>, at: int) -> Seq<char> {
    byte_prefix(line, at) + byte_suffix(line, at).drop_first()
}

/// The text after a backspace at `cursor`.
pub open spec fn lines_after_backspace(lines: Seq<Seq<char>>, cursor: Loc) -> Seq<Seq<char>> {
    if cursor == Loc::zero_spec() {
        lines
    } else if cursor.column == 0 {
        lines.remove(cursor.row as int).update(
            cursor.row - 1,
            lines[cursor.row - 1] + lines[cursor.row as int],
        )
    } else if cursor.row < lines.len() {
        lines.update(
            cursor.row as int,
            without_char_at(lines[cursor.row as int], cursor.column - 1),
        )
    } else {
        lines
    }
}

/// The cursor after a backspace at `cursor`.
pub open spec fn cursor_after_backspace(lines: Seq<Seq<char>>, cursor: Loc) -> Loc {
    if cursor == Loc::zero_spec() {
        cursor
    } else if cursor.column == 0 {
        Loc {
            row: shifted(cursor.row, -1isize) as usize,
            column: byte_len(lines[cursor.row - 1]) as usize,
        }
    } else {
        Loc { row: shifted(cursor.row, 0isize) as usize, column: shifted(cursor.column, -1isize) as usize }
    }
}

/// The text after breaking row `cursor.row` at the cursor.
pub open spec fn lines_after_newline(lines: Seq<Seq<char>>, cursor: Loc) -> Seq<Seq<char>> {
    let line = lines[cursor.row as int];
    lines.update(cursor.row as int, byte_prefix(line, cursor.column as int)).insert(
        cursor.row + 1,
        byte_suffix(line, cursor.column as int),
    )
}

/// Removes the char that starts at byte offset `at` of `line`.
fn remove_char_at(line: &str, at: usize) -> (r: String)
    requires
        at_boundary(line@, at as int),
        at < byte_len(line@),
    ensures
        r@ == without_char_at(line@, at as int),
{
    let (a, rest) = split_line(line, at);
    proof {
        crate::utf8_text::lemma_split_at_boundary(line@, at as int);
        if rest@.len() == 0 {
            assert(vstd::utf8::encode_utf8(rest@) =~= Seq::<u8>::empty());
        }
    }
    let n = rest.as_str().unicode_len();
    let tail = rest.as_str().substring_char(1, n);
    assert(tail@ =~= rest@.drop_first());
    a.concat(tail)
}

impl TextModel {
    /// Deletes the char left of the cursor; at the start of a row, joins
    /// the row to the previous one.
    pub fn backspace_key(&self) -> (r: Self)
        requires
            can_backspace(self.text(), self.cursor),
        ensures
            r.text() == lines_after_backspace(self.text(), self.cursor),
            r.cursor == cursor_after_backspace(self.text(), self.cursor),
            r.original_cursor == (if self.cursor == Loc::zero_spec() {
                self.original_cursor
            } else {
                None
            }),
    {
        if self.cursor == Loc::zero() {
            return self.clone();
        }
        let mut lines = lines_clone(&self.lines);
        let ghost t = self.text();
        let cursor = if self.cursor.column == 0 {
            let removed = lines_remove(&mut lines, self.cursor.row);
            let mut new_col: usize = 0;
            match lines_get(&lines, self.cursor.row - 1) {
                Some(line) => {
                    new_col = str_byte_len(line.as_str());
                    let joined = line.clone().concat(removed.as_str());
                    lines_set(&mut lines, self.cursor.row - 1, joined);
                },
                None => {},
            }
            assert(text_of(lines) =~= lines_after_backspace(t, self.cursor));
            self.cursor.offset(LocDelta::new(-1, 0)).with_column(new_col)
        } else {
            match lines_get(&lines, self.cursor.row) {
                Some(line) => {
                    let shorter = remove_char_at(line.as_str(), self.cursor.column - 1);
                    lines_set(&mut lines, self.cursor.row, shorter);
                },
                None => {},
            }
            assert(text_of(lines) =~= lines_after_backspace(t, self.cursor));
            self.cursor.offset(LocDelta::new(0, -1))
        };
        TextModel { lines, cursor, original_cursor: None }
    }

    /// Breaks the cursor's row in two at the cursor; the cursor moves to
    /// the start of the new row.
    pub fn insert_newline(&self) -> (r: Self)
        requires
            self.cursor.row < self.text().len(),
            at_boundary(self.text()[self.cursor.row as int], self.cursor.column as int),
        ensures
            r.text() == lines_after_newline(self.text(), self.cursor),
            r.cursor == (Loc { row: (self.cursor.row + 1) as usize, column: 0 }),
            r.original_cursor is None,
    {
        let mut lines = lines_clone(&self.lines);
        let n = lines_len(&lines);
        let (a, b) = match lines_get(&self.lines, self.cursor.row) {
            Some(x) => split_line(x.as_str(), self.cursor.column),
            None => (String::new(), String::new()),
        };
        lines_set(&mut lines, self.cursor.row, a);
        lines_insert(&mut lines, self.cursor.row + 1, b);
        assert(text_of(lines) =~= lines_after_newline(self.text(), self.cursor));
        TextModel {
            lines,
            cursor: self.cursor.add_wrapped(Loc::new(1, 0)),
            original_cursor: None,
        }
    }
}


/// One past the last row a deletion from `first` to `last` touches.
pub open spec fn delete_end(lines: Seq<Seq<char>>, last: Loc) -> int {
    if last.row + 1 < lines.len() { last.row + 1 } else { lines.len() as int }
}

/// The first row a deletion from `first` to `last` touches.
pub open spec fn delete_start(lines: Seq<Seq<char>>, first: Loc, last: Loc) -> int {
    if delete_end(lines, last) == 0 { 0 } else { first.row as int }
}

/// `delete` does not panic: the selection's rows and columns lie on char
/// boundaries of the text.
pub open spec fn can_delete(lines: Seq<Seq<char>>, sel: Selection) -> bool {
    let hi = delete_end(lines, sel.last);
    let lo = delete_start(lines, sel.first, sel.last);
    &&& sel.last.row < usize::MAX
    &&& lo <= hi
    &&& lo < hi ==> at_boundary(lines[lo], sel.first.column as int)
    &&& lo < hi ==> at_boundary(lines[hi - 1], sel.last.column as int)
}

/// The text with the selection cut out: the part of its first row before
/// it joined to the part of its last row after it.
pub open spec fn lines_after_delete(lines: Seq<Seq<char>>, sel: Selection) -> Seq<Seq<char>> {
    let hi = delete_end(lines, sel.last);
    let lo = delete_start(lines, sel.first, sel.last);
    let joined = if lo < hi {
        byte_prefix(lines[lo], sel.first.column as int) + byte_suffix(
            lines[hi - 1],
            sel.last.column as int,
        )
    } else {
        Seq::<char>::empty()
    };
    lines.take(lo) + seq![joined] + lines.skip(hi)
}

/// The part of row `row` inside the selection from `first` to `last`.
pub open spec fn selected_part(line: Seq<char>, row: int, first: Loc, last: Loc) -> Seq<char> {
    let l = if row == first.row { first.column as int } else { 0 };
    let r = if row == last.row { last.column as int } else { byte_len(line) as int };
    byte_suffix(byte_prefix(line, r), l)
}

/// Slicing row `row` for the selection does not panic.
pub open spec fn can_select_row(line: Seq<char>, row: int, first: Loc, last: Loc) -> bool {
    let l = if row == first.row { first.column as int } else { 0 };
    let r = if row == last.row { last.column as int } else { byte_len(line) as int };
    &&& at_boundary(line, r)
    &&& at_boundary(byte_prefix(line, r), l)
}

/// The selected text of the first `k` rows from `first.row` on, each row
/// followed by a line feed; rows past the end of the text give nothing.
pub open spec fn gathered(lines: Seq<Seq<char>>, first: Loc, last: Loc, k: nat) -> Seq<char>
    decreases k,
{
    if k == 0 {
        Seq::empty()
    } else {
        let row = first.row + k - 1;
        gathered(lines, first, last, (k - 1) as nat) + (if row < lines.len() {
            selected_part(lines[row], row, first, last).push('\n')
        } else {
            Seq::empty()
        })
    }
}

/// The number of rows from `first.row` to `last.row`, both included.
pub open spec fn selected_rows(first: Loc, last: Loc) -> nat {
    if first.row <= last.row { (last.row - first.row + 1) as nat } else { 0 }
}

/// The selected text: for each row of the selection, its selected part and
/// a line feed.
pub open spec fn selected_text(lines: Seq<Seq<char>>, sel: Selection) -> Seq<char> {
    gathered(lines, sel.first, sel.last, selected_rows(sel.first, sel.last))
}

/// `get_string` does not panic: each selected row can be sliced.
pub open spec fn can_get_string(lines: Seq<Seq<char>>, sel: Selection) -> bool {
    forall|row: int|
        sel.first.row <= row <= sel.last.row && row < lines.len() ==> #[trigger] can_select_row(
            lines[row],
            row,
            sel.first,
            sel.last,
        )
}

/// The lines joined by line feeds.
pub open spec fn joined(lines: Seq<Seq<char>>) -> Seq<char>
    decreases lines.len(),
{
    if lines.len() == 0 {
        Seq::empty()
    } else if lines.len() == 1 {
        lines[0]
    } else {
        joined(lines.drop_last()).push('\n') + lines.last()
    }
}

proof fn lemma_gathered_past_end(lines: Seq<Seq<char>>, first: Loc, last: Loc, k: nat, m: nat)
    requires
        first.row + k >= lines.len() || k == m,
        k <= m,
    ensures
        gathered(lines, first, last, m) == gathered(lines, first, last, k),
    decreases m,
{
    if m > k {
        lemma_gathered_past_end(lines, first, last, k, (m - 1) as nat);
    }
}

impl TextModel {
    /// Cuts the selection out of the text; the cursor moves to its start.
    #[verifier::rlimit(30)]
    pub fn delete(&self, selection: Selection) -> (r: TextModel)
        requires
            can_delete(self.text(), selection),
        ensures
            r.text() == lines_after_delete(self.text(), selection),
            r.cursor == selection.first,
            r.original_cursor is None,
    {
        let ghost t = self.text();
        let ghost it = line_items(self.lines);
        let mut lines = lines_clone(&self.lines);
        let n = lines_len(&lines);
        let post = lines_slice(&mut lines, selection.last.row + 1, n);
        let pre = lines_slice(&mut lines, 0, selection.first.row);
        let ghost hi = delete_end(t, selection.last);
        let ghost lo = delete_start(t, selection.first, selection.last);
        assert(line_items(post) =~= it.skip(hi));
        assert(line_items(pre) =~= it.take(lo));
        assert(line_items(lines) =~= it.subrange(lo, hi));
        let front: String = match lines_get(&lines, 0) {
            Some(x) => split_line(x.as_str(), selection.first.column).0,
            None => String::new(),
        };
        let back: String = match lines_last(&lines) {
            Some(x) => split_line(x.as_str(), selection.last.column).1,
            None => String::new(),
        };
        let middle = lines_unit(front.concat(back.as_str()));
        let mut out = pre;
        lines_append(&mut out, middle);
        lines_append(&mut out, post);
        assert(text_of(out) =~= lines_after_delete(t, selection));
        TextModel { lines: out, cursor: selection.first, original_cursor: None }
    }

    /// The selected text, each selected row followed by a line feed.
    pub fn get_string(&self, selection: Selection) -> (r: String)
        requires
            can_get_string(self.text(), selection),
        ensures
            r@ == selected_text(self.text(), selection),
    {
        let ghost t = self.text();
        let mut result = String::new();
        let n = lines_len(&self.lines);
        if selection.first.row > selection.last.row || selection.first.row >= n {
            proof {
                assert(gathered(t, selection.first, selection.last, 0) =~= Seq::<char>::empty());
                lemma_gathered_past_end(t, selection.first, selection.last, 0, selected_rows(selection.first, selection.last));
            }
            return result;
        }
        let end: usize = if selection.last.row < n { selection.last.row } else { n - 1 };
        let mut row = selection.first.row;
        while row <= end
            invariant
                selection.first.row <= row <= end + 1,
                end < n,
                n == t.len(),
                end <= selection.last.row,
                t == self.text(),
                can_get_string(t, selection),
                result@ == gathered(t, selection.first, selection.last, (row - selection.first.row) as nat),
            decreases end + 1 - row,
        {
            let line = lines_get(&self.lines, row).unwrap();
            let l: usize = if row == selection.first.row { selection.first.column } else { 0 };
            let r: usize = if row == selection.last.row { selection.last.column } else { str_byte_len(line.as_str()) };
            assert(can_select_row(t[row as int], row as int, selection.first, selection.last));
            let (left, _) = split_line(line.as_str(), r);
            let (_, part) = split_line(left.as_str(), l);
            result.append(part.as_str());
            string_push(&mut result, '\n');
            row = row + 1;
        }
        proof {
            lemma_gathered_past_end(t, selection.first, selection.last, (end + 1 - selection.first.row) as nat, selected_rows(selection.first, selection.last));
        }
        result
    }

    /// The text with its lines joined by line feeds.
    pub fn to_string(&self) -> (r: String)
        ensures
            r@ == joined(self.text()),
    {
        let ghost t = self.text();
        let mut result = String::new();
        let n = lines_len(&self.lines);
        let mut i: usize = 0;
        while i < n
            invariant
                i <= n,
                n == t.len(),
                t == self.text(),
                result@ == joined(t.take(i as int)),
            decreases n - i,
        {
            let line = lines_get(&self.lines, i).unwrap();
            if i > 0 {
                string_push(&mut result, '\n');
            }
            result.append(line.as_str());
            assert(t.take(i + 1).drop_last() =~= t.take(i as int));
            if i == 0 {
                assert(joined(t.take(1)) == t.take(1)[0]);
            }
            i = i + 1;
        }
        assert(t.take(n as int) =~= t);
        result
    }
}

impl TextModel {
    /// A copy of the model, changed by `f`; the model itself stays as it
    /// is.
    pub fn map<F: FnOnce(&mut TextModel)>(&self, f: F) -> (r: Self)
        requires
            forall|d: &mut TextModel|
                (*d).text() == self.text() && (*d).cursor == self.cursor && (*d).original_cursor
                    == self.original_cursor ==> #[trigger] f.requires((d,)),
        ensures
            exists|d: &mut TextModel|
                #![trigger f.ensures((d,), ())]
                {
                    &&& (*d).text() == self.text()
                    &&& (*d).cursor == self.cursor
                    &&& (*d).original_cursor == self.original_cursor
                    &&& f.ensures((d,), ())
                    &&& r == *final(d)
                },
    {
        let mut doc = self.clone();
        f(&mut doc);
        doc
    }
}

} // verus!
