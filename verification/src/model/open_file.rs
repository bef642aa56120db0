//! A file open in the editor: its text, undo history and selection.
use vstd::prelude::*;
use std::collections::VecDeque;
use crate::ext::std_items::{duration_secs, instant_elapsed, instant_now, path_new, string_push};
use crate::model::text_model::{Loc, Selection, TextModel};
use crate::ext::im_lines::{lines_get, lines_len};

verus! {

/// Two models hold the same text, cursor and remembered column.
pub open spec fn same_model(a: TextModel, b: TextModel) -> bool {
    &&& a.text() == b.text()
    &&& a.cursor == b.cursor
    &&& a.original_cursor == b.original_cursor
}

/// The older history kept below a new entry: an edit within a second of
/// the last one replaces the newest entry, and the oldest entry falls off
/// when the history would grow past 100 entries.
pub open spec fn kept_history(undo: Seq<TextModel>, recent: bool) -> Seq<TextModel> {
    let base = if recent && undo.len() > 0 { undo.drop_first() } else { undo };
    if base.len() + 1 > 100 { base.drop_last() } else { base }
}

/// An edit whose last predecessor was `elapsed` whole seconds ago (none:
/// there was none) merges with it: less than one second.
pub open spec fn is_recent(elapsed: Option<u64>) -> bool {
    elapsed matches Some(secs) && secs < 1
}

/// The text a file is saved as: each line followed by a line feed.
pub open spec fn saved_text(lines: Seq<Seq<char>>) -> Seq<char>
    decreases lines.len(),
{
    if lines.len() == 0 {
        Seq::empty()
    } else {
        saved_text(lines.drop_last()) + lines.last().push('\n')
    }
}

/// A file open in the editor.
pub struct OpenFile {
    pub model: TextModel,
    /// Earlier states, newest first.
    pub undo_stack: VecDeque<TextModel>,
    pub redo_stack: VecDeque<TextModel>,
    pub path: std::path::PathBuf,
    pub selection: Selection,
    pub last_edit_time: Option<std::time::Instant>,
}

impl Default for OpenFile {
    fn default() -> (r: Self)
        ensures
            r.model.text() == Seq::<Seq<char>>::empty(),
            r.model.cursor == Loc::zero_spec(),
            r.model.original_cursor is None,
            r.undo_stack@.len() == 0,
            r.redo_stack@.len() == 0,
            r.selection == Selection::empty_spec(),
            r.last_edit_time is None,
    {
        OpenFile {
            model: TextModel::new(),
            undo_stack: VecDeque::new(),
            redo_stack: VecDeque::new(),
            path: path_new(),
            selection: Selection::empty(),
            last_edit_time: None,
        }
    }
}

impl OpenFile {
    /// The file at `path` holding `model` (the text read from it), with no
    /// history and no selection.
    pub fn new(path: std::path::PathBuf, model: TextModel) -> (r: Self)
        ensures
            r.model == model,
            r.path == path,
            r.undo_stack@.len() == 0,
            r.redo_stack@.len() == 0,
            r.selection == Selection::empty_spec(),
            r.last_edit_time is None,
    {
        OpenFile {
            model,
            undo_stack: VecDeque::new(),
            redo_stack: VecDeque::new(),
            path,
            selection: Selection::empty(),
            last_edit_time: None,
        }
    }

    /// The text `save` writes: each line followed by a line feed.
    pub fn save_text(&self) -> (r: String)
        ensures
            r@ == saved_text(self.model.text()),
    {
        let ghost t = self.model.text();
        let mut out = String::new();
        let n = lines_len(&self.model.lines);
        for i in 0..n
            invariant
                n == t.len(),
                t == self.model.text(),
                out@ == saved_text(t.take(i as int)),
        {
            let line = lines_get(&self.model.lines, i).unwrap();
            out.append(line.as_str());
            string_push(&mut out, '\n');
            assert(t.take(i + 1).drop_last() =~= t.take(i as int));
        }
        assert(t.take(n as int) =~= t);
        out
    }

    /// Makes `model` the file's text and records it in the history, given
    /// whether the last edit was less than a second ago and the time now.
    pub fn record_edit_at(&mut self, model: TextModel, recent: bool, now: std::time::Instant)
        ensures
            final(self).model == model,
            final(self).undo_stack@.len() == kept_history(old(self).undo_stack@, recent).len() + 1,
            same_model(final(self).undo_stack@[0], model),
            final(self).undo_stack@.drop_first() == kept_history(old(self).undo_stack@, recent),
            final(self).redo_stack@.len() == 0,
            final(self).last_edit_time == Some(now),
            final(self).path == old(self).path,
            final(self).selection == old(self).selection,
    {
        self.model = model;
        if recent {
            self.undo_stack.pop_front();
        }
        self.undo_stack.push_front(self.model.clone());
        if self.undo_stack.len() > 100 {
            self.undo_stack.pop_back();
        }
        self.redo_stack.clear();
        self.last_edit_time = Some(now);
        proof {
            let u = old(self).undo_stack@;
            let base = if recent && u.len() > 0 { u.drop_first() } else { u };
            assert(u.len() > 0 ==> u.subrange(1, u.len() as int) =~= u.drop_first());
            let pushed = seq![self.undo_stack@[0]] + base;
            if pushed.len() > 100 {
                assert(self.undo_stack@.drop_first() =~= base.drop_last());
            } else {
                assert(self.undo_stack@.drop_first() =~= base);
            }
        }
    }

    /// Makes `model` the file's text and records it in the history, given
    /// the whole seconds passed since the last edit (`None` when there was
    /// none) and the time now: an edit less than a second after the last
    /// one replaces the newest entry.
    pub fn record_edit_after(&mut self, model: TextModel, elapsed: Option<u64>, now: std::time::Instant)
        ensures
            final(self).model == model,
            final(self).undo_stack@.len() > 0,
            same_model(final(self).undo_stack@[0], model),
            final(self).undo_stack@.drop_first() == kept_history(
                old(self).undo_stack@,
                is_recent(elapsed),
            ),
            final(self).redo_stack@.len() == 0,
            final(self).last_edit_time == Some(now),
            final(self).path == old(self).path,
            final(self).selection == old(self).selection,
    {
        let recent = match elapsed {
            Some(secs) => secs < 1,
            None => false,
        };
        self.record_edit_at(model, recent, now);
    }

    /// Makes `model` the file's text and records it in the history, as an
    /// edit made now.
    pub fn record_edit(&mut self, model: TextModel)
        ensures
            final(self).model == model,
            final(self).undo_stack@.len() > 0,
            same_model(final(self).undo_stack@[0], model),
            final(self).undo_stack@.drop_first() == kept_history(old(self).undo_stack@, true)
                || final(self).undo_stack@.drop_first() == kept_history(old(self).undo_stack@, false),
            old(self).last_edit_time is None ==> final(self).undo_stack@.drop_first() == kept_history(
                old(self).undo_stack@,
                false,
            ),
            final(self).redo_stack@.len() == 0,
            final(self).last_edit_time is Some,
            final(self).path == old(self).path,
            final(self).selection == old(self).selection,
    {
        let elapsed = match &self.last_edit_time {
            Some(t) => Some(duration_secs(&instant_elapsed(t))),
            None => None,
        };
        let now = instant_now();
        self.record_edit_after(model, elapsed, now);
    }
}

/// The history never holds more than 100 entries: an edit recorded on a
/// history of at most 100 entries leaves at most 100.
pub proof fn law_history_bounded(undo: Seq<TextModel>, recent: bool)
    requires
        undo.len() <= 100,
    ensures
        kept_history(undo, recent).len() + 1 <= 100,
{
}

} // verus!
