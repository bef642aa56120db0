//! The modal input machine: chars typed in a mode become editor actions
//! and possibly a change of mode.
use vstd::prelude::*;
pub use crate::ext::small_vec::{EditorActions, KeybindActions};
use crate::ext::small_vec::{editor_action_items, keybind_action_items};
use crate::model::LocDelta;

verus! {

/// The input mode.
#[derive(Debug, PartialEq, Eq, Structural, Clone, Copy)]
pub enum Mode {
    Normal,
    Insert,
    Visual,
}

/// The input machine's state.
#[derive(Debug)]
pub struct VimInput {
    pub mode: Mode,
}

/// A place the cursor can be sent to.
#[derive(Debug, Clone, Copy)]
pub enum Location {
    StartOfLine,
    EndOfLine,
    FirstLine,
    LastLine,
    Offset(LocDelta),
}

/// An edit the editor performs on the open file.
#[derive(Debug, Clone)]
pub enum EditorAction {
    InsertString(String),
    DeleteLeft,
    InsertNewline,
    Copy,
    Cut,
    Paste,
    BeginSelection,
    EndSelection,
    GoTo(Location),
}

/// What a key bound in a mode does.
#[derive(Debug)]
pub enum KeybindAction {
    PerformEditorActions(EditorActions),
    EnterInsertMode,
    EnterVisualMode,
}


/// The mode after performing `acts` in mode `mode`.
pub open spec fn performed_mode(mode: Mode, acts: Seq<KeybindAction>) -> Mode
    decreases acts.len(),
{
    if acts.len() == 0 {
        mode
    } else {
        match acts.last() {
            KeybindAction::EnterInsertMode => Mode::Insert,
            KeybindAction::EnterVisualMode => Mode::Visual,
            KeybindAction::PerformEditorActions(_) => performed_mode(mode, acts.drop_last()),
        }
    }
}

/// The editor actions that performing `acts` yields, in order.
pub open spec fn performed_actions(acts: Seq<KeybindAction>) -> Seq<EditorAction>
    decreases acts.len(),
{
    if acts.len() == 0 {
        Seq::empty()
    } else {
        performed_actions(acts.drop_last()) + match acts.last() {
            KeybindAction::EnterInsertMode => Seq::<EditorAction>::empty(),
            KeybindAction::EnterVisualMode => seq![EditorAction::BeginSelection],
            KeybindAction::PerformEditorActions(v) => editor_action_items(v),
        }
    }
}

/// The chars bound in normal mode.
pub open spec fn bound_in_normal(c: char) -> bool {
    c == 'i' || c == 'a' || c == '$' || c == '0' || c == 'A' || c == 'I' || c == 'g' || c == 'G'
        || c == 'v' || c == 'p'
}

/// The mode a normal-mode key leads to.
pub open spec fn normal_mode_after(c: char) -> Mode {
    if c == 'i' || c == 'a' || c == 'A' || c == 'I' {
        Mode::Insert
    } else if c == 'v' {
        Mode::Visual
    } else {
        Mode::Normal
    }
}

/// The editor actions a normal-mode key yields.
pub open spec fn normal_actions(c: char) -> Seq<EditorAction> {
    if c == 'a' {
        seq![EditorAction::GoTo(Location::Offset(LocDelta { row: 0, column: 1 }))]
    } else if c == '$' || c == 'A' {
        seq![EditorAction::GoTo(Location::EndOfLine)]
    } else if c == '0' || c == 'I' {
        seq![EditorAction::GoTo(Location::StartOfLine)]
    } else if c == 'g' {
        seq![EditorAction::GoTo(Location::FirstLine)]
    } else if c == 'G' {
        seq![EditorAction::GoTo(Location::LastLine)]
    } else if c == 'v' {
        seq![EditorAction::BeginSelection]
    } else if c == 'p' {
        seq![EditorAction::Paste]
    } else {
        Seq::empty()
    }
}

/// The chars bound in visual mode.
pub open spec fn bound_in_visual(c: char) -> bool {
    c == 'y' || c == 'd'
}

/// The editor actions a visual-mode key yields.
pub open spec fn visual_actions(c: char) -> Seq<EditorAction> {
    if c == 'y' {
        seq![EditorAction::Copy]
    } else if c == 'd' {
        seq![EditorAction::Cut]
    } else {
        Seq::empty()
    }
}

/// The mode after typing `c` in `mode`.
pub open spec fn mode_after(mode: Mode, c: char) -> Mode {
    match mode {
        Mode::Normal => normal_mode_after(c),
        Mode::Insert => if c == '\x1B' { Mode::Normal } else { Mode::Insert },
        Mode::Visual => if c == '\x1B' || bound_in_visual(c) { Mode::Normal } else { Mode::Visual },
    }
}

/// `acts` are the editor actions that typing `c` in `mode` yields: in
/// insert mode a carriage return breaks the line, a backspace deletes left,
/// escape and other control chars yield nothing, and any other char is
/// inserted as a one-char string.
pub open spec fn typed_actions(mode: Mode, c: char, acts: Seq<EditorAction>) -> bool {
    match mode {
        Mode::Normal => acts == normal_actions(c),
        Mode::Insert => if c == '\r' {
            acts == seq![EditorAction::InsertNewline]
        } else if c == '\x08' {
            acts == seq![EditorAction::DeleteLeft]
        } else if c == '\x1B' || (c as u32) < 0x20 {
            acts.len() == 0
        } else {
            &&& acts.len() == 1
            &&& acts[0] matches EditorAction::InsertString(s)
            &&& s@ == seq![c]
        },
        Mode::Visual => if c == '\x1B' {
            acts == seq![EditorAction::EndSelection]
        } else {
            acts == visual_actions(c)
        },
    }
}

/// A copy of the editor action `a`.
pub fn clone_action(a: &EditorAction) -> (r: EditorAction)
    ensures
        r == *a,
{
    match a {
        EditorAction::InsertString(s) => EditorAction::InsertString(s.clone()),
        EditorAction::DeleteLeft => EditorAction::DeleteLeft,
        EditorAction::InsertNewline => EditorAction::InsertNewline,
        EditorAction::Copy => EditorAction::Copy,
        EditorAction::Cut => EditorAction::Cut,
        EditorAction::Paste => EditorAction::Paste,
        EditorAction::BeginSelection => EditorAction::BeginSelection,
        EditorAction::EndSelection => EditorAction::EndSelection,
        EditorAction::GoTo(l) => EditorAction::GoTo(*l),
    }
}

impl EditorAction {
    /// This action as a keybinding action.
    fn k(self) -> (r: KeybindAction)
        ensures
            r matches KeybindAction::PerformEditorActions(v) && editor_action_items(v) == seq![self],
    {
        let mut v = EditorActions::new();
        v.push(self);
        KeybindAction::PerformEditorActions(v)
    }

    /// This action as a list of one keybinding action.
    fn ks(self) -> (r: KeybindActions)
        ensures
            keybind_action_items(r).len() == 1,
            keybind_action_items(r)[0] matches KeybindAction::PerformEditorActions(v)
                && editor_action_items(v) == seq![self],
    {
        let mut v = KeybindActions::new();
        v.push(self.k());
        v
    }
}

/// Two keybinding actions: `first`, then `second`.
fn pair(first: KeybindAction, second: KeybindAction) -> (r: KeybindActions)
    ensures
        keybind_action_items(r) == seq![first, second],
{
    let mut v = KeybindActions::new();
    v.push(first);
    v.push(second);
    assert(keybind_action_items(v) =~= seq![first, second]);
    v
}

/// One keybinding action.
fn single(a: KeybindAction) -> (r: KeybindActions)
    ensures
        keybind_action_items(r) == seq![a],
{
    let mut v = KeybindActions::new();
    v.push(a);
    assert(keybind_action_items(v) =~= seq![a]);
    v
}

/// The keybindings of normal mode.
fn normal_keybinding(c: char) -> (r: Option<KeybindActions>)
    ensures
        r is None <==> !bound_in_normal(c),
        r matches Some(k) ==> {
            &&& performed_mode(Mode::Normal, keybind_action_items(k)) == normal_mode_after(c)
            &&& performed_actions(keybind_action_items(k)) == normal_actions(c)
        },
{
    reveal_with_fuel(performed_mode, 3);
    reveal_with_fuel(performed_actions, 3);
    let r = if c == 'i' {
        Some(single(KeybindAction::EnterInsertMode))
    } else if c == 'a' {
        Some(pair(EditorAction::GoTo(Location::Offset(LocDelta::new(0, 1))).k(), KeybindAction::EnterInsertMode))
    } else if c == '$' {
        Some(EditorAction::GoTo(Location::EndOfLine).ks())
    } else if c == '0' {
        Some(EditorAction::GoTo(Location::StartOfLine).ks())
    } else if c == 'A' {
        Some(pair(EditorAction::GoTo(Location::EndOfLine).k(), KeybindAction::EnterInsertMode))
    } else if c == 'I' {
        Some(pair(EditorAction::GoTo(Location::StartOfLine).k(), KeybindAction::EnterInsertMode))
    } else if c == 'g' {
        Some(EditorAction::GoTo(Location::FirstLine).ks())
    } else if c == 'G' {
        Some(EditorAction::GoTo(Location::LastLine).ks())
    } else if c == 'v' {
        Some(single(KeybindAction::EnterVisualMode))
    } else if c == 'p' {
        Some(EditorAction::Paste.ks())
    } else {
        None
    };
    proof {
        if let Some(k) = &r {
            let items = keybind_action_items(*k);
            if items.len() == 2 {
                assert(items.drop_last() =~= seq![items[0]]);
                assert(items.drop_last().drop_last() =~= Seq::<KeybindAction>::empty());
            } else {
                assert(items.drop_last() =~= Seq::<KeybindAction>::empty());
            }
        }
    }
    r
}

/// The keybindings of visual mode.
fn visual_keybinding(c: char) -> (r: Option<KeybindActions>)
    ensures
        r is None <==> !bound_in_visual(c),
        r matches Some(k) ==> {
            &&& performed_mode(Mode::Normal, keybind_action_items(k)) == Mode::Normal
            &&& performed_actions(keybind_action_items(k)) == visual_actions(c)
        },
{
    reveal_with_fuel(performed_mode, 2);
    reveal_with_fuel(performed_actions, 2);
    let r = if c == 'y' {
        Some(single(EditorAction::Copy.k()))
    } else if c == 'd' {
        Some(single(EditorAction::Cut.k()))
    } else {
        None
    };
    proof {
        if let Some(k) = &r {
            assert(keybind_action_items(*k).drop_last() =~= Seq::<KeybindAction>::empty());
        }
    }
    r
}

impl VimInput {
    pub fn new() -> (v: Self)
        ensures
            v.mode == Mode::Normal,
    {
        Self { mode: Mode::Normal }
    }

    /// Handles the char `c` typed in the current mode: returns the editor
    /// actions it yields and moves to the mode it leads to.
    pub fn receive_char(&mut self, c: char) -> (r: EditorActions)
        ensures
            final(self).mode == mode_after(old(self).mode, c),
            typed_actions(old(self).mode, c, editor_action_items(r)),
    {
        match self.mode {
            Mode::Normal => {
                match normal_keybinding(c) {
                    Some(action) => self.perform_actions(&action),
                    None => {
                        let r = EditorActions::new();
                        assert(editor_action_items(r) =~= normal_actions(c));
                        r
                    },
                }
            },
            Mode::Insert => {
                let mut r = EditorActions::new();
                if c == '\r' {
                    r.push(EditorAction::InsertNewline);
                    assert(editor_action_items(r) =~= seq![EditorAction::InsertNewline]);
                } else if c == '\x08' {
                    r.push(EditorAction::DeleteLeft);
                    assert(editor_action_items(r) =~= seq![EditorAction::DeleteLeft]);
                } else if c == '\x1B' {
                    self.mode = Mode::Normal;
                } else if (c as u32) >= 0x20 {
                    let mut s = String::new();
                    crate::ext::std_items::string_push(&mut s, c);
                    assert(s@ =~= seq![c]);
                    r.push(EditorAction::InsertString(s));
                }
                r
            },
            Mode::Visual => {
                if c == '\x1B' {
                    self.mode = Mode::Normal;
                    let mut r = EditorActions::new();
                    r.push(EditorAction::EndSelection);
                    assert(editor_action_items(r) =~= seq![EditorAction::EndSelection]);
                    return r;
                }
                match visual_keybinding(c) {
                    Some(actions) => {
                        self.mode = Mode::Normal;
                        self.perform_actions(&actions)
                    },
                    None => {
                        let r = EditorActions::new();
                        assert(editor_action_items(r) =~= visual_actions(c));
                        r
                    },
                }
            },
        }
    }

    /// Performs keybinding actions in order: mode changes take effect,
    /// editor actions are collected (entering visual mode begins a
    /// selection).
    pub fn perform_actions(&mut self, actions: &KeybindActions) -> (r: EditorActions)
        requires
            performed_actions(keybind_action_items(*actions)).len() <= isize::MAX,
        ensures
            final(self).mode == performed_mode(old(self).mode, keybind_action_items(*actions)),
            editor_action_items(r) == performed_actions(keybind_action_items(*actions)),
    {
        let ghost acts = keybind_action_items(*actions);
        let mut out = EditorActions::new();
        let n = actions.len();
        let ghost start = self.mode;
        for i in 0..n
            invariant
                n == acts.len(),
                acts == keybind_action_items(*actions),
                performed_actions(acts).len() <= isize::MAX,
                self.mode == performed_mode(start, acts.take(i as int)),
                editor_action_items(out) == performed_actions(acts.take(i as int)),
        {
            proof {
                lemma_performed_prefix(acts, i as int + 1);
            }
            assert(acts.take(i + 1).drop_last() =~= acts.take(i as int));
            assert(acts.take(i + 1).last() == acts[i as int]);
            match actions.get(i) {
                KeybindAction::EnterInsertMode => {
                    self.mode = Mode::Insert;
                },
                KeybindAction::EnterVisualMode => {
                    self.mode = Mode::Visual;
                    out.push(EditorAction::BeginSelection);
                    assert(editor_action_items(out) =~= performed_actions(acts.take(i + 1)));
                },
                KeybindAction::PerformEditorActions(sub) => {
                    let m = sub.len();
                    let ghost before = editor_action_items(out);
                    for j in 0..m
                        invariant
                            m == editor_action_items(*sub).len(),
                            before + editor_action_items(*sub) == performed_actions(acts.take(i + 1)),
                            performed_actions(acts.take(i + 1)).len() <= isize::MAX,
                            editor_action_items(out) == before + editor_action_items(*sub).take(j as int),
                    {
                        out.push(clone_action(sub.get(j)));
                        assert(editor_action_items(*sub).take(j + 1) =~= editor_action_items(*sub).take(j as int).push(editor_action_items(*sub)[j as int]));
                    }
                    assert(editor_action_items(*sub).take(m as int) =~= editor_action_items(*sub));
                },
            }
        }
        assert(acts.take(n as int) =~= acts);
        out
    }
}

/// The actions of a prefix are no more than those of the whole.
proof fn lemma_performed_prefix(acts: Seq<KeybindAction>, k: int)
    requires
        0 <= k <= acts.len(),
    ensures
        performed_actions(acts.take(k)).len() <= performed_actions(acts).len(),
    decreases acts.len(),
{
    if k < acts.len() {
        assert(acts.drop_last().take(k) =~= acts.take(k));
        lemma_performed_prefix(acts.drop_last(), k);
    } else {
        assert(acts.take(k) =~= acts);
    }
}


/// The name a mode is shown by.
pub open spec fn mode_name(m: Mode) -> Seq<char> {
    match m {
        Mode::Normal => "Normal"@,
        Mode::Insert => "Insert"@,
        Mode::Visual => "Visual"@,
    }
}

impl Mode {
    /// The name the mode is shown by (its variant's name).
    pub fn to_string(&self) -> (r: String)
        ensures
            r@ == mode_name(*self),
    {
        match self {
            Mode::Normal => String::from_str("Normal"),
            Mode::Insert => String::from_str("Insert"),
            Mode::Visual => String::from_str("Visual"),
        }
    }
}

/// Escape leads back to normal mode from every mode; leaving visual mode
/// by escape ends the selection.
pub proof fn law_escape_returns_to_normal(mode: Mode, acts: Seq<EditorAction>)
    requires
        typed_actions(mode, '\x1B', acts),
    ensures
        mode_after(mode, '\x1B') == Mode::Normal,
        mode == Mode::Visual ==> acts == seq![EditorAction::EndSelection],
        mode != Mode::Visual ==> acts.len() == 0,
{
    assert(!bound_in_normal('\x1B'));
}

/// In insert mode every char from U+0020 up (a space among them) is typed
/// as itself: exactly one action, inserting the one-char string of it,
/// and the mode stays insert.
pub proof fn law_insert_mode_types_printable_chars(c: char, acts: Seq<EditorAction>)
    requires
        (c as u32) >= 0x20,
        typed_actions(Mode::Insert, c, acts),
    ensures
        acts.len() == 1,
        acts[0] matches EditorAction::InsertString(s) && s@ == seq![c],
        mode_after(Mode::Insert, c) == Mode::Insert,
{
}

} // verus!
