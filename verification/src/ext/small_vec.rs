//! The inline vectors of `smallvec` that carry keybindings and the editor
//! actions they produce.
//!
//! Verus does not take a declaration of `smallvec::SmallVec` (its
//! parameter is bound by the crate's own `Array` trait), so each vector is
//! held in the private field of a struct whose insides Verus does not see.
//! Each function below makes one call into `smallvec::SmallVec`; its
//! contract states, over the items the vector holds, what the crate's
//! source does.
use vstd::prelude::*;
use crate::input::vim_input::{EditorAction, KeybindAction};

verus! {

/// A `SmallVec<[EditorAction; 4]>`.
#[verifier::external_body]
#[derive(Debug)]
pub struct EditorActions {
    items: smallvec::SmallVec<[EditorAction; 4]>,
}

/// A `SmallVec<[KeybindAction; 4]>`.
#[verifier::external_body]
#[derive(Debug)]
pub struct KeybindActions {
    items: smallvec::SmallVec<[KeybindAction; 4]>,
}

/// The editor actions an `EditorActions` holds, in order.
pub uninterp spec fn editor_action_items(v: EditorActions) -> Seq<EditorAction>;

/// The keybinding actions a `KeybindActions` holds, in order.
pub uninterp spec fn keybind_action_items(v: KeybindActions) -> Seq<KeybindAction>;

impl EditorActions {
    /// `SmallVec::new`: an empty vector.
    #[verifier::external_body]
    pub fn new() -> (v: EditorActions)
        ensures
            editor_action_items(v) == Seq::<EditorAction>::empty(),
    {
        EditorActions { items: smallvec::SmallVec::new() }
    }

    /// `SmallVec::push`: appends `a`. (`smallvec` panics when the doubled
    /// capacity overflows, which needs a length beyond `isize::MAX`.)
    #[verifier::external_body]
    pub fn push(&mut self, a: EditorAction)
        requires
            editor_action_items(*old(self)).len() <= isize::MAX,
        ensures
            editor_action_items(*final(self)) == editor_action_items(*old(self)).push(a),
    {
        self.items.push(a)
    }

    /// `SmallVec::len`.
    #[verifier::external_body]
    pub fn len(&self) -> (n: usize)
        ensures
            n == editor_action_items(*self).len(),
    {
        self.items.len()
    }

    /// Indexing the `SmallVec` (a slice index, which panics past the end).
    #[verifier::external_body]
    pub fn get(&self, i: usize) -> (r: &EditorAction)
        requires
            i < editor_action_items(*self).len(),
        ensures
            *r == editor_action_items(*self)[i as int],
    {
        &self.items[i]
    }

    /// `SmallVec::as_slice`: the items as a slice.
    #[verifier::external_body]
    pub fn as_slice(&self) -> (r: &[EditorAction])
        ensures
            r@ == editor_action_items(*self),
    {
        self.items.as_slice()
    }
}

impl KeybindActions {
    /// `SmallVec::new`: an empty vector.
    #[verifier::external_body]
    pub fn new() -> (v: KeybindActions)
        ensures
            keybind_action_items(v) == Seq::<KeybindAction>::empty(),
    {
        KeybindActions { items: smallvec::SmallVec::new() }
    }

    /// `SmallVec::push`: appends `a`. (`smallvec` panics when the doubled
    /// capacity overflows, which needs a length beyond `isize::MAX`.)
    #[verifier::external_body]
    pub fn push(&mut self, a: KeybindAction)
        requires
            keybind_action_items(*old(self)).len() <= isize::MAX,
        ensures
            keybind_action_items(*final(self)) == keybind_action_items(*old(self)).push(a),
    {
        self.items.push(a)
    }

    /// `SmallVec::len`.
    #[verifier::external_body]
    pub fn len(&self) -> (n: usize)
        ensures
            n == keybind_action_items(*self).len(),
    {
        self.items.len()
    }

    /// Indexing the `SmallVec` (a slice index, which panics past the end).
    #[verifier::external_body]
    pub fn get(&self, i: usize) -> (r: &KeybindAction)
        requires
            i < keybind_action_items(*self).len(),
        ensures
            *r == keybind_action_items(*self)[i as int],
    {
        &self.items[i]
    }
}

} // verus!
