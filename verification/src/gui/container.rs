//! Which child of a row of widgets has the focus.
use vstd::prelude::*;

verus! {

/// The child index after moving the focus by `offset` among `len`
/// children: `selected` and `len` read as `isize` (as `as` converts them),
/// the index moved and clamped to `0..=len - 1`, and read back as `usize`
/// (so with no children the result is `-1` read as `usize`, that is
/// `usize::MAX`).
pub open spec fn offset_index_spec(selected: usize, len: usize, offset: isize) -> usize {
    let sum = (selected as isize) + offset;
    let moved = if sum < 0 { 0 } else { sum };
    let last = (len as isize) - 1;
    (if moved < last { moved } else { last }) as usize
}

/// Computes the child index after moving the focus by `offset` among
/// `len` children.
pub fn offset_index(selected: usize, len: usize, offset: isize) -> (r: usize)
    requires
        isize::MIN <= (selected as isize) + offset <= isize::MAX,
        (len as isize) - 1 >= isize::MIN,
    ensures
        r == offset_index_spec(selected, len, offset),
{
    let moved: isize = (selected as isize) + offset;
    let at_least_zero: isize = if moved < 0 { 0 } else { moved };
    let last: isize = (len as isize) - 1;
    let clamped: isize = if at_least_zero < last { at_least_zero } else { last };
    clamped as usize
}

/// Moves the focus by `offset` among `len` children: the new index when
/// it changes, `None` when it stays.
pub fn offset_selected_index(selected: usize, len: usize, offset: isize) -> (r: Option<usize>)
    requires
        isize::MIN <= (selected as isize) + offset <= isize::MAX,
        (len as isize) - 1 >= isize::MIN,
    ensures
        r == (if offset_index_spec(selected, len, offset) != selected {
            Some(offset_index_spec(selected, len, offset))
        } else {
            None::<usize>
        }),
{
    let new_index = offset_index(selected, len, offset);
    if new_index != selected {
        Some(new_index)
    } else {
        None
    }
}

/// The keys a row of widgets reacts to itself.
#[derive(Debug, PartialEq, Eq, Structural, Clone, Copy)]
pub enum FocusKey {
    Left,
    Right,
    Other,
}

/// The focus move a key asks of a row of widgets: Alt (alone) with Left
/// moves it one back, with Right one forward; anything else asks none.
pub open spec fn focus_offset(alt_only: bool, key: FocusKey) -> Option<isize> {
    if alt_only && key == FocusKey::Left {
        Some(-1isize)
    } else if alt_only && key == FocusKey::Right {
        Some(1isize)
    } else {
        None
    }
}

/// The row's own handling of `key` (`alt_only`: Alt is the only modifier
/// held) with the focus on child `selected` of `len`: the new focus when
/// the key moves it to another child; `None` when the key is not the
/// row's own or the focus stays, and the event goes on to the focused
/// child.
pub fn focus_key(selected: usize, len: usize, alt_only: bool, key: FocusKey) -> (r: Option<usize>)
    requires
        focus_offset(alt_only, key) matches Some(d) ==> {
            &&& isize::MIN <= (selected as isize) + d <= isize::MAX
            &&& (len as isize) - 1 >= isize::MIN
        },
    ensures
        r == match focus_offset(alt_only, key) {
            Some(d) => if offset_index_spec(selected, len, d) != selected {
                Some(offset_index_spec(selected, len, d))
            } else {
                None::<usize>
            },
            None => None::<usize>,
        },
{
    if alt_only && key == FocusKey::Left {
        offset_selected_index(selected, len, -1)
    } else if alt_only && key == FocusKey::Right {
        offset_selected_index(selected, len, 1)
    } else {
        None
    }
}

/// The child an event is handed to: the focused one, or the first when
/// the focus lies past the end.
pub fn propagation_index(selected: usize, len: usize) -> (r: usize)
    ensures
        r == (if selected > len { 0 } else { selected }),
{
    if selected > len { 0 } else { selected }
}

/// With at least one child, moving the focus by any offset keeps it on a
/// child.
pub proof fn law_focus_stays_among_children(selected: usize, len: usize, offset: isize)
    requires
        0 < len <= isize::MAX,
    ensures
        offset_index_spec(selected, len, offset) < len,
{
}

} // verus!
