//! The persistent vector of `im` that holds the lines of a document.
//!
//! Each function below makes one call into `im::Vector<String>`; its
//! contract states, over `line_items`, what the crate's source does.
use vstd::prelude::*;

verus! {

#[verifier::external_type_specification]
#[verifier::external_body]
#[verifier::reject_recursive_types(A)]
pub struct ExImVector<A>(im::Vector<A>);

/// The strings an `im::Vector<String>` holds, front to back.
pub uninterp spec fn line_items(v: im::Vector<String>) -> Seq<String>;

/// `im::Vector::new`: an empty vector.
#[verifier::external_body]
pub fn lines_new() -> (v: im::Vector<String>)
    ensures
        line_items(v) == Seq::<String>::empty(),
{
    im::Vector::new()
}

/// `im::Vector::unit`: a vector holding exactly `s`.
#[verifier::external_body]
pub fn lines_unit(s: String) -> (v: im::Vector<String>)
    ensures
        line_items(v) == seq![s],
{
    im::Vector::unit(s)
}

/// `im::Vector::len`: the number of items.
#[verifier::external_body]
pub fn lines_len(v: &im::Vector<String>) -> (n: usize)
    ensures
        n == line_items(*v).len(),
{
    v.len()
}

/// `im::Vector::get`: the item at `i`, or `None` when `i` is past the end.
#[verifier::external_body]
pub fn lines_get(v: &im::Vector<String>, i: usize) -> (r: Option<&String>)
    ensures
        i < line_items(*v).len() ==> r == Some(&line_items(*v)[i as int]),
        i >= line_items(*v).len() ==> r is None,
{
    v.get(i)
}

/// `im::Vector::last`: the last item, or `None` for an empty vector.
#[verifier::external_body]
pub fn lines_last(v: &im::Vector<String>) -> (r: Option<&String>)
    ensures
        line_items(*v).len() > 0 ==> r == Some(&line_items(*v).last()),
        line_items(*v).len() == 0 ==> r is None,
{
    v.last()
}

/// `im::Vector::push_back`: appends `s`.
#[verifier::external_body]
pub fn lines_push_back(v: &mut im::Vector<String>, s: String)
    ensures
        line_items(*final(v)) == line_items(*old(v)).push(s),
{
    v.push_back(s)
}

/// `im::Vector::set`: replaces the item at `i` (which `im` asserts is in
/// bounds) and returns the item it replaced.
#[verifier::external_body]
pub fn lines_set(v: &mut im::Vector<String>, i: usize, s: String) -> (prev: String)
    requires
        i < line_items(*old(v)).len(),
    ensures
        prev == line_items(*old(v))[i as int],
        line_items(*final(v)) == line_items(*old(v)).update(i as int, s),
{
    v.set(i, s)
}

/// `im::Vector::insert`: inserts `s` before position `i` (`im` asserts
/// `i <= len`).
#[verifier::external_body]
pub fn lines_insert(v: &mut im::Vector<String>, i: usize, s: String)
    requires
        i <= line_items(*old(v)).len(),
    ensures
        line_items(*final(v)) == line_items(*old(v)).insert(i as int, s),
{
    v.insert(i, s)
}

/// `im::Vector::remove`: removes and returns the item at `i` (`im` asserts
/// `i < len`).
#[verifier::external_body]
pub fn lines_remove(v: &mut im::Vector<String>, i: usize) -> (r: String)
    requires
        i < line_items(*old(v)).len(),
    ensures
        r == line_items(*old(v))[i as int],
        line_items(*final(v)) == line_items(*old(v)).remove(i as int),
{
    v.remove(i)
}

/// `im::Vector::append`: appends every item of `other`.
#[verifier::external_body]
pub fn lines_append(v: &mut im::Vector<String>, other: im::Vector<String>)
    ensures
        line_items(*final(v)) == line_items(*old(v)) + line_items(other),
{
    v.append(other)
}

/// `im::Vector::slice` on `start..end`: when the range is empty or starts
/// at or past the end, nothing is removed and an empty vector comes back;
/// otherwise the items `start..end` are removed and returned (`im` asserts
/// that `end` is within the length in that case).
#[verifier::external_body]
pub fn lines_slice(v: &mut im::Vector<String>, start: usize, end: usize) -> (r: im::Vector<String>)
    requires
        start >= end || start >= line_items(*old(v)).len() || end <= line_items(*old(v)).len(),
    ensures
        (start >= end || start >= line_items(*old(v)).len()) ==> {
            &&& line_items(r) == Seq::<String>::empty()
            &&& line_items(*final(v)) == line_items(*old(v))
        },
        !(start >= end || start >= line_items(*old(v)).len()) ==> {
            &&& line_items(r) == line_items(*old(v)).subrange(start as int, end as int)
            &&& line_items(*final(v)) == line_items(*old(v)).subrange(0, start as int)
                + line_items(*old(v)).subrange(end as int, line_items(*old(v)).len() as int)
        },
{
    v.slice(start..end)
}

/// `Clone` of `im::Vector`: a vector with the same items.
#[verifier::external_body]
pub fn lines_clone(v: &im::Vector<String>) -> (r: im::Vector<String>)
    ensures
        line_items(r) == line_items(*v),
{
    v.clone()
}

} // verus!
