//! The file tree shown beside the editor, and which path a row of it
//! stands for.
use vstd::prelude::*;
use crate::ext::std_items::path_clone;
use crate::gui::widget::Outcome;

verus! {

/// A file or directory of the tree.
pub struct File {
    pub name: String,
    pub path: std::path::PathBuf,
    pub children: Vec<File>,
}

/// The paths of the tree in the order its rows are drawn: a file, then
/// each child's subtree in turn.
pub open spec fn preorder(f: File) -> Seq<std::path::PathBuf>
    decreases f, 1nat, 0int,
{
    seq![f.path] + preorder_all(f, f.children@.len() as int)
}

/// The rows of the subtrees of the first `k` children of `f`.
pub open spec fn preorder_all(f: File, k: int) -> Seq<std::path::PathBuf>
    decreases f, 0nat, k,
{
    if k <= 0 || k > f.children@.len() {
        Seq::empty()
    } else {
        proof {
            assert(decreases_to!(f => f.children));
            assert(decreases_to!(f.children => f.children@));
            assert(decreases_to!(f.children@ => f.children@[k - 1]));
        }
        preorder_all(f, k - 1) + preorder(f.children@[k - 1])
    }
}

impl File {
    /// A file with no children.
    pub fn file(name: String, path: std::path::PathBuf) -> (f: File)
        ensures
            f.name == name,
            f.path == path,
            f.children@.len() == 0,
    {
        File { name, path, children: Vec::new() }
    }

    /// An entry whose kind could not be read: shown as a file.
    pub fn undetermined(name: String, path: std::path::PathBuf) -> (f: File)
        ensures
            f.name == name,
            f.path == path,
            f.children@.len() == 0,
    {
        Self::file(name, path)
    }

    /// A directory with its entries.
    pub fn directory(name: String, path: std::path::PathBuf, children: Vec<File>) -> (f: File)
        ensures
            f.name == name,
            f.path == path,
            f.children == children,
    {
        File { name, path, children }
    }
}


/// The rows of the first `i` children come first among the rows of the
/// first `k`.
proof fn lemma_preorder_all_prefix(f: File, i: int, k: int)
    requires
        0 <= i <= k <= f.children@.len(),
    ensures
        preorder_all(f, i).len() <= preorder_all(f, k).len(),
        preorder_all(f, k).take(preorder_all(f, i).len() as int) == preorder_all(f, i),
    decreases k - i,
{
    if i < k {
        lemma_preorder_all_prefix(f, i, k - 1);
        let a = preorder_all(f, i);
        let b = preorder_all(f, k - 1);
        assert(preorder_all(f, k) == b + preorder(f.children@[k - 1]));
        assert((b + preorder(f.children@[k - 1])).take(a.len() as int) =~= b.take(a.len() as int));
    } else {
        assert(preorder_all(f, k).take(preorder_all(f, k).len() as int) =~= preorder_all(f, k));
    }
}

/// Walks the tree under `file` in row order, counting rows from
/// `current_index`; the row numbered `index` stores its path in `res`.
pub fn find_path_at_index_rec(
    file: &File,
    index: usize,
    current_index: &mut usize,
    res: &mut Option<std::path::PathBuf>,
)
    requires
        *old(current_index) + preorder(*file).len() <= usize::MAX,
    ensures
        *final(current_index) == *old(current_index) + preorder(*file).len(),
        *final(res) == (if *old(current_index) <= index < *final(current_index) {
            Some(preorder(*file)[index - *old(current_index)])
        } else {
            *old(res)
        }),
    decreases file,
{
    let ghost start: int = *current_index as int;
    let ghost res0 = *res;
    let ghost rows = preorder(*file);
    if index == *current_index {
        *res = Some(path_clone(&file.path));
    }
    *current_index += 1;
    let n = file.children.len();
    proof {
        lemma_preorder_all_prefix(*file, 0, n as int);
    }
    for i in 0..n
        invariant
            n == file.children@.len(),
            rows == preorder(*file),
            rows == seq![file.path] + preorder_all(*file, n as int),
            start + rows.len() <= usize::MAX,
            *current_index == start + 1 + preorder_all(*file, i as int).len(),
            *res == (if start <= index < *current_index {
                Some(rows[index - start])
            } else {
                res0
            }),
    {
        proof {
            lemma_preorder_all_prefix(*file, i + 1, n as int);
            lemma_preorder_all_prefix(*file, i as int, i + 1);
            assert(decreases_to!(file.children => file.children@));
        }
        let ghost before: int = *current_index as int;
        let ghost sub = preorder(file.children@[i as int]);
        let ghost pa = preorder_all(*file, i as int);
        assert(preorder_all(*file, i + 1) == pa + sub);
        find_path_at_index_rec(&file.children[i], index, current_index, res);
        proof {
            let whole = preorder_all(*file, n as int);
            let pa1 = preorder_all(*file, i + 1);
            assert(whole.take(pa1.len() as int) == pa1);
            if before <= index < *current_index {
                let t = index - before;
                assert(rows[index - start] == whole[index - start - 1]);
                assert(whole[index - start - 1] == pa1[index - start - 1]);
                assert(pa1[index - start - 1] == sub[t]);
            }
        }
    }
}

/// The path of the row numbered `index` of the tree under `file`, or none
/// when the tree has fewer rows.
pub fn find_path_at_index(file: &File, index: usize) -> (r: Option<std::path::PathBuf>)
    requires
        preorder(*file).len() <= usize::MAX,
    ensures
        r == (if index < preorder(*file).len() {
            Some(preorder(*file)[index as int])
        } else {
            None::<std::path::PathBuf>
        }),
{
    let mut res = None;
    let mut current_index: usize = 0;
    find_path_at_index_rec(file, index, &mut current_index, &mut res);
    res
}

/// Directory entries the file tree leaves out: `.git` and `target`.
pub fn skipped_entry(name: &str) -> (r: bool)
    ensures
        r == (name@ == ".git"@ || name@ == "target"@),
{
    crate::utf8_text::str_eq(name, ".git") || crate::utf8_text::str_eq(name, "target")
}

/// The keys the file tree reacts to.
#[derive(Debug, PartialEq, Eq, Structural, Clone, Copy)]
pub enum TreeKey {
    Up,
    Down,
    Return,
    F5,
    Other,
}

/// What the file tree asks for besides moving its selection.
pub enum TreeAction {
    Nothing,
    /// Open the file at this path.
    Open(std::path::PathBuf),
    /// Return was pressed on no row.
    NothingSelected,
    /// Read the directory again.
    Reload,
}

/// What the file tree answers a key press.
pub struct TreeReply {
    pub outcome: Outcome,
    pub action: TreeAction,
}

/// The selected row after `key`: up stops at the first row, down goes one
/// further without bound.
pub open spec fn selected_after(selected: usize, key: TreeKey) -> int {
    match key {
        TreeKey::Up => if selected == 0 { 0 } else { selected - 1 },
        TreeKey::Down => selected + 1,
        _ => selected as int,
    }
}

/// What Return asks for: the file of the selected row, if the tree has
/// such a row.
pub open spec fn opened_at(root: Option<File>, selected: usize) -> Option<std::path::PathBuf> {
    match root {
        Some(f) => if selected < preorder(f).len() { Some(preorder(f)[selected as int]) } else { None },
        None => None,
    }
}

/// Pressing `key` in the file tree with row `selected` chosen: the arrows
/// move the choice, return opens the chosen row's file, F5 reloads, and
/// anything else is ignored.
pub fn tree_key(root: &Option<File>, selected: &mut usize, key: TreeKey) -> (r: TreeReply)
    requires
        key == TreeKey::Down ==> *old(selected) < usize::MAX,
        key == TreeKey::Return ==> (*root matches Some(f) ==> preorder(f).len() <= usize::MAX),
    ensures
        *final(selected) == selected_after(*old(selected), key),
        r.outcome == (if key == TreeKey::Other { Outcome::Ignored } else { Outcome::Handled }),
        key == TreeKey::Return ==> (match opened_at(*root, *old(selected)) {
            Some(p) => r.action == TreeAction::Open(p),
            None => r.action is NothingSelected,
        }),
        key == TreeKey::F5 ==> r.action is Reload,
        (key == TreeKey::Up || key == TreeKey::Down || key == TreeKey::Other) ==> r.action is Nothing,
{
    match key {
        TreeKey::Up => {
            *selected = if *selected == 0 { 0 } else { *selected - 1 };
            TreeReply { outcome: Outcome::Handled, action: TreeAction::Nothing }
        },
        TreeKey::Down => {
            *selected = *selected + 1;
            TreeReply { outcome: Outcome::Handled, action: TreeAction::Nothing }
        },
        TreeKey::Return => {
            let path = match root {
                Some(f) => find_path_at_index(f, *selected),
                None => None,
            };
            let action = match path {
                Some(p) => TreeAction::Open(p),
                None => TreeAction::NothingSelected,
            };
            TreeReply { outcome: Outcome::Handled, action }
        },
        TreeKey::F5 => TreeReply { outcome: Outcome::Handled, action: TreeAction::Reload },
        TreeKey::Other => TreeReply { outcome: Outcome::Ignored, action: TreeAction::Nothing },
    }
}

} // verus!
