//! Storage: a rooted tree of named byte blobs.
//!
//! A tree is modelled as a sequence of entries, each a full path and a
//! content, in which no path occurs twice. The order of the entries is the
//! order in which the files were first written, and it is the order in which
//! they are listed. The tree lives in a store. A handle sees the store from
//! its root: the names it takes are relative and are joined to that root.
//! Handles are roots and hold no files, so all handles that work on one
//! store see each other's writes.
//!
//! A file may be stored and yet refuse to be read. Such faults are kept
//! beside the tree, by full path; writing a file does not lift its fault.

use vstd::prelude::*;
use vstd::string::*;
use vstd::slice::*;
use crate::path::{is_relative, join, prefix_of};

verus! {

/// One file of a tree: its full path and its content.
pub struct Entry {
    pub path: Seq<char>,
    pub content: Seq<u8>,
}

/// No path occurs twice.
pub open spec fn distinct(tree: Seq<Entry>) -> bool {
    forall|i: int, j: int|
        0 <= i < tree.len() && 0 <= j < tree.len() && i != j ==> tree[i].path != tree[j].path
}

/// The tree holds a file at `path`.
pub open spec fn has_file(tree: Seq<Entry>, path: Seq<char>) -> bool {
    exists|i: int| 0 <= i < tree.len() && tree[i].path == path
}

/// Where the tree holds the file at `path`.
pub open spec fn position_of(tree: Seq<Entry>, path: Seq<char>) -> int {
    choose|i: int| 0 <= i < tree.len() && tree[i].path == path
}

/// The content of the file at `path`.
pub open spec fn content_of(tree: Seq<Entry>, path: Seq<char>) -> Seq<u8> {
    tree[position_of(tree, path)].content
}

/// The tree after `content` was written at `path`: an existing file keeps
/// its place and gets the new content, a new file comes last.
pub open spec fn stored(tree: Seq<Entry>, path: Seq<char>, content: Seq<u8>) -> Seq<Entry> {
    if has_file(tree, path) {
        tree.update(position_of(tree, path), Entry { path, content })
    } else {
        tree.push(Entry { path, content })
    }
}

/// The file at `path` is stored and can be read.
pub open spec fn readable(
    tree: Seq<Entry>,
    faults: Map<Seq<char>, Seq<char>>,
    path: Seq<char>,
) -> bool {
    has_file(tree, path) && !faults.contains_key(path)
}

/// The name of the file at `path` as seen from `root`, if it lies below it.
pub open spec fn name_below(root: Seq<char>, path: Seq<char>) -> Option<Seq<char>> {
    let prefix = prefix_of(root);
    if prefix.is_prefix_of(path) && is_relative(path.skip(prefix.len() as int)) {
        Some(path.skip(prefix.len() as int))
    } else {
        None
    }
}

/// The names of the files below `root`, in the order of the tree.
pub open spec fn names_below(root: Seq<char>, tree: Seq<Entry>) -> Seq<Seq<char>>
    decreases tree.len(),
{
    if tree.len() == 0 {
        Seq::empty()
    } else {
        let rest = names_below(root, tree.drop_last());
        match name_below(root, tree.last().path) {
            Some(name) => rest.push(name),
            None => rest,
        }
    }
}

/// Every listed name is relative.
pub proof fn lemma_names_below_relative(root: Seq<char>, tree: Seq<Entry>)
    ensures
        forall|i: int|
            0 <= i < names_below(root, tree).len() ==> is_relative(
                #[trigger] names_below(root, tree)[i],
            ),
    decreases tree.len(),
{
    if tree.len() > 0 {
        lemma_names_below_relative(root, tree.drop_last());
        let rest = names_below(root, tree.drop_last());
        let names = names_below(root, tree);
        assert forall|i: int| 0 <= i < names.len() implies is_relative(#[trigger] names[i]) by {
            if i < rest.len() {
                assert(names[i] == rest[i]);
            }
        }
    }
}

/// A name is listed below a root exactly when it is relative and a file is
/// stored under it there.
pub proof fn lemma_listed_is_stored(root: Seq<char>, tree: Seq<Entry>, name: Seq<char>)
    ensures
        names_below(root, tree).contains(name) == (is_relative(name) && has_file(
            tree,
            join(root, name),
        )),
    decreases tree.len(),
{
    let path = join(root, name);
    let prefix = prefix_of(root);
    if tree.len() == 0 {
        assert(!names_below(root, tree).contains(name));
    } else {
        let head = tree.drop_last();
        let names = names_below(root, tree);
        let rest = names_below(root, head);
        lemma_listed_is_stored(root, head, name);
        let last = tree.last();
        let here = name_below(root, last.path) == Some(name);
        assert(here == (is_relative(name) && last.path == path)) by {
            if here {
                assert(last.path =~= prefix + last.path.skip(prefix.len() as int));
            }
            if is_relative(name) && last.path == path {
                assert(path.subrange(0, prefix.len() as int) =~= prefix);
                assert(path.skip(prefix.len() as int) =~= name);
            }
        }
        assert(names.contains(name) == (rest.contains(name) || here)) by {
            if rest.contains(name) {
                let k = choose|k: int| 0 <= k < rest.len() && rest[k] == name;
                assert(names[k] == name);
            }
            if here {
                assert(names[names.len() - 1] == name);
            }
            if names.contains(name) {
                let k = choose|k: int| 0 <= k < names.len() && names[k] == name;
                if k < rest.len() {
                    assert(rest[k] == name);
                }
            }
        }
        assert(has_file(tree, path) == (has_file(head, path) || last.path == path)) by {
            if has_file(head, path) {
                let k = choose|k: int| 0 <= k < head.len() && head[k].path == path;
                assert(tree[k].path == path);
            }
            if last.path == path {
                assert(tree[tree.len() - 1].path == path);
            }
            if has_file(tree, path) {
                let k = choose|k: int| 0 <= k < tree.len() && tree[k].path == path;
                if k < head.len() {
                    assert(head[k].path == path);
                }
            }
        }
    }
}

/// A store: the one tree of files that every handle of an origin sees.
pub trait Storage: Sized {
    /// The whole tree, by full path.
    spec fn tree(&self) -> Seq<Entry>;

    /// The files that cannot be read, by full path, each with the detail
    /// that a read of it fails with.
    spec fn faults(&self) -> Map<Seq<char>, Seq<char>>;

    /// The store's invariant.
    spec fn well_formed(&self) -> bool;

    /// In a well-formed store no path occurs twice.
    proof fn tree_is_distinct(&self)
        requires
            self.well_formed(),
        ensures
            distinct(self.tree()),
    ;
}

/// What storage offers: a handle with a root onto a store.
///
/// A handle holds its root and nothing else; the files are in the store that
/// is handed to each operation. Every handle used with one store sees what
/// was written to that store through any other. Every name handed to an
/// operation is relative to the handle's root.
pub trait FileSystem: Sized {
    /// The store that the handles work on.
    type Store: Storage;

    /// The root that names are joined to.
    spec fn root(&self) -> Seq<char>;

    /// A second handle with the same root.
    fn duplicate(&self) -> (r: Self)
        ensures
            r.root() == self.root(),
    ;

    /// A handle whose root is `path` below this root.
    fn subsystem(&self, path: &str) -> (r: Self)
        requires
            is_relative(path@),
        ensures
            r.root() == join(self.root(), path@),
    ;

    /// Tells whether a file is stored under `path`.
    fn file_exists(&self, store: &Self::Store, path: &str) -> (r: bool)
        requires
            store.well_formed(),
            is_relative(path@),
        ensures
            r == has_file(store.tree(), join(self.root(), path@)),
    ;

    /// The content stored under `path`. The read fails where no file is
    /// stored, and where the file cannot be read: then with the detail of
    /// that fault.
    fn read(&self, store: &Self::Store, path: &str) -> (r: core::result::Result<Vec<u8>, String>)
        requires
            store.well_formed(),
            is_relative(path@),
        ensures
            r.is_ok() == readable(store.tree(), store.faults(), join(self.root(), path@)),
            r.is_ok() ==> r.unwrap()@ == content_of(store.tree(), join(self.root(), path@)),
            has_file(store.tree(), join(self.root(), path@)) && r.is_err() ==> r.unwrap_err()@
                == store.faults()[join(self.root(), path@)],
    ;

    /// Stores `content` under `path`, in place of what was there. The file
    /// is then in the store for every handle, every other file is as it
    /// was, and so are the faults.
    fn write(&self, store: &mut Self::Store, path: &str, content: Vec<u8>)
        requires
            old(store).well_formed(),
            is_relative(path@),
        ensures
            final(store).well_formed(),
            final(store).tree() == stored(old(store).tree(), join(self.root(), path@), content@),
            final(store).faults() == old(store).faults(),
            has_file(final(store).tree(), join(self.root(), path@)),
            content_of(final(store).tree(), join(self.root(), path@)) == content@,
            forall|other: Seq<char>|
                other != join(self.root(), path@) ==> (#[trigger] has_file(
                    final(store).tree(),
                    other,
                )) == has_file(old(store).tree(), other),
            forall|other: Seq<char>|
                other != join(self.root(), path@) && has_file(old(store).tree(), other) ==> (
                #[trigger] content_of(final(store).tree(), other)) == content_of(
                    old(store).tree(),
                    other,
                ),
    ;

    /// The full path of `path` under this root.
    fn full_path_for(&self, path: &str) -> (r: String)
        requires
            is_relative(path@),
        ensures
            r@ == join(self.root(), path@),
    ;

    /// The names of all files below this root, in the order of the tree.
    fn files(&self, store: &Self::Store) -> (r: Vec<String>)
        requires
            store.well_formed(),
        ensures
            r@.map_values(|s: String| s@) == names_below(self.root(), store.tree()),
    ;
}

} // verus!
