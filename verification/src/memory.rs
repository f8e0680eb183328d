//! Storage held in memory: a store that keeps the files in a vector, and
//! handles that are roots onto it. It serves tests of the engine, and
//! programs that load a tree, work on it and store what has changed.

use vstd::prelude::*;
use vstd::string::*;
use vstd::slice::*;
use crate::path::{is_relative, join, prefix_of, join_path, chars_of};
use crate::laws::lemma_stored;
use crate::filesystem::{
    Entry, FileSystem, Storage, distinct, has_file, position_of, stored, name_below, names_below,
    lemma_listed_is_stored,
};

verus! {

/// One file in memory.
#[derive(Debug)]
pub struct StoredFile {
    pub path: String,
    pub content: Vec<u8>,
}

impl View for StoredFile {
    type V = Entry;

    open spec fn view(&self) -> Entry {
        Entry { path: self.path@, content: self.content@ }
    }
}

/// A file that cannot be read, with the detail that reading it fails with.
#[derive(Debug)]
pub struct Fault {
    pub path: String,
    pub detail: String,
}

/// The store in memory: the files, and the faults of those that cannot be
/// read.
#[derive(Debug)]
pub struct Mapping {
    files: Vec<StoredFile>,
    faults: Vec<Fault>,
}

/// A handle onto a store in memory: a root.
#[derive(Debug, Clone, PartialEq, Eq)]
pub struct FakeFileSystem {
    root: String,
}

/// The faults of a list by path: a later fault of a path replaces an earlier
/// one.
pub open spec fn fault_map(faults: Seq<Fault>) -> Map<Seq<char>, Seq<char>>
    decreases faults.len(),
{
    if faults.len() == 0 {
        Map::empty()
    } else {
        fault_map(faults.drop_last()).insert(faults.last().path@, faults.last().detail@)
    }
}

/// The files of a vector as a tree.
pub open spec fn tree_of(files: Seq<StoredFile>) -> Seq<Entry> {
    files.map_values(|f: StoredFile| f@)
}

/// What reading a missing file reports.
pub open spec fn missing_detail(path: Seq<char>) -> Seq<char> {
    path + " does not exist"@
}

/// The name of `path` as seen from a root with the given prefix, if it lies
/// below it.
pub fn strip_prefix(prefix: &Vec<char>, path: &str) -> (r: Option<String>)
    ensures
        r.is_some() == (prefix@.is_prefix_of(path@) && is_relative(
            path@.skip(prefix@.len() as int),
        )),
        r.is_some() ==> r.unwrap()@ == path@.skip(prefix@.len() as int),
{
    let chars = chars_of(path);
    if chars.len() < prefix.len() {
        return None;
    }
    let mut i: usize = 0;
    while i < prefix.len()
        invariant
            i <= prefix.len() <= chars.len(),
            chars@ == path@,
            forall|k: int| 0 <= k < i ==> prefix@[k] == chars@[k],
        decreases prefix.len() - i,
    {
        if prefix[i] != chars[i] {
            proof {
                assert(path@.subrange(0, prefix@.len() as int)[i as int] != prefix@[i as int]);
            }
            return None;
        }
        i = i + 1;
    }
    proof {
        assert(prefix@ =~= path@.subrange(0, prefix@.len() as int));
    }
    if prefix.len() < chars.len() && chars[prefix.len()] == '/' {
        return None;
    }
    let name = path.substring_char(prefix.len(), chars.len());
    proof {
        assert(path@.subrange(prefix@.len() as int, chars@.len() as int) =~= path@.skip(
            prefix@.len() as int,
        ));
    }
    Some(String::from_str(name))
}

/// Listing a tree with one more file.
pub proof fn lemma_names_below_push(root: Seq<char>, tree: Seq<Entry>, entry: Entry)
    ensures
        names_below(root, tree.push(entry)) == match name_below(root, entry.path) {
            Some(name) => names_below(root, tree).push(name),
            None => names_below(root, tree),
        },
{
    assert(tree.push(entry).drop_last() =~= tree);
    assert(tree.push(entry).last() == entry);
}

impl Mapping {
    /// A store without files and without faults.
    pub fn new() -> (r: Self)
        ensures
            r.well_formed(),
            r.tree() == Seq::<Entry>::empty(),
            r.faults() == Map::<Seq<char>, Seq<char>>::empty(),
    {
        let r = Mapping { files: Vec::new(), faults: Vec::new() };
        proof {
            assert(tree_of(r.files@) =~= Seq::<Entry>::empty());
        }
        r
    }

    /// The detail of the fault of the file with this full path, if it has
    /// one.
    fn fault_of(&self, full: &String) -> (r: Option<String>)
        ensures
            r.is_some() == self.faults().contains_key(full@),
            r.is_some() ==> r.unwrap()@ == self.faults()[full@],
    {
        let mut i: usize = self.faults.len();
        proof {
            assert(self.faults@.take(i as int) =~= self.faults@);
        }
        while i > 0
            invariant
                i <= self.faults@.len(),
                fault_map(self.faults@).contains_key(full@) == fault_map(
                    self.faults@.take(i as int),
                ).contains_key(full@),
                fault_map(self.faults@).contains_key(full@) ==> fault_map(self.faults@)[full@]
                    == fault_map(self.faults@.take(i as int))[full@],
            decreases i,
        {
            proof {
                assert(self.faults@.take(i as int).drop_last() =~= self.faults@.take(i - 1));
                assert(self.faults@.take(i as int).last() == self.faults@[i - 1]);
            }
            i = i - 1;
            if self.faults[i].path == *full {
                return Some(self.faults[i].detail.clone());
            }
        }
        None
    }

    /// Where the file with this full path is kept.
    fn find(&self, full: &String) -> (r: Option<usize>)
        requires
            self.well_formed(),
        ensures
            r.is_some() == has_file(self.tree(), full@),
            r.is_some() ==> r.unwrap() < self.files@.len() && self.tree()[r.unwrap() as int].path
                == full@ && position_of(self.tree(), full@) == r.unwrap(),
    {
        let mut i: usize = 0;
        while i < self.files.len()
            invariant
                i <= self.files@.len(),
                self.well_formed(),
                forall|k: int| 0 <= k < i ==> self.tree()[k].path != full@,
            decreases self.files.len() - i,
        {
            if self.files[i].path == *full {
                proof {
                    assert(self.tree()[i as int].path == full@);
                }
                return Some(i);
            }
            i = i + 1;
        }
        None
    }
}

impl Storage for Mapping {
    closed spec fn tree(&self) -> Seq<Entry> {
        tree_of(self.files@)
    }

    closed spec fn faults(&self) -> Map<Seq<char>, Seq<char>> {
        fault_map(self.faults@)
    }

    closed spec fn well_formed(&self) -> bool {
        distinct(tree_of(self.files@))
    }

    proof fn tree_is_distinct(&self) {
    }
}

impl FakeFileSystem {
    /// A handle at the top of a store.
    pub fn new() -> (r: Self)
        ensures
            r.root() == seq!['/'],
    {
        proof {
            reveal_strlit("/");
        }
        let r = FakeFileSystem { root: String::from_str("/") };
        proof {
            assert(r.root@ =~= seq!['/']);
        }
        r
    }

    /// A handle with the given root.
    pub fn with_root(root: String) -> (r: Self)
        ensures
            r.root() == root@,
    {
        FakeFileSystem { root }
    }

    /// Tells whether no file of the store lies below the root: none that
    /// was written through this handle, or through any other, under a name
    /// below it.
    pub fn is_empty(&self, store: &Mapping) -> (r: bool)
        requires
            store.well_formed(),
        ensures
            r == (names_below(self.root(), store.tree()).len() == 0),
            r == (forall|name: Seq<char>|
                is_relative(name) ==> !has_file(store.tree(), #[trigger] join(self.root(), name))),
    {
        let names = self.files(store);
        proof {
            let listed = names_below(self.root(), store.tree());
            assert forall|name: Seq<char>|
                listed.contains(name) == (is_relative(name) && has_file(
                    store.tree(),
                    #[trigger] join(self.root(), name),
                )) by {
                lemma_listed_is_stored(self.root(), store.tree(), name);
            }
            if listed.len() > 0 {
                assert(listed.contains(listed[0]));
                assert(has_file(store.tree(), join(self.root(), listed[0])));
            }
        }
        names.len() == 0
    }

    /// Makes every read of `path` fail with `detail`, until another fault
    /// is set for it.
    pub fn fail_reads(&self, store: &mut Mapping, path: &str, detail: String)
        requires
            old(store).well_formed(),
            is_relative(path@),
        ensures
            final(store).well_formed(),
            final(store).tree() == old(store).tree(),
            final(store).faults() == old(store).faults().insert(join(self.root(), path@), detail@),
    {
        let full = join_path(self.root.as_str(), path);
        let fault = Fault { path: full, detail };
        proof {
            assert(store.faults@.push(fault).drop_last() =~= store.faults@);
        }
        store.faults.push(fault);
    }
}

impl FileSystem for FakeFileSystem {
    type Store = Mapping;

    closed spec fn root(&self) -> Seq<char> {
        self.root@
    }

    fn duplicate(&self) -> (r: Self) {
        FakeFileSystem { root: self.root.clone() }
    }

    fn subsystem(&self, path: &str) -> (r: Self) {
        FakeFileSystem { root: join_path(self.root.as_str(), path) }
    }

    fn file_exists(&self, store: &Mapping, path: &str) -> (r: bool) {
        let full = join_path(self.root.as_str(), path);
        store.find(&full).is_some()
    }

    fn read(&self, store: &Mapping, path: &str) -> (r: core::result::Result<Vec<u8>, String>)
        ensures
            !has_file(store.tree(), join(self.root(), path@)) ==> r.is_err() && r.unwrap_err()@
                == missing_detail(join(self.root(), path@)),
    {
        let full = join_path(self.root.as_str(), path);
        match store.find(&full) {
            Some(i) => match store.fault_of(&full) {
                Some(detail) => Err(detail),
                None => Ok(slice_to_vec(store.files[i].content.as_slice())),
            },
            None => {
                let mut detail = full;
                detail.append(" does not exist");
                Err(detail)
            },
        }
    }

    fn write(&self, store: &mut Mapping, path: &str, content: Vec<u8>) {
        let full = join_path(self.root.as_str(), path);
        let ghost before = store.tree();
        proof {
            lemma_stored(before, full@, content@);
        }
        match store.find(&full) {
            Some(i) => {
                store.files.set(i, StoredFile { path: full, content });
                proof {
                    assert(store.tree() =~= stored(before, full@, content@));
                }
            },
            None => {
                store.files.push(StoredFile { path: full, content });
                proof {
                    assert(store.tree() =~= stored(before, full@, content@));
                }
            },
        }
    }

    fn full_path_for(&self, path: &str) -> (r: String) {
        join_path(self.root.as_str(), path)
    }

    fn files(&self, store: &Mapping) -> (r: Vec<String>) {
        let prefix_text = join_path(self.root.as_str(), "");
        proof {
            reveal_strlit("");
            assert(prefix_text@ =~= prefix_of(self.root@));
        }
        let prefix = chars_of(prefix_text.as_str());
        let mut out: Vec<String> = Vec::new();
        let mut i: usize = 0;
        proof {
            assert(tree_of(store.files@).take(0) =~= Seq::<Entry>::empty());
        }
        while i < store.files.len()
            invariant
                i <= store.files@.len(),
                prefix@ == prefix_of(self.root@),
                out@.map_values(|s: String| s@) == names_below(
                    self.root@,
                    tree_of(store.files@).take(i as int),
                ),
            decreases store.files.len() - i,
        {
            let ghost seen = tree_of(store.files@).take(i as int);
            let ghost entry = tree_of(store.files@)[i as int];
            proof {
                lemma_names_below_push(self.root@, seen, entry);
                assert(tree_of(store.files@).take(i + 1) =~= seen.push(entry));
            }
            match strip_prefix(&prefix, store.files[i].path.as_str()) {
                Some(name) => {
                    proof {
                        assert(out@.push(name).map_values(|s: String| s@) =~= out@.map_values(
                            |s: String| s@,
                        ).push(name@));
                    }
                    out.push(name);
                },
                None => {},
            }
            i = i + 1;
        }
        proof {
            assert(tree_of(store.files@).take(i as int) =~= tree_of(store.files@));
        }
        out
    }
}

} // verus!
