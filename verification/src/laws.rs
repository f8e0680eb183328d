//! What holds of validation and of writers, whatever the tree, the test and
//! the comparison.

use vstd::prelude::*;
use crate::path::join;
use crate::filesystem::{Entry, distinct, has_file, readable, content_of, stored};
use crate::shared::KindModel;
use crate::comparison::{Comparison, Verdict};
use crate::provider::{opened, written_all, concatenated, committed};
use crate::config::FileFilter;
use crate::validation::{compare_one, orphans, outcome, scoped_root};

verus! {

/// An artifact whose two sides exist, can be read and are equal under its
/// comparison gives exactly one outcome, a match, and no sidecar file: the
/// tree stays as it is.
pub proof fn lemma_equal_sides_match<C: Comparison>(
    tree: Seq<Entry>,
    faults: Map<Seq<char>, Seq<char>>,
    root: Seq<char>,
    test: Seq<char>,
    file: Seq<char>,
    comparison: C,
)
    requires
        readable(tree, faults, join(scoped_root(root, "actual"@, test), file)),
        readable(tree, faults, join(scoped_root(root, "expected"@, test), file)),
        comparison.verdict(
            content_of(tree, join(scoped_root(root, "actual"@, test), file)),
            content_of(tree, join(scoped_root(root, "expected"@, test), file)),
        ) == Verdict::Equal,
    ensures
        compare_one(tree, faults, root, test, file, comparison).results == seq![
            outcome(test, file, KindModel::Matched),
        ],
        compare_one(tree, faults, root, test, file, comparison).tree == tree,
{
}

/// An artifact that the test wrote and that has no baseline gives exactly
/// `ExpectedNotFound` with both paths, and the tree stays as it is.
pub proof fn lemma_written_without_baseline<C: Comparison>(
    tree: Seq<Entry>,
    faults: Map<Seq<char>, Seq<char>>,
    root: Seq<char>,
    test: Seq<char>,
    file: Seq<char>,
    comparison: C,
)
    requires
        has_file(tree, join(scoped_root(root, "actual"@, test), file)),
        !has_file(tree, join(scoped_root(root, "expected"@, test), file)),
    ensures
        compare_one(tree, faults, root, test, file, comparison).results == seq![
            outcome(
                test,
                file,
                KindModel::ExpectedNotFound {
                    actual: join(scoped_root(root, "actual"@, test), file),
                    expected: join(scoped_root(root, "expected"@, test), file),
                },
            ),
        ],
        compare_one(tree, faults, root, test, file, comparison).tree == tree,
{
}

/// A registered artifact that the test did not write gives exactly
/// `ActualNotFound` with both paths, whether or not it has a baseline, and
/// the tree stays as it is.
pub proof fn lemma_registered_not_written<C: Comparison>(
    tree: Seq<Entry>,
    faults: Map<Seq<char>, Seq<char>>,
    root: Seq<char>,
    test: Seq<char>,
    file: Seq<char>,
    comparison: C,
)
    requires
        !has_file(tree, join(scoped_root(root, "actual"@, test), file)),
    ensures
        compare_one(tree, faults, root, test, file, comparison).results == seq![
            outcome(
                test,
                file,
                KindModel::ActualNotFound {
                    actual: join(scoped_root(root, "actual"@, test), file),
                    expected: join(scoped_root(root, "expected"@, test), file),
                },
            ),
        ],
        compare_one(tree, faults, root, test, file, comparison).tree == tree,
{
}

/// An artifact whose two sides exist and of which one cannot be read gives
/// exactly one outcome, the detail of the fault, and the tree stays as it
/// is: the fault of what the test wrote, if it has one, else that of the
/// baseline.
pub proof fn lemma_unreadable_side_is_reported<C: Comparison>(
    tree: Seq<Entry>,
    faults: Map<Seq<char>, Seq<char>>,
    root: Seq<char>,
    test: Seq<char>,
    file: Seq<char>,
    comparison: C,
)
    requires
        has_file(tree, join(scoped_root(root, "actual"@, test), file)),
        has_file(tree, join(scoped_root(root, "expected"@, test), file)),
        faults.contains_key(join(scoped_root(root, "actual"@, test), file))
            || faults.contains_key(join(scoped_root(root, "expected"@, test), file)),
    ensures
        compare_one(tree, faults, root, test, file, comparison).results == seq![
            outcome(
                test,
                file,
                KindModel::IoError {
                    detail: if faults.contains_key(
                        join(scoped_root(root, "actual"@, test), file),
                    ) {
                        faults[join(scoped_root(root, "actual"@, test), file)]
                    } else {
                        faults[join(scoped_root(root, "expected"@, test), file)]
                    },
                },
            ),
        ],
        compare_one(tree, faults, root, test, file, comparison).tree == tree,
{
}

/// A baseline that the filter accepts, that was not compared and that the
/// test did not write is reported as `ActualNotFound`.
pub proof fn lemma_unwritten_baseline_is_reported<Fi: FileFilter>(
    names: Seq<Seq<char>>,
    filter: Fi,
    visited: Seq<Seq<char>>,
    tree: Seq<Entry>,
    root: Seq<char>,
    test: Seq<char>,
    at: int,
)
    requires
        0 <= at < names.len(),
        filter.allows(names[at]),
        !visited.contains(names[at]),
        !has_file(tree, join(scoped_root(root, "actual"@, test), names[at])),
    ensures
        orphans(names, filter, visited, tree, root, test).contains(
            outcome(
                test,
                names[at],
                KindModel::ActualNotFound {
                    actual: join(scoped_root(root, "actual"@, test), names[at]),
                    expected: join(scoped_root(root, "expected"@, test), names[at]),
                },
            ),
        ),
    decreases names.len(),
{
    let all = orphans(names, filter, visited, tree, root, test);
    let before = orphans(names.drop_last(), filter, visited, tree, root, test);
    let wanted = outcome(
        test,
        names[at],
        KindModel::ActualNotFound {
            actual: join(scoped_root(root, "actual"@, test), names[at]),
            expected: join(scoped_root(root, "expected"@, test), names[at]),
        },
    );
    if at == names.len() - 1 {
        assert(all == before.push(wanted));
        assert(all[before.len() as int] == wanted);
    } else {
        lemma_unwritten_baseline_is_reported(
            names.drop_last(),
            filter,
            visited,
            tree,
            root,
            test,
            at,
        );
        let k = choose|k: int| 0 <= k < before.len() && before[k] == wanted;
        assert(all[k] == wanted);
    }
}

/// A writer that was opened and never written to stores nothing when it is
/// committed.
pub proof fn lemma_unwritten_writer_stores_nothing(
    tree: Seq<Entry>,
    root: Seq<char>,
    path: Seq<char>,
)
    ensures
        committed(tree, root, opened(path)) == tree,
{
}

/// What was written to a writer is held in the order of the writes.
pub proof fn lemma_written_all(path: Seq<char>, chunks: Seq<Seq<u8>>)
    ensures
        written_all(opened(path), chunks).path == path,
        written_all(opened(path), chunks).buffer == concatenated(chunks),
    decreases chunks.len(),
{
    if chunks.len() > 0 {
        lemma_written_all(path, chunks.drop_last());
    }
}

/// A writer that was written to several times stores exactly one file when
/// it is committed: the file at its path, holding all that was written in
/// the order of the writes; every other file stays as it was.
pub proof fn lemma_writes_are_stored_together(
    tree: Seq<Entry>,
    root: Seq<char>,
    path: Seq<char>,
    chunks: Seq<Seq<u8>>,
)
    requires
        distinct(tree),
        concatenated(chunks).len() > 0,
    ensures
        ({
            let after = committed(tree, root, written_all(opened(path), chunks));
            &&& distinct(after)
            &&& has_file(after, join(root, path))
            &&& content_of(after, join(root, path)) == concatenated(chunks)
            &&& after.len() == if has_file(tree, join(root, path)) {
                tree.len()
            } else {
                tree.len() + 1
            }
            &&& forall|other: Seq<char>|
                other != join(root, path) ==> has_file(after, other) == has_file(tree, other)
                    && (has_file(tree, other) ==> content_of(after, other) == content_of(
                    tree,
                    other,
                ))
        }),
{
    lemma_written_all(path, chunks);
    lemma_stored(tree, join(root, path), concatenated(chunks));
}

/// Storing a file keeps the paths apart, holds the new content at its path
/// and leaves every other file as it was.
pub proof fn lemma_stored(tree: Seq<Entry>, path: Seq<char>, content: Seq<u8>)
    requires
        distinct(tree),
    ensures
        distinct(stored(tree, path, content)),
        has_file(stored(tree, path, content), path),
        content_of(stored(tree, path, content), path) == content,
        stored(tree, path, content).len() == if has_file(tree, path) {
            tree.len()
        } else {
            tree.len() + 1
        },
        forall|other: Seq<char>|
            other != path ==> has_file(stored(tree, path, content), other) == has_file(tree, other)
                && (has_file(tree, other) ==> content_of(stored(tree, path, content), other)
                == content_of(tree, other)),
{
    let after = stored(tree, path, content);
    let at = if has_file(tree, path) {
        crate::filesystem::position_of(tree, path)
    } else {
        tree.len() as int
    };
    assert(after[at].path == path);
    assert(after[at].content == content);
    assert forall|i: int| 0 <= i < after.len() implies (#[trigger] after[i]).path == if i == at {
        path
    } else {
        tree[i].path
    } by {}
    assert(has_file(after, path));
    assert forall|other: Seq<char>| other != path implies has_file(after, other) == has_file(
        tree,
        other,
    ) && (has_file(tree, other) ==> content_of(after, other) == content_of(tree, other)) by {
        if has_file(tree, other) {
            let i = crate::filesystem::position_of(tree, other);
            assert(after[i].path == other);
            assert(has_file(after, other));
            let j = crate::filesystem::position_of(after, other);
            assert(j != at);
            assert(tree[j].path == other);
            assert(i == j);
        }
        if has_file(after, other) {
            let j = crate::filesystem::position_of(after, other);
            assert(j != at);
            assert(tree[j].path == other);
        }
    }
}

} // verus!
