//! Validating a second time gives the same outcomes: the sidecar files that
//! the first run stored lie below the `diff` root, where no comparison
//! looks.

use vstd::prelude::*;
use crate::path::{join, prefix_of};
use crate::filesystem::{
    Entry, distinct, has_file, content_of, position_of, stored, name_below, names_below,
};
use crate::memory::lemma_names_below_push;
use crate::laws::lemma_stored;
use crate::comparison::{Comparison, Verdict};
use crate::provider::Registration;
use crate::config::FileFilter;
use crate::validation::{
    compare_one, compare_all, orphans, validated, scoped_root, stored_all, fresh,
};

verus! {

/// The path lies below the root.
pub open spec fn below(root: Seq<char>, path: Seq<char>) -> bool {
    prefix_of(root).is_prefix_of(path)
}

/// Two trees hold the same files outside the `diff` root of a test, and
/// list the same baselines of the test in the same order.
pub open spec fn same_outside_diff(
    first: Seq<Entry>,
    second: Seq<Entry>,
    root: Seq<char>,
    test: Seq<char>,
) -> bool {
    &&& forall|path: Seq<char>|
        !below(scoped_root(root, "diff"@, test), path) ==> (#[trigger] has_file(first, path))
            == has_file(second, path)
    &&& forall|path: Seq<char>|
        !below(scoped_root(root, "diff"@, test), path) && has_file(first, path) ==> (
        #[trigger] content_of(first, path)) == content_of(second, path)
    &&& names_below(scoped_root(root, "expected"@, test), first) == names_below(
        scoped_root(root, "expected"@, test),
        second,
    )
}

/// The relation is symmetric.
pub proof fn lemma_same_outside_symmetric(
    first: Seq<Entry>,
    second: Seq<Entry>,
    root: Seq<char>,
    test: Seq<char>,
)
    requires
        same_outside_diff(first, second, root, test),
    ensures
        same_outside_diff(second, first, root, test),
{
    let diff = scoped_root(root, "diff"@, test);
    assert forall|path: Seq<char>| !below(diff, path) implies (#[trigger] has_file(second, path))
        == has_file(first, path) by {
        assert(has_file(first, path) == has_file(second, path));
    }
    assert forall|path: Seq<char>| !below(diff, path) && has_file(second, path) implies (
    #[trigger] content_of(second, path)) == content_of(first, path) by {
        assert(has_file(first, path) == has_file(second, path));
        assert(content_of(first, path) == content_of(second, path));
    }
}

/// The relation is transitive.
pub proof fn lemma_same_outside_transitive(
    first: Seq<Entry>,
    second: Seq<Entry>,
    third: Seq<Entry>,
    root: Seq<char>,
    test: Seq<char>,
)
    requires
        same_outside_diff(first, second, root, test),
        same_outside_diff(second, third, root, test),
    ensures
        same_outside_diff(first, third, root, test),
{
    let diff = scoped_root(root, "diff"@, test);
    assert forall|path: Seq<char>| !below(diff, path) implies (#[trigger] has_file(first, path))
        == has_file(third, path) by {
        assert(has_file(first, path) == has_file(second, path));
        assert(has_file(second, path) == has_file(third, path));
    }
    assert forall|path: Seq<char>| !below(diff, path) && has_file(first, path) implies (
    #[trigger] content_of(first, path)) == content_of(third, path) by {
        assert(has_file(first, path) == has_file(second, path));
        assert(content_of(first, path) == content_of(second, path));
        assert(content_of(second, path) == content_of(third, path));
    }
}

/// Every path below the root of one kind of a test's files has the first
/// character of the kind right after the prefix of the storage root.
pub proof fn lemma_scoped_paths(root: Seq<char>, kind: Seq<char>, test: Seq<char>, path: Seq<char>)
    requires
        kind.len() > 0,
        kind.last() != '/',
        below(scoped_root(root, kind, test), path),
    ensures
        path.len() > prefix_of(root).len(),
        path[prefix_of(root).len() as int] == kind[0],
{
    let p = prefix_of(root);
    let with_kind = join(root, kind);
    assert(with_kind == p + kind);
    assert(with_kind.last() == kind.last());
    assert(prefix_of(with_kind) == with_kind.push('/'));
    let scoped = scoped_root(root, kind, test);
    assert(scoped == with_kind.push('/') + test);
    let pre = prefix_of(scoped);
    assert(pre.len() >= scoped.len());
    assert(pre[p.len() as int] == scoped[p.len() as int]);
    assert(scoped[p.len() as int] == kind[0]);
    assert(path.subrange(0, pre.len() as int) == pre);
    assert(path[p.len() as int] == path.subrange(0, pre.len() as int)[p.len() as int]);
}

/// What a test wrote and its baselines do not lie below its `diff` root,
/// and nothing below the `diff` root is listed among the baselines.
pub proof fn lemma_roots_apart(root: Seq<char>, test: Seq<char>, file: Seq<char>)
    ensures
        !below(scoped_root(root, "diff"@, test), join(scoped_root(root, "actual"@, test), file)),
        !below(scoped_root(root, "diff"@, test), join(scoped_root(root, "expected"@, test), file)),
        name_below(
            scoped_root(root, "expected"@, test),
            join(scoped_root(root, "diff"@, test), file),
        ).is_none(),
{
    reveal_strlit("diff");
    reveal_strlit("actual");
    reveal_strlit("expected");
    let diff = scoped_root(root, "diff"@, test);
    let actual = scoped_root(root, "actual"@, test);
    let expected = scoped_root(root, "expected"@, test);
    let a = join(actual, file);
    let e = join(expected, file);
    let d = join(diff, file);
    assert(prefix_of(actual).is_prefix_of(a)) by {
        assert(a.subrange(0, prefix_of(actual).len() as int) =~= prefix_of(actual));
    }
    assert(prefix_of(expected).is_prefix_of(e)) by {
        assert(e.subrange(0, prefix_of(expected).len() as int) =~= prefix_of(expected));
    }
    assert(prefix_of(diff).is_prefix_of(d)) by {
        assert(d.subrange(0, prefix_of(diff).len() as int) =~= prefix_of(diff));
    }
    lemma_scoped_paths(root, "actual"@, test, a);
    lemma_scoped_paths(root, "expected"@, test, e);
    lemma_scoped_paths(root, "diff"@, test, d);
    if below(diff, a) {
        lemma_scoped_paths(root, "diff"@, test, a);
    }
    if below(diff, e) {
        lemma_scoped_paths(root, "diff"@, test, e);
    }
    if below(expected, d) {
        lemma_scoped_paths(root, "expected"@, test, d);
    }
}

/// The listing of a tree goes by its paths alone.
pub proof fn lemma_names_below_by_paths(root: Seq<char>, first: Seq<Entry>, second: Seq<Entry>)
    requires
        first.len() == second.len(),
        forall|i: int| 0 <= i < first.len() ==> (#[trigger] first[i]).path == second[i].path,
    ensures
        names_below(root, first) == names_below(root, second),
    decreases first.len(),
{
    if first.len() > 0 {
        let a = first.drop_last();
        let b = second.drop_last();
        assert forall|i: int| 0 <= i < a.len() implies (#[trigger] a[i]).path == b[i].path by {
            assert(a[i] == first[i]);
            assert(b[i] == second[i]);
        }
        lemma_names_below_by_paths(root, a, b);
        assert(first.last() == first[first.len() - 1]);
        assert(first[first.len() - 1].path == second[first.len() - 1].path);
    }
}

/// Storing a file below the `diff` root changes nothing outside it.
pub proof fn lemma_stored_below_diff(
    tree: Seq<Entry>,
    root: Seq<char>,
    test: Seq<char>,
    file: Seq<char>,
    content: Seq<u8>,
)
    requires
        distinct(tree),
    ensures
        distinct(stored(tree, join(scoped_root(root, "diff"@, test), file), content)),
        same_outside_diff(
            tree,
            stored(tree, join(scoped_root(root, "diff"@, test), file), content),
            root,
            test,
        ),
{
    let diff = scoped_root(root, "diff"@, test);
    let expected = scoped_root(root, "expected"@, test);
    let path = join(diff, file);
    let after = stored(tree, path, content);
    lemma_stored(tree, path, content);
    lemma_roots_apart(root, test, file);
    assert(below(diff, path)) by {
        assert(path.subrange(0, prefix_of(diff).len() as int) =~= prefix_of(diff));
    }
    assert forall|other: Seq<char>| !below(diff, other) implies (#[trigger] has_file(tree, other))
        == has_file(after, other) by {
        assert(other != path);
    }
    assert forall|other: Seq<char>| !below(diff, other) && has_file(tree, other) implies (
    #[trigger] content_of(tree, other)) == content_of(after, other) by {
        assert(other != path);
    }
    if has_file(tree, path) {
        let at = position_of(tree, path);
        assert forall|i: int| 0 <= i < tree.len() implies (#[trigger] tree[i]).path
            == after[i].path by {}
        lemma_names_below_by_paths(expected, tree, after);
    } else {
        lemma_names_below_push(expected, tree, Entry { path, content });
    }
}

/// Storing sidecar files below the `diff` root changes nothing outside it.
pub proof fn lemma_stored_all_below_diff(
    tree: Seq<Entry>,
    root: Seq<char>,
    test: Seq<char>,
    files: Seq<Entry>,
)
    requires
        distinct(tree),
    ensures
        distinct(stored_all(tree, scoped_root(root, "diff"@, test), files)),
        same_outside_diff(
            tree,
            stored_all(tree, scoped_root(root, "diff"@, test), files),
            root,
            test,
        ),
    decreases files.len(),
{
    let diff = scoped_root(root, "diff"@, test);
    if files.len() > 0 {
        lemma_stored_all_below_diff(tree, root, test, files.drop_last());
        let before = stored_all(tree, diff, files.drop_last());
        lemma_stored_below_diff(before, root, test, files.last().path, files.last().content);
        lemma_same_outside_transitive(
            tree,
            before,
            stored_all(tree, diff, files),
            root,
            test,
        );
    }
}

/// Comparing an artifact changes nothing outside the `diff` root.
pub proof fn lemma_compare_one_keeps<C: Comparison>(
    tree: Seq<Entry>,
    faults: Map<Seq<char>, Seq<char>>,
    root: Seq<char>,
    test: Seq<char>,
    file: Seq<char>,
    comparison: C,
)
    requires
        distinct(tree),
    ensures
        distinct(compare_one(tree, faults, root, test, file, comparison).tree),
        same_outside_diff(
            tree,
            compare_one(tree, faults, root, test, file, comparison).tree,
            root,
            test,
        ),
{
    let actual = join(scoped_root(root, "actual"@, test), file);
    let expected = join(scoped_root(root, "expected"@, test), file);
    let diff = scoped_root(root, "diff"@, test);
    if has_file(tree, actual) && has_file(tree, expected) && comparison.verdict(
        content_of(tree, actual),
        content_of(tree, expected),
    ) == Verdict::Unequal {
        comparison.explained_extends(
            content_of(tree, actual),
            content_of(tree, expected),
            file,
            fresh(diff),
        );
        let explained = comparison.explained(
            content_of(tree, actual),
            content_of(tree, expected),
            file,
            fresh(diff),
        );
        lemma_stored_all_below_diff(tree, root, test, explained.requester.pending);
    }
}

/// In trees that agree outside the `diff` root an artifact has the same
/// outcomes, and the trees agree afterwards.
pub proof fn lemma_compare_one_agrees<C: Comparison>(
    first: Seq<Entry>,
    second: Seq<Entry>,
    faults: Map<Seq<char>, Seq<char>>,
    root: Seq<char>,
    test: Seq<char>,
    file: Seq<char>,
    comparison: C,
)
    requires
        distinct(first),
        distinct(second),
        same_outside_diff(first, second, root, test),
    ensures
        compare_one(first, faults, root, test, file, comparison).results == compare_one(
            second,
            faults,
            root,
            test,
            file,
            comparison,
        ).results,
        same_outside_diff(
            compare_one(first, faults, root, test, file, comparison).tree,
            compare_one(second, faults, root, test, file, comparison).tree,
            root,
            test,
        ),
{
    let actual = join(scoped_root(root, "actual"@, test), file);
    let expected = join(scoped_root(root, "expected"@, test), file);
    lemma_roots_apart(root, test, file);
    assert(has_file(first, actual) == has_file(second, actual));
    assert(has_file(first, expected) == has_file(second, expected));
    if has_file(first, actual) {
        assert(content_of(first, actual) == content_of(second, actual));
    }
    if has_file(first, expected) {
        assert(content_of(first, expected) == content_of(second, expected));
    }
    let one = compare_one(first, faults, root, test, file, comparison).tree;
    let two = compare_one(second, faults, root, test, file, comparison).tree;
    lemma_compare_one_keeps(first, faults, root, test, file, comparison);
    lemma_compare_one_keeps(second, faults, root, test, file, comparison);
    lemma_same_outside_symmetric(first, one, root, test);
    lemma_same_outside_transitive(one, first, second, root, test);
    lemma_same_outside_transitive(one, second, two, root, test);
}

/// Comparing the registered artifacts changes nothing outside the `diff`
/// root.
pub proof fn lemma_compare_all_keeps<C: Comparison, Fi: FileFilter>(
    registrations: Seq<Registration<C>>,
    filter: Fi,
    tree: Seq<Entry>,
    faults: Map<Seq<char>, Seq<char>>,
    root: Seq<char>,
    test: Seq<char>,
)
    requires
        distinct(tree),
    ensures
        distinct(compare_all(registrations, filter, tree, faults, root, test).tree),
        same_outside_diff(
            tree,
            compare_all(registrations, filter, tree, faults, root, test).tree,
            root,
            test,
        ),
    decreases registrations.len(),
{
    if registrations.len() > 0 {
        lemma_compare_all_keeps(registrations.drop_last(), filter, tree, faults, root, test);
        let before = compare_all(registrations.drop_last(), filter, tree, faults, root, test);
        let last = registrations.last();
        if filter.allows(last.name@) && !before.visited.contains(last.name@) {
            lemma_compare_one_keeps(before.tree, faults, root, test, last.name@, last.comparison);
            lemma_same_outside_transitive(
                tree,
                before.tree,
                compare_one(before.tree, faults, root, test, last.name@, last.comparison).tree,
                root,
                test,
            );
        }
    }
}

/// In trees that agree outside the `diff` root the registered artifacts
/// have the same outcomes, and the trees agree afterwards.
pub proof fn lemma_compare_all_agrees<C: Comparison, Fi: FileFilter>(
    registrations: Seq<Registration<C>>,
    filter: Fi,
    first: Seq<Entry>,
    second: Seq<Entry>,
    faults: Map<Seq<char>, Seq<char>>,
    root: Seq<char>,
    test: Seq<char>,
)
    requires
        distinct(first),
        distinct(second),
        same_outside_diff(first, second, root, test),
    ensures
        compare_all(registrations, filter, first, faults, root, test).visited == compare_all(
            registrations,
            filter,
            second,
            faults,
            root,
            test,
        ).visited,
        compare_all(registrations, filter, first, faults, root, test).results == compare_all(
            registrations,
            filter,
            second,
            faults,
            root,
            test,
        ).results,
        same_outside_diff(
            compare_all(registrations, filter, first, faults, root, test).tree,
            compare_all(registrations, filter, second, faults, root, test).tree,
            root,
            test,
        ),
    decreases registrations.len(),
{
    if registrations.len() > 0 {
        let rest = registrations.drop_last();
        lemma_compare_all_agrees(rest, filter, first, second, faults, root, test);
        lemma_compare_all_keeps(rest, filter, first, faults, root, test);
        lemma_compare_all_keeps(rest, filter, second, faults, root, test);
        let one = compare_all(rest, filter, first, faults, root, test);
        let two = compare_all(rest, filter, second, faults, root, test);
        let last = registrations.last();
        if filter.allows(last.name@) && !one.visited.contains(last.name@) {
            lemma_compare_one_agrees(
                one.tree,
                two.tree,
                faults,
                root,
                test,
                last.name@,
                last.comparison,
            );
        }
    }
}

/// In trees that agree outside the `diff` root the same baselines are
/// reported as not written.
pub proof fn lemma_orphans_agree<Fi: FileFilter>(
    names: Seq<Seq<char>>,
    filter: Fi,
    visited: Seq<Seq<char>>,
    first: Seq<Entry>,
    second: Seq<Entry>,
    root: Seq<char>,
    test: Seq<char>,
)
    requires
        same_outside_diff(first, second, root, test),
    ensures
        orphans(names, filter, visited, first, root, test) == orphans(
            names,
            filter,
            visited,
            second,
            root,
            test,
        ),
    decreases names.len(),
{
    if names.len() > 0 {
        lemma_orphans_agree(names.drop_last(), filter, visited, first, second, root, test);
        lemma_roots_apart(root, test, names.last());
        let actual = join(scoped_root(root, "actual"@, test), names.last());
        assert(has_file(first, actual) == has_file(second, actual));
    }
}

/// Validation is idempotent: validating the tree that a validation left
/// behind gives the same outcomes, in the same order.
pub proof fn lemma_validate_twice<C: Comparison, Fi: FileFilter>(
    registrations: Seq<Registration<C>>,
    filter: Fi,
    tree: Seq<Entry>,
    faults: Map<Seq<char>, Seq<char>>,
    root: Seq<char>,
    test: Seq<char>,
)
    requires
        distinct(tree),
    ensures
        validated(
            registrations,
            filter,
            validated(registrations, filter, tree, faults, root, test).tree,
            faults,
            root,
            test,
        ).results == validated(registrations, filter, tree, faults, root, test).results,
{
    let once = compare_all(registrations, filter, tree, faults, root, test);
    lemma_compare_all_keeps(registrations, filter, tree, faults, root, test);
    lemma_compare_all_agrees(registrations, filter, tree, once.tree, faults, root, test);
    let twice = compare_all(registrations, filter, once.tree, faults, root, test);
    lemma_orphans_agree(
        names_below(scoped_root(root, "expected"@, test), once.tree),
        filter,
        once.visited,
        once.tree,
        twice.tree,
        root,
        test,
    );
}

} // verus!
