//! The validation engine: compares what a test registered with the
//! baselines, one artifact after the other, then looks for baselines that
//! the test no longer writes.

use vstd::prelude::*;
use vstd::string::*;
use vstd::slice::*;
use crate::path::{is_relative, join, join_path, lemma_join_assoc, lemma_join_relative};
use crate::filesystem::{
    Entry, FileSystem, Storage, has_file, content_of, stored, names_below,
    lemma_names_below_relative,
};
use crate::memory::StoredFile;
use crate::shared::{Result, ResultModel, KindModel, result_views, views};
use crate::comparison::{Comparison, Verdict, Explained};
use crate::provider::{
    Provider, Registration, WriteRequester, RequesterModel, requested_paths, rendered,
};
use crate::config::FileFilter;

verus! {

/// The root of one test's files of one kind (`expected`, `actual` or
/// `diff`) below the root of the storage.
pub open spec fn scoped_root(root: Seq<char>, kind: Seq<char>, test: Seq<char>) -> Seq<char> {
    join(join(root, kind), test)
}

/// The tree after each of `files` was stored below `root`, in their order.
pub open spec fn stored_all(tree: Seq<Entry>, root: Seq<char>, files: Seq<Entry>) -> Seq<Entry>
    decreases files.len(),
{
    if files.len() == 0 {
        tree
    } else {
        stored(
            stored_all(tree, root, files.drop_last()),
            join(root, files.last().path),
            files.last().content,
        )
    }
}

/// A collector for the sidecar files below `root` with nothing asked for.
pub open spec fn fresh(root: Seq<char>) -> RequesterModel {
    RequesterModel { root, pending: Seq::empty(), renderer: None }
}

/// What comparing one artifact gives: its outcomes and the tree afterwards.
pub struct Compared {
    pub results: Seq<ResultModel>,
    pub tree: Seq<Entry>,
}

/// The outcome of one artifact with the given kind.
pub open spec fn outcome(test: Seq<char>, file: Seq<char>, kind: KindModel) -> ResultModel {
    ResultModel { test_name: test, file_name: file, kind }
}

/// The outcomes of an explained difference: the difference with the sidecar
/// files that were asked for, and the failure of the explanation if it
/// failed.
pub open spec fn difference_outcomes(
    test: Seq<char>,
    file: Seq<char>,
    actual: Seq<char>,
    expected: Seq<char>,
    explained: Explained,
) -> Seq<ResultModel> {
    let diffs = requested_paths(explained.requester.root, explained.requester.pending);
    let html = match explained.requester.renderer {
        Some(renderer) => rendered(renderer, actual, expected, diffs),
        None => None,
    };
    let difference = outcome(test, file, KindModel::Difference { actual, expected, diffs, html });
    match explained.failure {
        Some(detail) => seq![difference, outcome(test, file, KindModel::IoError { detail })],
        None => seq![difference],
    }
}

/// Comparing the artifact `file` of the test `test` in a tree seen from
/// `root`.
///
/// A file that the test did not write gives `ActualNotFound`; one that it
/// wrote and that has no baseline gives `ExpectedNotFound`. Where both
/// exist they are read, what the test wrote first: a file that cannot be
/// read is reported with the detail of its fault. Then the comparison
/// decides: equal contents match, a failure to decide is reported, and
/// unequal contents are explained, which stores the sidecar files below the
/// test's `diff` root.
pub open spec fn compare_one<C: Comparison>(
    tree: Seq<Entry>,
    faults: Map<Seq<char>, Seq<char>>,
    root: Seq<char>,
    test: Seq<char>,
    file: Seq<char>,
    comparison: C,
) -> Compared {
    let actual = join(scoped_root(root, "actual"@, test), file);
    let expected = join(scoped_root(root, "expected"@, test), file);
    if !has_file(tree, actual) {
        Compared {
            results: seq![outcome(test, file, KindModel::ActualNotFound { actual, expected })],
            tree,
        }
    } else if !has_file(tree, expected) {
        Compared {
            results: seq![outcome(test, file, KindModel::ExpectedNotFound { actual, expected })],
            tree,
        }
    } else if faults.contains_key(actual) {
        Compared {
            results: seq![outcome(test, file, KindModel::IoError { detail: faults[actual] })],
            tree,
        }
    } else if faults.contains_key(expected) {
        Compared {
            results: seq![outcome(test, file, KindModel::IoError { detail: faults[expected] })],
            tree,
        }
    } else {
        match comparison.verdict(content_of(tree, actual), content_of(tree, expected)) {
            Verdict::Equal => Compared {
                results: seq![outcome(test, file, KindModel::Matched)],
                tree,
            },
            Verdict::Failed(detail) => Compared {
                results: seq![outcome(test, file, KindModel::IoError { detail })],
                tree,
            },
            Verdict::Unequal => {
                let explained = comparison.explained(
                    content_of(tree, actual),
                    content_of(tree, expected),
                    file,
                    fresh(scoped_root(root, "diff"@, test)),
                );
                Compared {
                    results: difference_outcomes(test, file, actual, expected, explained),
                    tree: stored_all(
                        tree,
                        explained.requester.root,
                        explained.requester.pending,
                    ),
                }
            },
        }
    }
}

/// How far the comparison of the registered artifacts has come.
pub struct Progress {
    pub visited: Seq<Seq<char>>,
    pub results: Seq<ResultModel>,
    pub tree: Seq<Entry>,
}

/// Comparing the registered artifacts in the order of registration. A name
/// that the filter rejects, or that was compared before, is passed over.
pub open spec fn compare_all<C: Comparison, Fi: FileFilter>(
    registrations: Seq<Registration<C>>,
    filter: Fi,
    tree: Seq<Entry>,
    faults: Map<Seq<char>, Seq<char>>,
    root: Seq<char>,
    test: Seq<char>,
) -> Progress
    decreases registrations.len(),
{
    if registrations.len() == 0 {
        Progress { visited: Seq::empty(), results: Seq::empty(), tree }
    } else {
        let before = compare_all(registrations.drop_last(), filter, tree, faults, root, test);
        let last = registrations.last();
        if !filter.allows(last.name@) || before.visited.contains(last.name@) {
            before
        } else {
            let compared = compare_one(
                before.tree,
                faults,
                root,
                test,
                last.name@,
                last.comparison,
            );
            Progress {
                visited: before.visited.push(last.name@),
                results: before.results + compared.results,
                tree: compared.tree,
            }
        }
    }
}

/// The baselines among `names` that the filter accepts, that were not
/// compared, and that the test did not write: each gives `ActualNotFound`.
pub open spec fn orphans<Fi: FileFilter>(
    names: Seq<Seq<char>>,
    filter: Fi,
    visited: Seq<Seq<char>>,
    tree: Seq<Entry>,
    root: Seq<char>,
    test: Seq<char>,
) -> Seq<ResultModel>
    decreases names.len(),
{
    if names.len() == 0 {
        Seq::empty()
    } else {
        let before = orphans(names.drop_last(), filter, visited, tree, root, test);
        let file = names.last();
        let actual = join(scoped_root(root, "actual"@, test), file);
        let expected = join(scoped_root(root, "expected"@, test), file);
        if filter.allows(file) && !visited.contains(file) && !has_file(tree, actual) {
            before.push(outcome(test, file, KindModel::ActualNotFound { actual, expected }))
        } else {
            before
        }
    }
}

/// What validating a test gives: the outcomes, first of the registered
/// artifacts and then of the baselines that were not written, and the tree
/// with the sidecar files.
pub open spec fn validated<C: Comparison, Fi: FileFilter>(
    registrations: Seq<Registration<C>>,
    filter: Fi,
    tree: Seq<Entry>,
    faults: Map<Seq<char>, Seq<char>>,
    root: Seq<char>,
    test: Seq<char>,
) -> Compared {
    let compared = compare_all(registrations, filter, tree, faults, root, test);
    Compared {
        results: compared.results + orphans(
            names_below(scoped_root(root, "expected"@, test), compared.tree),
            filter,
            compared.visited,
            compared.tree,
            root,
            test,
        ),
        tree: compared.tree,
    }
}

/// Tells whether `name` is among `names`.
fn listed(names: &Vec<String>, name: &str) -> (r: bool)
    ensures
        r == views(names@).contains(name@),
{
    let wanted = String::from_str(name);
    let mut i: usize = 0;
    while i < names.len()
        invariant
            i <= names@.len(),
            wanted@ == name@,
            forall|k: int| 0 <= k < i ==> views(names@)[k] != name@,
        decreases names.len() - i,
    {
        if names[i] == wanted {
            proof {
                assert(views(names@)[i as int] == name@);
            }
            return true;
        }
        i = i + 1;
    }
    false
}

/// The name, below the root of the storage, of one test's root of one kind.
fn scope_of(kind: &str, test: &str) -> (r: String)
    requires
        is_relative(kind@),
        is_relative(test@),
    ensures
        is_relative(r@),
        forall|root: Seq<char>| #[trigger] join(root, r@) == scoped_root(root, kind@, test@),
{
    let r = join_path(kind, test);
    proof {
        lemma_join_relative(kind@, test@);
        assert forall|root: Seq<char>| #[trigger] join(root, r@) == scoped_root(
            root,
            kind@,
            test@,
        ) by {
            lemma_join_assoc(root, kind@, test@);
        }
    }
    r
}

/// The name, below the root of the storage, of a file below a scope.
fn name_in(scope: &str, file: &str) -> (r: String)
    requires
        is_relative(scope@),
        is_relative(file@),
    ensures
        is_relative(r@),
        forall|root: Seq<char>| #[trigger] join(root, r@) == join(join(root, scope@), file@),
{
    let r = join_path(scope, file);
    proof {
        lemma_join_relative(scope@, file@);
        assert forall|root: Seq<char>| #[trigger] join(root, r@) == join(
            join(root, scope@),
            file@,
        ) by {
            lemma_join_assoc(root, scope@, file@);
        }
    }
    r
}

/// Stores the collected sidecar files in the store, below the scope `scope`
/// of `fs`.
fn store_sidecars<F: FileSystem>(
    fs: &F,
    store: &mut F::Store,
    scope: &str,
    files: &Vec<StoredFile>,
)
    requires
        old(store).well_formed(),
        is_relative(scope@),
        forall|i: int| 0 <= i < files@.len() ==> is_relative((#[trigger] files@[i])@.path),
    ensures
        final(store).well_formed(),
        final(store).faults() == old(store).faults(),
        final(store).tree() == stored_all(
            old(store).tree(),
            join(fs.root(), scope@),
            files@.map_values(|f: StoredFile| f@),
        ),
{
    let ghost entries = files@.map_values(|f: StoredFile| f@);
    let ghost below = join(fs.root(), scope@);
    let mut i: usize = 0;
    proof {
        assert(entries.take(0) =~= Seq::<Entry>::empty());
    }
    while i < files.len()
        invariant
            i <= files@.len(),
            store.well_formed(),
            store.faults() == old(store).faults(),
            below == join(fs.root(), scope@),
            entries == files@.map_values(|f: StoredFile| f@),
            is_relative(scope@),
            forall|k: int| 0 <= k < files@.len() ==> is_relative((#[trigger] files@[k])@.path),
            store.tree() == stored_all(old(store).tree(), below, entries.take(i as int)),
        decreases files.len() - i,
    {
        let file = &files[i];
        proof {
            assert(is_relative(files@[i as int]@.path));
        }
        let name = name_in(scope, file.path.as_str());
        let content = slice_to_vec(file.content.as_slice());
        proof {
            assert(entries.take(i + 1).drop_last() =~= entries.take(i as int));
            assert(entries.take(i + 1).last() == file@);
            assert(join(fs.root(), name@) == join(below, file@.path));
        }
        fs.write(store, name.as_str(), content);
        i = i + 1;
    }
    proof {
        assert(entries.take(i as int) =~= entries);
    }
}

/// Compares the artifact `file` of the test `test` and appends its outcomes
/// to `out`.
fn compare_artifact<F: FileSystem, C: Comparison>(
    fs: &F,
    store: &mut F::Store,
    test: &str,
    file: &str,
    comparison: &C,
    out: &mut Vec<Result>,
)
    requires
        old(store).well_formed(),
        is_relative(test@),
        is_relative(file@),
    ensures
        final(store).well_formed(),
        final(store).faults() == old(store).faults(),
        final(store).tree() == compare_one(
            old(store).tree(),
            old(store).faults(),
            fs.root(),
            test@,
            file@,
            *comparison,
        ).tree,
        result_views(final(out)@) == result_views(old(out)@) + compare_one(
            old(store).tree(),
            old(store).faults(),
            fs.root(),
            test@,
            file@,
            *comparison,
        ).results,
{
    proof {
        reveal_strlit("actual");
        reveal_strlit("expected");
        reveal_strlit("diff");
    }
    let ghost before = result_views(out@);
    let ghost root = fs.root();
    let actual_scope = scope_of("actual", test);
    let expected_scope = scope_of("expected", test);
    let diff_scope = scope_of("diff", test);
    let actual_name = name_in(actual_scope.as_str(), file);
    let expected_name = name_in(expected_scope.as_str(), file);
    let actual_path = fs.full_path_for(actual_name.as_str());
    let expected_path = fs.full_path_for(expected_name.as_str());
    proof {
        assert(join(root, actual_scope@) == scoped_root(root, "actual"@, test@));
        assert(join(root, expected_scope@) == scoped_root(root, "expected"@, test@));
        assert(join(root, diff_scope@) == scoped_root(root, "diff"@, test@));
        assert(join(root, actual_name@) == join(join(root, actual_scope@), file@));
        assert(join(root, expected_name@) == join(join(root, expected_scope@), file@));
    }
    if !fs.file_exists(store, actual_name.as_str()) {
        let result = Result::actual_not_found(test, file, actual_path, expected_path);
        proof {
            assert(result_views(out@.push(result)) =~= before + seq![result@]);
        }
        out.push(result);
        return ;
    }
    if !fs.file_exists(store, expected_name.as_str()) {
        let result = Result::expected_not_found(test, file, actual_path, expected_path);
        proof {
            assert(result_views(out@.push(result)) =~= before + seq![result@]);
        }
        out.push(result);
        return ;
    }
    let actual = match fs.read(store, actual_name.as_str()) {
        Ok(content) => content,
        Err(detail) => {
            let result = Result::io_error(test, file, detail);
            proof {
                assert(result_views(out@.push(result)) =~= before + seq![result@]);
            }
            out.push(result);
            return ;
        },
    };
    let expected = match fs.read(store, expected_name.as_str()) {
        Ok(content) => content,
        Err(detail) => {
            let result = Result::io_error(test, file, detail);
            proof {
                assert(result_views(out@.push(result)) =~= before + seq![result@]);
            }
            out.push(result);
            return ;
        },
    };
    match comparison.equal(&actual, &expected) {
        Err(detail) => {
            let result = Result::io_error(test, file, detail);
            proof {
                assert(result_views(out@.push(result)) =~= before + seq![result@]);
            }
            out.push(result);
        },
        Ok(true) => {
            let result = Result::ok(test, file);
            proof {
                assert(result_views(out@.push(result)) =~= before + seq![result@]);
            }
            out.push(result);
        },
        Ok(false) => {
            let mut requester = WriteRequester::new(fs.full_path_for(diff_scope.as_str()));
            let failure = comparison.diff(&actual, &expected, file, &mut requester);
            let ghost explained = comparison.explained(
                actual@,
                expected@,
                file@,
                fresh(scoped_root(root, "diff"@, test@)),
            );
            proof {
                requester.names_are_relative();
                comparison.explained_extends(
                    actual@,
                    expected@,
                    file@,
                    fresh(scoped_root(root, "diff"@, test@)),
                );
                assert(requester@ == explained.requester);
            }
            let (diffs, sidecars, renderer) = requester.into_parts();
            let html = match renderer {
                Some(renderer) => renderer.render(
                    actual_path.as_str(),
                    expected_path.as_str(),
                    &diffs,
                ),
                None => None,
            };
            proof {
                assert(views(diffs@) =~= requested_paths(
                    explained.requester.root,
                    explained.requester.pending,
                ));
                assert(diffs@.map_values(|s: String| s@) =~= views(diffs@));
            }
            let difference = Result::difference(
                test,
                file,
                actual_path,
                expected_path,
                diffs,
                html,
            );
            proof {
                assert(result_views(out@.push(difference)) =~= before + seq![difference@]);
            }
            out.push(difference);
            match failure {
                Err(detail) => {
                    let result = Result::io_error(test, file, detail);
                    proof {
                        assert(result_views(out@.push(result)) =~= before + seq![
                            difference@,
                            result@,
                        ]);
                    }
                    out.push(result);
                },
                Ok(_) => {},
            }
            proof {
                assert forall|i: int| 0 <= i < sidecars@.len() implies is_relative(
                    (#[trigger] sidecars@[i])@.path,
                ) by {
                    assert(sidecars@.map_values(|f: StoredFile| f@)[i] == sidecars@[i]@);
                }
            }
            store_sidecars(fs, store, diff_scope.as_str(), &sidecars);
        },
    }
}

/// Validates the test `name`: compares every artifact that the provider
/// registered with its baseline in the store, below the root of `fs`,
/// stores the sidecar files of those that differ, and reports the baselines
/// that the test did not write.
pub fn validate<F: FileSystem, C: Comparison, Fi: FileFilter>(
    name: &str,
    fs: &F,
    store: &mut F::Store,
    provider: Provider<C>,
    filter: Fi,
) -> (out: Vec<Result>)
    requires
        old(store).well_formed(),
        provider.well_formed(),
        is_relative(name@),
    ensures
        final(store).well_formed(),
        final(store).faults() == old(store).faults(),
        result_views(out@) == validated(
            provider.registrations(),
            filter,
            old(store).tree(),
            old(store).faults(),
            fs.root(),
            name@,
        ).results,
        final(store).tree() == validated(
            provider.registrations(),
            filter,
            old(store).tree(),
            old(store).faults(),
            fs.root(),
            name@,
        ).tree,
{
    proof {
        reveal_strlit("actual");
        reveal_strlit("expected");
    }
    let ghost root = fs.root();
    let ghost start = store.tree();
    let ghost faults = store.faults();
    let ghost registered = provider.registrations();
    let registrations = provider.into_registrations();
    let mut visited: Vec<String> = Vec::new();
    let mut out: Vec<Result> = Vec::new();
    let mut i: usize = 0;
    proof {
        assert(registered.take(0) =~= Seq::<Registration<C>>::empty());
        assert(views(visited@) =~= Seq::<Seq<char>>::empty());
        assert(result_views(out@) =~= Seq::<ResultModel>::empty());
    }
    while i < registrations.len()
        invariant
            i <= registrations@.len(),
            registrations@ == registered,
            forall|k: int|
                0 <= k < registered.len() ==> is_relative((#[trigger] registered[k]).name@),
            is_relative(name@),
            store.well_formed(),
            fs.root() == root,
            store.faults() == faults,
            views(visited@) == compare_all(
                registered.take(i as int),
                filter,
                start,
                faults,
                root,
                name@,
            ).visited,
            result_views(out@) == compare_all(
                registered.take(i as int),
                filter,
                start,
                faults,
                root,
                name@,
            ).results,
            store.tree() == compare_all(
                registered.take(i as int),
                filter,
                start,
                faults,
                root,
                name@,
            ).tree,
        decreases registrations.len() - i,
    {
        let registration = &registrations[i];
        proof {
            assert(registered.take(i + 1).drop_last() =~= registered.take(i as int));
            assert(registered.take(i + 1).last() == registered[i as int]);
            assert(is_relative(registered[i as int].name@));
        }
        let file = registration.name.as_str();
        if filter.accepts(file) && !listed(&visited, file) {
            let seen = String::from_str(file);
            proof {
                assert(views(visited@.push(seen)) =~= views(visited@).push(file@));
            }
            visited.push(seen);
            compare_artifact(fs, store, name, file, &registration.comparison, &mut out);
        }
        i = i + 1;
    }
    proof {
        assert(registered.take(i as int) =~= registered);
    }
    let ghost compared = compare_all(registered, filter, start, faults, root, name@);
    let expected_scope = scope_of("expected", name);
    let actual_scope = scope_of("actual", name);
    let expected_fs = fs.subsystem(expected_scope.as_str());
    let baselines = expected_fs.files(store);
    let ghost names = names_below(scoped_root(root, "expected"@, name@), compared.tree);
    proof {
        assert(join(root, expected_scope@) == scoped_root(root, "expected"@, name@));
        assert(join(root, actual_scope@) == scoped_root(root, "actual"@, name@));
        assert(views(baselines@) =~= names);
        assert(names.take(0) =~= Seq::<Seq<char>>::empty());
        lemma_names_below_relative(scoped_root(root, "expected"@, name@), compared.tree);
    }
    let mut j: usize = 0;
    while j < baselines.len()
        invariant
            j <= baselines@.len(),
            views(baselines@) == names,
            forall|k: int| 0 <= k < names.len() ==> is_relative(#[trigger] names[k]),
            is_relative(name@),
            is_relative(actual_scope@),
            is_relative(expected_scope@),
            join(root, expected_scope@) == scoped_root(root, "expected"@, name@),
            join(root, actual_scope@) == scoped_root(root, "actual"@, name@),
            store.well_formed(),
            fs.root() == root,
            store.faults() == faults,
            store.tree() == compared.tree,
            views(visited@) == compared.visited,
            result_views(out@) == compared.results + orphans(
                names.take(j as int),
                filter,
                compared.visited,
                compared.tree,
                root,
                name@,
            ),
        decreases baselines.len() - j,
    {
        let file = baselines[j].as_str();
        proof {
            assert(names.take(j + 1).drop_last() =~= names.take(j as int));
            assert(names.take(j + 1).last() == file@);
            assert(is_relative(names[j as int]));
        }
        if filter.accepts(file) && !listed(&visited, file) {
            let actual_name = name_in(actual_scope.as_str(), file);
            proof {
                assert(join(root, actual_name@) == join(join(root, actual_scope@), file@));
            }
            if !fs.file_exists(store, actual_name.as_str()) {
                let expected_name = name_in(expected_scope.as_str(), file);
                proof {
                    assert(join(root, expected_name@) == join(join(root, expected_scope@), file@));
                }
                let result = Result::actual_not_found(
                    name,
                    file,
                    fs.full_path_for(actual_name.as_str()),
                    fs.full_path_for(expected_name.as_str()),
                );
                proof {
                    assert(result_views(out@.push(result)) =~= result_views(out@).push(result@));
                }
                out.push(result);
            }
        }
        j = j + 1;
    }
    proof {
        assert(names.take(j as int) =~= names);
    }
    out
}

} // verus!
