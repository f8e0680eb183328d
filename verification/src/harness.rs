//! The start of a test: a provider whose writers store below the test's
//! `actual` root.

use vstd::prelude::*;
use vstd::string::*;
use crate::path::{is_relative, join, join_path, lemma_join_relative, lemma_join_assoc};
use crate::provider::{Provider, Registration};
use crate::extensions::strategy::Strategy;
use crate::validation::scoped_root;

verus! {

/// A provider for the test `name` with nothing registered. What its writers
/// commit is stored where validation looks for what the test wrote.
pub fn difftest(name: &str) -> (r: Provider<Strategy>)
    requires
        is_relative(name@),
    ensures
        r.well_formed(),
        r.scope() == join("actual"@, name@),
        r.registrations() == Seq::<Registration<Strategy>>::empty(),
        forall|root: Seq<char>, file: Seq<char>| #[trigger]
            join(root, join(r.scope(), file)) == join(scoped_root(root, "actual"@, name@), file),
{
    proof {
        reveal_strlit("actual");
        lemma_join_relative("actual"@, name@);
    }
    let scope = join_path("actual", name);
    proof {
        assert forall|root: Seq<char>, file: Seq<char>| #[trigger]
            join(root, join(scope@, file)) == join(
                scoped_root(root, "actual"@, name@),
                file,
            ) by {
            lemma_join_assoc(root, scope@, file);
            lemma_join_assoc(root, "actual"@, name@);
        }
    }
    Provider::new(scope)
}

} // verus!
