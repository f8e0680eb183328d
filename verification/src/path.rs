//! Paths as plain strings with `/` between components.
//!
//! A storage root and the names below it are `String`s. Joining puts exactly
//! one separator between a root and a relative name, unless the root is empty
//! or already ends in one.

use vstd::prelude::*;
use vstd::string::*;
use vstd::std_specs::iter::IteratorSpec;

verus! {

broadcast use {vstd::string::next_postcondition, vstd::string::axiom_spec_iter};

/// A path is relative when it does not start at the top of the tree.
pub open spec fn is_relative(path: Seq<char>) -> bool {
    path.len() == 0 || path[0] != '/'
}

/// The root as a prefix of the names below it: the root itself when it is
/// empty or ends in a separator, the root and a separator otherwise.
pub open spec fn prefix_of(root: Seq<char>) -> Seq<char> {
    if root.len() == 0 || root.last() == '/' {
        root
    } else {
        root.push('/')
    }
}

/// The path of `rel` below `root`.
pub open spec fn join(root: Seq<char>, rel: Seq<char>) -> Seq<char> {
    prefix_of(root) + rel
}

/// The characters of a string, one by one.
pub fn chars_of(s: &str) -> (r: Vec<char>)
    ensures
        r@ == s@,
{
    let n: usize = s.unicode_len();
    let mut out: Vec<char> = Vec::new();
    let mut it = s.chars();
    let mut i: usize = 0;
    while i < n
        invariant
            n == s@.len(),
            i <= n,
            out@ == s@.take(i as int),
            it.obeys_prophetic_iter_laws(),
            it.remaining() == s@.skip(i as int),
        decreases n - i,
    {
        let ghost before = it;
        let next = it.next();
        proof {
            assert(before.remaining().len() > 0);
            assert(next == Some(s@[i as int]));
            assert(it.remaining() =~= s@.skip(i + 1));
            assert(s@.take(i + 1) =~= s@.take(i as int).push(s@[i as int]));
        }
        out.push(next.unwrap());
        i = i + 1;
    }
    proof {
        assert(s@.take(n as int) =~= s@);
    }
    out
}

/// Tells whether `path` is relative.
pub fn path_is_relative(path: &str) -> (r: bool)
    ensures
        r == is_relative(path@),
{
    if path.unicode_len() == 0 {
        true
    } else {
        path.get_char(0) != '/'
    }
}

/// Joins a relative name to a root.
pub fn join_path(root: &str, rel: &str) -> (r: String)
    ensures
        r@ == join(root@, rel@),
{
    let n: usize = root.unicode_len();
    let mut out = String::from_str(root);
    if n != 0 && root.get_char(n - 1) != '/' {
        out.append("/");
        proof {
            reveal_strlit("/");
            assert("/"@ =~= seq!['/']);
            assert(out@ =~= root@.push('/'));
        }
    }
    out.append(rel);
    out
}

/// `text` ends in `suffix`.
pub open spec fn has_suffix(text: Seq<char>, suffix: Seq<char>) -> bool {
    suffix.len() <= text.len() && text.skip(text.len() - suffix.len()) == suffix
}

/// Tells whether `text` ends in `suffix`.
pub fn ends_with(text: &str, suffix: &str) -> (r: bool)
    ensures
        r == has_suffix(text@, suffix@),
{
    let t = chars_of(text);
    let s = chars_of(suffix);
    if s.len() > t.len() {
        return false;
    }
    let start: usize = t.len() - s.len();
    let mut i: usize = 0;
    while i < s.len()
        invariant
            i <= s.len() <= t.len(),
            start == t.len() - s.len(),
            t@ == text@,
            s@ == suffix@,
            forall|k: int| 0 <= k < i ==> t@[start + k] == s@[k],
        decreases s.len() - i,
    {
        if t[start + i] != s[i] {
            proof {
                assert(text@.skip(start as int)[i as int] != suffix@[i as int]);
            }
            return false;
        }
        i = i + 1;
    }
    proof {
        assert(text@.skip(start as int) =~= suffix@);
    }
    true
}

/// `part` occurs in `text`.
pub open spec fn occurs_in(part: Seq<char>, text: Seq<char>) -> bool {
    exists|at: int|
        0 <= at <= text.len() - part.len() && #[trigger] text.subrange(at, at + part.len())
            == part
}

/// Tells whether `part` stands in `text` at position `at`.
fn occurs_at(text: &Vec<char>, part: &Vec<char>, at: usize) -> (r: bool)
    requires
        at + part@.len() <= text@.len(),
    ensures
        r == (text@.subrange(at as int, at + part@.len()) == part@),
{
    let mut i: usize = 0;
    let n: usize = text.len();
    while i < part.len()
        invariant
            i <= part.len(),
            at + part@.len() <= text@.len(),
            text@.len() == n,
            forall|k: int| 0 <= k < i ==> text@[at + k] == part@[k],
        decreases part.len() - i,
    {
        if text[at + i] != part[i] {
            proof {
                assert(text@.subrange(at as int, at + part@.len())[i as int] != part@[i as int]);
            }
            return false;
        }
        i = i + 1;
    }
    proof {
        assert(text@.subrange(at as int, at + part@.len()) =~= part@);
    }
    true
}

/// Tells whether `part` occurs in `text`.
pub fn contains(text: &str, part: &str) -> (r: bool)
    ensures
        r == occurs_in(part@, text@),
{
    let t = chars_of(text);
    let p = chars_of(part);
    if p.len() > t.len() {
        return false;
    }
    let last: usize = t.len() - p.len();
    let mut at: usize = 0;
    while at < last
        invariant
            at <= last,
            last == t.len() - p.len(),
            t@ == text@,
            p@ == part@,
            forall|k: int| 0 <= k < at ==> #[trigger] text@.subrange(k, k + part@.len()) != part@,
        decreases last - at,
    {
        if occurs_at(&t, &p, at) {
            return true;
        }
        at = at + 1;
    }
    occurs_at(&t, &p, last)
}

/// A joined path is relative when its root is relative and not empty, or
/// when the root is empty and the name is relative.
pub proof fn lemma_join_relative(root: Seq<char>, rel: Seq<char>)
    requires
        is_relative(root),
        is_relative(rel),
    ensures
        is_relative(join(root, rel)),
{
}

/// Joining is associative over relative names: scoping twice is scoping once
/// by the joined name.
pub proof fn lemma_join_assoc(root: Seq<char>, a: Seq<char>, b: Seq<char>)
    requires
        is_relative(a),
    ensures
        join(join(root, a), b) == join(root, join(a, b)),
{
    let ra = join(root, a);
    if a.len() == 0 {
        assert(ra =~= prefix_of(root));
        assert(prefix_of(ra) =~= ra);
        assert(join(a, b) =~= b);
    } else {
        assert(ra.last() == a.last());
        if a.last() == '/' {
            assert(prefix_of(ra) =~= ra);
        } else {
            assert(prefix_of(ra) =~= prefix_of(root) + a.push('/'));
        }
        assert(join(ra, b) =~= join(root, join(a, b)));
    }
}

} // verus!
