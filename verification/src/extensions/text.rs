//! Comparing text: the contents must be the same bytes; a difference is
//! explained by the lines that were added, kept and removed.

use vstd::prelude::*;
use vstd::string::*;
use vstd::utf8::{valid_utf8, decode_utf8};
use crate::path::is_relative;
use crate::filesystem::Entry;
use crate::provider::{RequesterModel, RendererModel, WriteRequester, HtmlRenderer};
use crate::comparison::{Comparison, Verdict, Explained};
use crate::diff::{bytes_of, with_ending, add_extension, bitwise_equals, lemma_with_ending_relative};
use crate::extensions::escape::{escaped, escape_html};
use crate::path::join;
use crate::filesystem::{FileSystem, Storage};
use crate::provider::{Provider, Writer, opened, written, committed};
use crate::extensions::strategy::{Strategy, registered, register, register_content};

verus! {

/// One line of a comparison of two texts, line by line.
#[derive(Debug, PartialEq, Eq, Clone)]
pub enum Change {
    /// A line that only the left text has.
    Left(String),
    /// A line that both texts have.
    Both(String),
    /// A line that only the right text has.
    Right(String),
}

/// The mathematical value of a [`Change`].
pub enum ChangeModel {
    Left(Seq<char>),
    Both(Seq<char>),
    Right(Seq<char>),
}

impl View for Change {
    type V = ChangeModel;

    open spec fn view(&self) -> ChangeModel {
        match *self {
            Change::Left(l) => ChangeModel::Left(l@),
            Change::Both(l) => ChangeModel::Both(l@),
            Change::Right(r) => ChangeModel::Right(r@),
        }
    }
}

/// A list of changes as the list of their values.
pub open spec fn change_views(changes: Seq<Change>) -> Seq<ChangeModel> {
    changes.map_values(|c: Change| c@)
}

/// The line-by-line comparison of two texts that `diff::lines` computes.
pub uninterp spec fn line_diff(left: Seq<char>, right: Seq<char>) -> Seq<ChangeModel>;

/// Two texts are short enough to compare when the table over their lines
/// can be addressed.
pub open spec fn comparable(left: Seq<char>, right: Seq<char>) -> bool {
    (left.len() + 1) * (right.len() + 1) <= usize::MAX
}

/// Compares two texts line by line.
///
/// Calls `diff::lines`. Trusted: the result is a function of the two texts
/// alone. The call builds a table with one cell for each pair of a line of
/// the left and a line of the right text, so texts whose table cannot be
/// addressed are left out.
#[verifier::external_body]
fn diff_lines(left: &str, right: &str) -> (r: Vec<Change>)
    requires
        comparable(left@, right@),
    ensures
        change_views(r@) == line_diff(left@, right@),
{
    diff::lines(left, right).into_iter().map(
        |d| match d {
            diff::Result::Left(l) => Change::Left(l.to_string()),
            diff::Result::Both(l, _) => Change::Both(l.to_string()),
            diff::Result::Right(r) => Change::Right(r.to_string()),
        },
    ).collect()
}

/// Reads bytes as text.
///
/// Calls `String::from_utf8`. Trusted: the bytes are read as text exactly
/// when they are valid UTF-8, and the text is then what they decode to.
#[verifier::external_body]
fn text_of(bytes: &Vec<u8>) -> (r: Option<String>)
    ensures
        r.is_some() == valid_utf8(bytes@),
        r.is_some() ==> r.unwrap()@ == decode_utf8(bytes@),
{
    String::from_utf8(bytes.clone()).ok()
}

/// One change as a line of a diff: `+` before a line of the left text, a
/// blank before a line of both, `-` before a line of the right text.
pub open spec fn change_line(change: ChangeModel) -> Seq<char> {
    match change {
        ChangeModel::Left(l) => "+"@ + l + "\n"@,
        ChangeModel::Both(l) => " "@ + l + "\n"@,
        ChangeModel::Right(r) => "-"@ + r + "\n"@,
    }
}

/// The changes as a diff, one line each.
pub open spec fn unified(changes: Seq<ChangeModel>) -> Seq<char>
    decreases changes.len(),
{
    if changes.len() == 0 {
        Seq::empty()
    } else {
        unified(changes.drop_last()) + change_line(changes.last())
    }
}

/// Writes the changes as a diff, one line each.
pub fn render_changes(changes: &Vec<Change>) -> (r: String)
    ensures
        r@ == unified(change_views(changes@)),
{
    let ghost models = change_views(changes@);
    let mut out = String::new();
    let mut i: usize = 0;
    proof {
        assert(models.take(0) =~= Seq::<ChangeModel>::empty());
    }
    while i < changes.len()
        invariant
            i <= changes@.len(),
            models == change_views(changes@),
            out@ == unified(models.take(i as int)),
        decreases changes.len() - i,
    {
        let ghost before = out@;
        proof {
            assert(models.take(i + 1).drop_last() =~= models.take(i as int));
            assert(models.take(i + 1).last() == changes@[i as int]@);
        }
        match &changes[i] {
            Change::Left(l) => {
                out.append("+");
                out.append(l.as_str());
            },
            Change::Both(l) => {
                out.append(" ");
                out.append(l.as_str());
            },
            Change::Right(r) => {
                out.append("-");
                out.append(r.as_str());
            },
        }
        out.append("\n");
        proof {
            assert(out@ =~= before + change_line(changes@[i as int]@));
        }
        i = i + 1;
    }
    proof {
        assert(models.take(i as int) =~= models);
    }
    out
}

/// The snippet that shows both texts and their diff, each escaped.
pub open spec fn text_html(actual: Seq<char>, expected: Seq<char>, diff: Seq<char>) -> Seq<char> {
    "<h3> Actual </h3><code><pre>"@ + escaped(actual)
        + "</pre></code><h3> Expected </h3><code><pre>"@ + escaped(expected)
        + "</pre></code><h3> Diff </h3><code><pre>"@ + escaped(diff) + "</pre></code>"@
}

/// Writes the snippet that shows both texts and their diff.
pub fn render_text_html(actual: &str, expected: &str, diff: &str) -> (r: String)
    ensures
        r@ == text_html(actual@, expected@, diff@),
{
    let mut out = String::from_str("<h3> Actual </h3><code><pre>");
    out.append(escape_html(actual).as_str());
    out.append("</pre></code><h3> Expected </h3><code><pre>");
    out.append(escape_html(expected).as_str());
    out.append("</pre></code><h3> Diff </h3><code><pre>");
    out.append(escape_html(diff).as_str());
    out.append("</pre></code>");
    out
}

/// What a content that is no text is reported with.
pub open spec fn not_text() -> Seq<char> {
    "stream did not contain valid UTF-8"@
}

/// What two texts that are too long to compare are reported with.
pub open spec fn too_long() -> Seq<char> {
    "texts are too long to compare line by line"@
}

/// Explaining a difference between two texts.
///
/// Contents that are no text, and texts too long to compare, fail and ask
/// for nothing. Otherwise the diff of the two texts goes to the sidecar file
/// `<name>.diff`, and the renderer shows both texts and the diff.
pub open spec fn text_explained(
    actual: Seq<u8>,
    expected: Seq<u8>,
    name: Seq<char>,
    before: RequesterModel,
) -> Explained {
    if !valid_utf8(actual) || !valid_utf8(expected) {
        Explained { requester: before, failure: Some(not_text()) }
    } else if !comparable(decode_utf8(actual), decode_utf8(expected)) {
        Explained { requester: before, failure: Some(too_long()) }
    } else {
        let diff = unified(line_diff(decode_utf8(actual), decode_utf8(expected)));
        Explained {
            requester: RequesterModel {
                pending: before.pending.push(
                    Entry { path: with_ending(name, ".diff"@), content: bytes_of(diff) },
                ),
                renderer: Some(
                    RendererModel::Fixed(
                        text_html(decode_utf8(actual), decode_utf8(expected), diff),
                    ),
                ),
                ..before
            },
            failure: None,
        }
    }
}

/// Tells whether two contents are the same text: the same bytes.
pub fn text_eq(actual: &Vec<u8>, expected: &Vec<u8>) -> (r: core::result::Result<bool, String>)
    ensures
        r.is_ok(),
        r.unwrap() == (actual@ == expected@),
{
    Ok(bitwise_equals(actual.as_slice(), expected.as_slice()))
}

/// Tells whether two texts are short enough to compare line by line.
fn can_compare(left: &str, right: &str) -> (r: bool)
    ensures
        r == comparable(left@, right@),
{
    let l: usize = left.unicode_len();
    let r: usize = right.unicode_len();
    if l == usize::MAX || r == usize::MAX {
        assert((l + 1) * (r + 1) > usize::MAX) by (nonlinear_arith)
            requires
                l == usize::MAX || r == usize::MAX,
                l >= 0,
                r >= 0,
        ;
        return false;
    }
    let a: u128 = (l + 1) as u128;
    let b: u128 = (r + 1) as u128;
    assert(a * b <= 0xffff_ffff_ffff_ffff * 0xffff_ffff_ffff_ffff) by (nonlinear_arith)
        requires
            0 <= a <= 0xffff_ffff_ffff_ffff,
            0 <= b <= 0xffff_ffff_ffff_ffff,
    ;
    a * b <= usize::MAX as u128
}

/// Explains a difference between two texts by their diff, line by line.
pub fn text_diff(
    actual: &Vec<u8>,
    expected: &Vec<u8>,
    name: &str,
    requester: &mut WriteRequester,
) -> (r: core::result::Result<(), String>)
    requires
        is_relative(name@),
        old(requester).well_formed(),
    ensures
        final(requester).well_formed(),
        (Explained {
            requester: final(requester)@,
            failure: match r {
                Ok(_) => None,
                Err(detail) => Some(detail@),
            },
        }) == text_explained(actual@, expected@, name@, old(requester)@),
{
    let s1 = match text_of(actual) {
        Some(text) => text,
        None => {
            return Err(String::from_str("stream did not contain valid UTF-8"));
        },
    };
    let s2 = match text_of(expected) {
        Some(text) => text,
        None => {
            return Err(String::from_str("stream did not contain valid UTF-8"));
        },
    };
    if !can_compare(s1.as_str(), s2.as_str()) {
        return Err(String::from_str("texts are too long to compare line by line"));
    }
    let changes = diff_lines(s1.as_str(), s2.as_str());
    let diff = render_changes(&changes);
    let sidecar = add_extension(name, ".diff");
    proof {
        reveal_strlit(".diff");
        lemma_with_ending_relative(name@, ".diff"@);
    }
    let content = diff.as_str().as_bytes_vec();
    let _ = requester.request(sidecar.as_str(), content);
    let html = render_text_html(s1.as_str(), s2.as_str(), diff.as_str());
    requester.set_html_renderer(HtmlRenderer::Fixed(html));
    Ok(())
}

/// Compares texts.
#[derive(Debug, Clone, Copy)]
pub struct Text;

impl Comparison for Text {
    open spec fn verdict(&self, actual: Seq<u8>, expected: Seq<u8>) -> Verdict {
        if actual == expected {
            Verdict::Equal
        } else {
            Verdict::Unequal
        }
    }

    open spec fn explained(
        &self,
        actual: Seq<u8>,
        expected: Seq<u8>,
        name: Seq<char>,
        before: RequesterModel,
    ) -> Explained {
        text_explained(actual, expected, name, before)
    }

    proof fn explained_extends(
        &self,
        actual: Seq<u8>,
        expected: Seq<u8>,
        name: Seq<char>,
        before: RequesterModel,
    ) {
    }

    fn equal(&self, actual: &Vec<u8>, expected: &Vec<u8>) -> (r: core::result::Result<
        bool,
        String,
    >) {
        text_eq(actual, expected)
    }

    fn diff(
        &self,
        actual: &Vec<u8>,
        expected: &Vec<u8>,
        name: &str,
        requester: &mut WriteRequester,
    ) -> (r: core::result::Result<(), String>) {
        text_diff(actual, expected, name, requester)
    }
}

/// Text artifacts on a provider.
pub trait TextDiffExtension: Sized {
    /// The provider that the artifacts are registered with.
    spec fn provider(&self) -> Provider<Strategy>;

    /// Registers the text artifact `filename` and opens a writer for it.
    fn text_writer(&mut self, filename: &str) -> (r: Writer)
        requires
            old(self).provider().well_formed(),
            is_relative(filename@),
        ensures
            registered(old(self).provider(), final(self).provider(), filename@, Strategy::Text),
            r.well_formed(),
            r@ == opened(join(old(self).provider().scope(), filename@)),
            is_relative(r@.path),
    ;

    /// Registers the text artifact `filename` and stores `text` as its
    /// content; an empty text stores nothing.
    fn text<F: FileSystem>(&mut self, fs: &F, store: &mut F::Store, filename: &str, text: &str)
        requires
            old(self).provider().well_formed(),
            old(store).well_formed(),
            is_relative(filename@),
        ensures
            registered(old(self).provider(), final(self).provider(), filename@, Strategy::Text),
            final(store).well_formed(),
            final(store).faults() == old(store).faults(),
            final(store).tree() == committed(
                old(store).tree(),
                fs.root(),
                written(opened(join(old(self).provider().scope(), filename@)), bytes_of(text@)),
            ),
    ;
}

impl TextDiffExtension for Provider<Strategy> {
    open spec fn provider(&self) -> Provider<Strategy> {
        *self
    }

    fn text_writer(&mut self, filename: &str) -> (r: Writer) {
        register(self, filename, Strategy::Text)
    }

    fn text<F: FileSystem>(&mut self, fs: &F, store: &mut F::Store, filename: &str, text: &str) {
        register_content(self, fs, store, filename, Strategy::Text, text.as_bytes());
    }
}

} // verus!
