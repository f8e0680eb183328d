//! The comparisons that come with the library, as one type, so that one
//! provider can hold artifacts of every kind.

use vstd::prelude::*;
use crate::path::{is_relative, join};
use crate::filesystem::{FileSystem, Storage};
use crate::provider::{Provider, RequesterModel, WriteRequester, Writer, opened, written, committed};
use crate::comparison::{Comparison, Verdict, Explained};
use crate::diff::Bytes;
use crate::extensions::text::Text;
use crate::extensions::svg::Svg;
use crate::extensions::image::Image;

verus! {

/// One of the comparisons that come with the library.
#[derive(Debug, Clone, Copy, PartialEq, Eq)]
pub enum Strategy {
    /// Byte by byte, explained by a dump of both sides.
    Bytes,
    /// As text, explained by a diff of the lines.
    Text,
    /// As the text of an SVG drawing, shown as images.
    Svg,
    /// As a PNG image, explained by images of the difference.
    Image,
}

impl Comparison for Strategy {
    open spec fn verdict(&self, actual: Seq<u8>, expected: Seq<u8>) -> Verdict {
        match *self {
            Strategy::Bytes => Bytes.verdict(actual, expected),
            Strategy::Text => Text.verdict(actual, expected),
            Strategy::Svg => Svg.verdict(actual, expected),
            Strategy::Image => Image.verdict(actual, expected),
        }
    }

    open spec fn explained(
        &self,
        actual: Seq<u8>,
        expected: Seq<u8>,
        name: Seq<char>,
        before: RequesterModel,
    ) -> Explained {
        match *self {
            Strategy::Bytes => Bytes.explained(actual, expected, name, before),
            Strategy::Text => Text.explained(actual, expected, name, before),
            Strategy::Svg => Svg.explained(actual, expected, name, before),
            Strategy::Image => Image.explained(actual, expected, name, before),
        }
    }

    proof fn explained_extends(
        &self,
        actual: Seq<u8>,
        expected: Seq<u8>,
        name: Seq<char>,
        before: RequesterModel,
    ) {
        match *self {
            Strategy::Bytes => Bytes.explained_extends(actual, expected, name, before),
            Strategy::Text => Text.explained_extends(actual, expected, name, before),
            Strategy::Svg => Svg.explained_extends(actual, expected, name, before),
            Strategy::Image => Image.explained_extends(actual, expected, name, before),
        }
    }

    fn equal(&self, actual: &Vec<u8>, expected: &Vec<u8>) -> (r: core::result::Result<
        bool,
        String,
    >) {
        match self {
            Strategy::Bytes => Bytes.equal(actual, expected),
            Strategy::Text => Text.equal(actual, expected),
            Strategy::Svg => Svg.equal(actual, expected),
            Strategy::Image => Image.equal(actual, expected),
        }
    }

    fn diff(
        &self,
        actual: &Vec<u8>,
        expected: &Vec<u8>,
        name: &str,
        requester: &mut WriteRequester,
    ) -> (r: core::result::Result<(), String>) {
        match self {
            Strategy::Bytes => Bytes.diff(actual, expected, name, requester),
            Strategy::Text => Text.diff(actual, expected, name, requester),
            Strategy::Svg => Svg.diff(actual, expected, name, requester),
            Strategy::Image => Image.diff(actual, expected, name, requester),
        }
    }
}

/// `after` is `before` with the artifact `name` registered last, compared
/// by `strategy`.
pub open spec fn registered(
    before: Provider<Strategy>,
    after: Provider<Strategy>,
    name: Seq<char>,
    strategy: Strategy,
) -> bool {
    &&& after.well_formed()
    &&& after.scope() == before.scope()
    &&& after.registrations().len() == before.registrations().len() + 1
    &&& after.registrations().drop_last() == before.registrations()
    &&& after.registrations().last().name@ == name
    &&& after.registrations().last().comparison == strategy
}

/// Registers the artifact `name` with one of the library's comparisons and
/// opens a writer for it.
pub fn register(provider: &mut Provider<Strategy>, name: &str, strategy: Strategy) -> (r: Writer)
    requires
        old(provider).well_formed(),
        is_relative(name@),
    ensures
        registered(*old(provider), *final(provider), name@, strategy),
        r.well_formed(),
        r@ == opened(join(old(provider).scope(), name@)),
        is_relative(r@.path),
{
    let writer = provider.custom_test(name, strategy);
    proof {
        assert(provider.registrations().drop_last() =~= old(provider).registrations());
    }
    writer
}

/// Registers the artifact `name` with one of the library's comparisons,
/// writes `content` to its writer and commits it: the content is stored
/// below the provider's scope if it holds at least one byte.
pub fn register_content<F: FileSystem>(
    provider: &mut Provider<Strategy>,
    fs: &F,
    store: &mut F::Store,
    name: &str,
    strategy: Strategy,
    content: &[u8],
)
    requires
        old(provider).well_formed(),
        old(store).well_formed(),
        is_relative(name@),
    ensures
        registered(*old(provider), *final(provider), name@, strategy),
        final(store).well_formed(),
        final(store).faults() == old(store).faults(),
        final(store).tree() == committed(
            old(store).tree(),
            fs.root(),
            written(opened(join(old(provider).scope(), name@)), content@),
        ),
{
    let mut writer = register(provider, name, strategy);
    writer.write(content);
    writer.commit(fs, store);
}

} // verus!
