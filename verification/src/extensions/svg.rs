//! Comparing SVG drawings: they are compared as text, and the report shows
//! both drawings as images.

use vstd::prelude::*;
use crate::path::is_relative;
use crate::provider::{RequesterModel, RendererModel, WriteRequester, HtmlRenderer};
use crate::comparison::{Comparison, Verdict, Explained};
use crate::extensions::text::{text_eq, text_diff, text_explained};
use crate::path::join;
use crate::filesystem::{FileSystem, Storage};
use crate::provider::{Provider, Writer, opened, written, committed};
use crate::diff::bytes_of;
use crate::extensions::strategy::{Strategy, registered, register, register_content};

verus! {

/// Explaining a difference between two drawings: as for text, and where
/// that did not fail the renderer shows both drawings side by side.
pub open spec fn svg_explained(
    actual: Seq<u8>,
    expected: Seq<u8>,
    name: Seq<char>,
    before: RequesterModel,
) -> Explained {
    let text = text_explained(actual, expected, name, before);
    if text.failure.is_some() {
        text
    } else {
        Explained {
            requester: RequesterModel {
                renderer: Some(RendererModel::SideBySide),
                ..text.requester
            },
            failure: None,
        }
    }
}

/// Explains a difference between two drawings by the diff of their text.
pub fn svg_diff(
    actual: &Vec<u8>,
    expected: &Vec<u8>,
    name: &str,
    requester: &mut WriteRequester,
) -> (r: core::result::Result<(), String>)
    requires
        is_relative(name@),
        old(requester).well_formed(),
    ensures
        final(requester).well_formed(),
        (Explained {
            requester: final(requester)@,
            failure: match r {
                Ok(_) => None,
                Err(detail) => Some(detail@),
            },
        }) == svg_explained(actual@, expected@, name@, old(requester)@),
{
    match text_diff(actual, expected, name, requester) {
        Err(detail) => Err(detail),
        Ok(_) => {
            requester.set_html_renderer(HtmlRenderer::SideBySide);
            Ok(())
        },
    }
}

/// Compares SVG drawings.
#[derive(Debug, Clone, Copy)]
pub struct Svg;

impl Comparison for Svg {
    open spec fn verdict(&self, actual: Seq<u8>, expected: Seq<u8>) -> Verdict {
        if actual == expected {
            Verdict::Equal
        } else {
            Verdict::Unequal
        }
    }

    open spec fn explained(
        &self,
        actual: Seq<u8>,
        expected: Seq<u8>,
        name: Seq<char>,
        before: RequesterModel,
    ) -> Explained {
        svg_explained(actual, expected, name, before)
    }

    proof fn explained_extends(
        &self,
        actual: Seq<u8>,
        expected: Seq<u8>,
        name: Seq<char>,
        before: RequesterModel,
    ) {
    }

    fn equal(&self, actual: &Vec<u8>, expected: &Vec<u8>) -> (r: core::result::Result<
        bool,
        String,
    >) {
        text_eq(actual, expected)
    }

    fn diff(
        &self,
        actual: &Vec<u8>,
        expected: &Vec<u8>,
        name: &str,
        requester: &mut WriteRequester,
    ) -> (r: core::result::Result<(), String>) {
        svg_diff(actual, expected, name, requester)
    }
}

/// SVG artifacts on a provider.
pub trait SvgDiffExtension: Sized {
    /// The provider that the artifacts are registered with.
    spec fn provider(&self) -> Provider<Strategy>;

    /// Registers the SVG artifact `filename` and opens a writer for it.
    fn svg_writer(&mut self, filename: &str) -> (r: Writer)
        requires
            old(self).provider().well_formed(),
            is_relative(filename@),
        ensures
            registered(old(self).provider(), final(self).provider(), filename@, Strategy::Svg),
            r.well_formed(),
            r@ == opened(join(old(self).provider().scope(), filename@)),
            is_relative(r@.path),
    ;

    /// Registers the SVG artifact `filename` and stores `text` as its
    /// content; an empty text stores nothing.
    fn svg<F: FileSystem>(&mut self, fs: &F, store: &mut F::Store, filename: &str, text: &str)
        requires
            old(self).provider().well_formed(),
            old(store).well_formed(),
            is_relative(filename@),
        ensures
            registered(old(self).provider(), final(self).provider(), filename@, Strategy::Svg),
            final(store).well_formed(),
            final(store).faults() == old(store).faults(),
            final(store).tree() == committed(
                old(store).tree(),
                fs.root(),
                written(opened(join(old(self).provider().scope(), filename@)), bytes_of(text@)),
            ),
    ;
}

impl SvgDiffExtension for Provider<Strategy> {
    open spec fn provider(&self) -> Provider<Strategy> {
        *self
    }

    fn svg_writer(&mut self, filename: &str) -> (r: Writer) {
        register(self, filename, Strategy::Svg)
    }

    fn svg<F: FileSystem>(&mut self, fs: &F, store: &mut F::Store, filename: &str, text: &str) {
        register_content(self, fs, store, filename, Strategy::Svg, text.as_bytes());
    }
}

} // verus!
