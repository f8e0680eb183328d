//! What a test hands to the engine: the artifacts it registers, the buffered
//! writers it fills, and the collector through which a comparison asks for
//! the sidecar files that explain a difference.

use vstd::prelude::*;
use vstd::string::*;
use vstd::slice::*;
use crate::path::{is_relative, join, join_path, has_suffix, ends_with};
use crate::filesystem::{Entry, FileSystem, Storage, stored, has_file, content_of};
use crate::memory::StoredFile;
use crate::comparison::Comparison;

verus! {

/// How the report shows a difference.
#[derive(Debug)]
pub enum HtmlRenderer {
    /// A snippet that is already written.
    Fixed(String),
    /// Both sides as images, by their paths.
    SideBySide,
    /// The first sidecar that is a PNG image.
    FirstImage,
}

/// The mathematical value of an [`HtmlRenderer`].
pub enum RendererModel {
    Fixed(Seq<char>),
    SideBySide,
    FirstImage,
}

impl View for HtmlRenderer {
    type V = RendererModel;

    open spec fn view(&self) -> RendererModel {
        match *self {
            HtmlRenderer::Fixed(s) => RendererModel::Fixed(s@),
            HtmlRenderer::SideBySide => RendererModel::SideBySide,
            HtmlRenderer::FirstImage => RendererModel::FirstImage,
        }
    }
}

/// The first of `paths` that ends in `.png`.
pub open spec fn first_image(paths: Seq<Seq<char>>) -> Option<Seq<char>>
    decreases paths.len(),
{
    if paths.len() == 0 {
        None
    } else if has_suffix(paths[0], ".png"@) {
        Some(paths[0])
    } else {
        first_image(paths.skip(1))
    }
}

/// The snippet that shows both sides as images.
pub open spec fn side_by_side(actual: Seq<char>, expected: Seq<char>) -> Seq<char> {
    "\n        <h3> Actual </h3>\n        <img src=\""@ + actual
        + "\"/>\n        <h3> Expected </h3>\n        <img src=\""@ + expected
        + "\"/>\n\n        "@
}

/// The snippet that shows one image.
pub open spec fn single_image(path: Seq<char>) -> Seq<char> {
    "\n        <h3> Actual / Expected / Diff </h3>\n        <img src=\""@ + path
        + "\"/>\n        "@
}

/// The snippet that a renderer gives for a difference, if it gives one.
pub open spec fn rendered(
    renderer: RendererModel,
    actual: Seq<char>,
    expected: Seq<char>,
    diffs: Seq<Seq<char>>,
) -> Option<Seq<char>> {
    match renderer {
        RendererModel::Fixed(s) => Some(s),
        RendererModel::SideBySide => Some(side_by_side(actual, expected)),
        RendererModel::FirstImage => match first_image(diffs) {
            Some(path) => Some(single_image(path)),
            None => None,
        },
    }
}

impl HtmlRenderer {
    /// Writes the snippet for a difference between the files at `actual` and
    /// `expected`, explained by the sidecar files at `diffs`. The image
    /// renderer gives none when no sidecar is a PNG image.
    pub fn render(&self, actual: &str, expected: &str, diffs: &Vec<String>) -> (r: Option<String>)
        ensures
            r.is_some() == rendered(
                self@,
                actual@,
                expected@,
                diffs@.map_values(|s: String| s@),
            ).is_some(),
            r.is_some() ==> r.unwrap()@ == rendered(
                self@,
                actual@,
                expected@,
                diffs@.map_values(|s: String| s@),
            ).unwrap(),
    {
        match self {
            HtmlRenderer::Fixed(s) => Some(s.clone()),
            HtmlRenderer::SideBySide => {
                let mut out = String::from_str("\n        <h3> Actual </h3>\n        <img src=\"");
                out.append(actual);
                out.append("\"/>\n        <h3> Expected </h3>\n        <img src=\"");
                out.append(expected);
                out.append("\"/>\n\n        ");
                Some(out)
            },
            HtmlRenderer::FirstImage => {
                let ghost paths = diffs@.map_values(|s: String| s@);
                let mut i: usize = 0;
                proof {
                    assert(paths.skip(0) =~= paths);
                }
                while i < diffs.len()
                    invariant
                        i <= diffs@.len(),
                        self@ == RendererModel::FirstImage,
                        paths == diffs@.map_values(|s: String| s@),
                        first_image(paths) == first_image(paths.skip(i as int)),
                    decreases diffs.len() - i,
                {
                    if ends_with(diffs[i].as_str(), ".png") {
                        proof {
                            assert(paths.skip(i as int)[0] == diffs@[i as int]@);
                            assert(first_image(paths.skip(i as int)) == Some(diffs@[i as int]@));
                        }
                        let mut out = String::from_str(
                            "\n        <h3> Actual / Expected / Diff </h3>\n        <img src=\"",
                        );
                        out.append(diffs[i].as_str());
                        out.append("\"/>\n        ");
                        return Some(out);
                    }
                    proof {
                        assert(paths.skip(i as int)[0] == diffs@[i as int]@);
                        assert(paths.skip(i as int).skip(1) =~= paths.skip(i + 1));
                    }
                    i = i + 1;
                }
                None
            },
        }
    }
}

/// The mathematical value of a [`WriteRequester`]: the root that the
/// sidecar files go below, the files asked for so far, each with its name
/// below that root, and the renderer that was set last.
pub struct RequesterModel {
    pub root: Seq<char>,
    pub pending: Seq<Entry>,
    pub renderer: Option<RendererModel>,
}

/// The full paths of the files asked for, in the order of the requests.
pub open spec fn requested_paths(root: Seq<char>, pending: Seq<Entry>) -> Seq<Seq<char>> {
    pending.map_values(|e: Entry| join(root, e.path))
}

/// Collects the sidecar files that a comparison asks for.
#[derive(Debug)]
pub struct WriteRequester {
    root: String,
    files: Vec<String>,
    pending: Vec<StoredFile>,
    renderer: Option<HtmlRenderer>,
}

impl View for WriteRequester {
    type V = RequesterModel;

    closed spec fn view(&self) -> RequesterModel {
        RequesterModel {
            root: self.root@,
            pending: self.pending@.map_values(|f: StoredFile| f@),
            renderer: match self.renderer {
                Some(r) => Some(r@),
                None => None,
            },
        }
    }
}

impl WriteRequester {
    /// The collector's invariant: every name asked for is relative.
    pub closed spec fn well_formed(&self) -> bool {
        &&& self.files@.map_values(|s: String| s@) == requested_paths(self@.root, self@.pending)
        &&& forall|i: int| 0 <= i < self@.pending.len() ==> is_relative(self@.pending[i].path)
    }

    /// In a well-formed collector every name is relative.
    pub proof fn names_are_relative(&self)
        requires
            self.well_formed(),
        ensures
            forall|i: int| 0 <= i < self@.pending.len() ==> is_relative(self@.pending[i].path),
    {
    }

    /// A collector for the files below `root`, with nothing asked for.
    pub fn new(root: String) -> (r: Self)
        ensures
            r.well_formed(),
            r@ == (RequesterModel { root: root@, pending: Seq::empty(), renderer: None }),
    {
        let r = WriteRequester { root, files: Vec::new(), pending: Vec::new(), renderer: None };
        proof {
            assert(r@.pending =~= Seq::<Entry>::empty());
            assert(r.files@.map_values(|s: String| s@) =~= requested_paths(r@.root, r@.pending));
        }
        r
    }

    /// Asks for a sidecar file named `path` with the given content.
    pub fn request(&mut self, path: &str, content: Vec<u8>) -> (r: core::result::Result<
        (),
        String,
    >)
        requires
            old(self).well_formed(),
            is_relative(path@),
        ensures
            r.is_ok(),
            final(self).well_formed(),
            final(self)@ == (RequesterModel {
                pending: old(self)@.pending.push(Entry { path: path@, content: content@ }),
                ..old(self)@
            }),
    {
        let full = join_path(self.root.as_str(), path);
        let file = StoredFile { path: String::from_str(path), content };
        proof {
            let before = self@.pending;
            let entry = file@;
            assert(self.pending@.push(file).map_values(|f: StoredFile| f@) =~= before.push(entry));
            assert(self.files@.push(full).map_values(|s: String| s@) =~= self.files@.map_values(
                |s: String| s@,
            ).push(full@));
            assert(requested_paths(self@.root, before.push(entry)) =~= requested_paths(
                self@.root,
                before,
            ).push(join(self@.root, entry.path)));
        }
        self.files.push(full);
        self.pending.push(file);
        Ok(())
    }

    /// Sets what renders the difference in the report, in place of what was
    /// set before.
    pub fn set_html_renderer(&mut self, renderer: HtmlRenderer)
        requires
            old(self).well_formed(),
        ensures
            final(self).well_formed(),
            final(self)@ == (RequesterModel { renderer: Some(renderer@), ..old(self)@ }),
    {
        self.renderer = Some(renderer);
    }

    /// Hands out what was collected: the full paths, the files with their
    /// names, and the renderer.
    pub fn into_parts(self) -> (r: (Vec<String>, Vec<StoredFile>, Option<HtmlRenderer>))
        requires
            self.well_formed(),
        ensures
            r.0@.map_values(|s: String| s@) == requested_paths(self@.root, self@.pending),
            r.1@.map_values(|f: StoredFile| f@) == self@.pending,
            match r.2 {
                Some(renderer) => self@.renderer == Some(renderer@),
                None => self@.renderer.is_none(),
            },
    {
        (self.files, self.pending, self.renderer)
    }
}

/// The mathematical value of a [`Writer`]: where its content goes and what
/// was written so far.
pub struct WriterModel {
    pub path: Seq<char>,
    pub buffer: Seq<u8>,
}

/// A writer that was opened for `path` and not written to.
pub open spec fn opened(path: Seq<char>) -> WriterModel {
    WriterModel { path, buffer: Seq::empty() }
}

/// A writer after `bytes` were written to it.
pub open spec fn written(writer: WriterModel, bytes: Seq<u8>) -> WriterModel {
    WriterModel { buffer: writer.buffer + bytes, ..writer }
}

/// A writer after each of `chunks` was written to it, in their order.
pub open spec fn written_all(writer: WriterModel, chunks: Seq<Seq<u8>>) -> WriterModel
    decreases chunks.len(),
{
    if chunks.len() == 0 {
        writer
    } else {
        written(written_all(writer, chunks.drop_last()), chunks.last())
    }
}

/// The bytes of `chunks` one after the other.
pub open spec fn concatenated(chunks: Seq<Seq<u8>>) -> Seq<u8>
    decreases chunks.len(),
{
    if chunks.len() == 0 {
        Seq::empty()
    } else {
        concatenated(chunks.drop_last()) + chunks.last()
    }
}

/// The tree after a writer was committed from a handle rooted at `root`: a
/// writer that holds at least one byte stores its content, another one
/// leaves the tree as it is.
pub open spec fn committed(tree: Seq<Entry>, root: Seq<char>, writer: WriterModel) -> Seq<Entry> {
    if writer.buffer.len() > 0 {
        stored(tree, join(root, writer.path), writer.buffer)
    } else {
        tree
    }
}

/// A buffered sink for one artifact. What is written stays in the buffer
/// until the writer is committed.
#[derive(Debug)]
pub struct Writer {
    inner: Vec<u8>,
    path: String,
    written_to: bool,
}

impl View for Writer {
    type V = WriterModel;

    closed spec fn view(&self) -> WriterModel {
        WriterModel { path: self.path@, buffer: self.inner@ }
    }
}

impl Writer {
    /// The writer's invariant: it knows whether a byte was written.
    pub closed spec fn well_formed(&self) -> bool {
        self.written_to == (self.inner@.len() > 0)
    }

    /// Opens a writer for the file at `path`.
    pub fn new(path: String) -> (r: Self)
        ensures
            r.well_formed(),
            r@ == opened(path@),
    {
        Writer { inner: Vec::new(), path, written_to: false }
    }

    /// Appends `buf` to the buffer and tells how many bytes were taken: all
    /// of them.
    pub fn write(&mut self, buf: &[u8]) -> (n: usize)
        requires
            old(self).well_formed(),
        ensures
            final(self).well_formed(),
            final(self)@ == written(old(self)@, buf@),
            n == buf@.len(),
    {
        let mut i: usize = 0;
        let ghost before = self.inner@;
        while i < buf.len()
            invariant
                i <= buf@.len(),
                self.inner@ == before + buf@.take(i as int),
                self.path == old(self).path,
            decreases buf.len() - i,
        {
            proof {
                assert(buf@.take(i + 1) =~= buf@.take(i as int).push(buf@[i as int]));
                assert(before + buf@.take(i + 1) =~= (before + buf@.take(i as int)).push(
                    buf@[i as int],
                ));
            }
            self.inner.push(buf[i]);
            i = i + 1;
        }
        proof {
            assert(buf@.take(i as int) =~= buf@);
        }
        self.written_to = self.inner.len() > 0;
        buf.len()
    }

    /// Does nothing: the buffer is handed on when the writer is committed.
    pub fn flush(&mut self)
        ensures
            *final(self) == *old(self),
    {
    }

    /// Ends the writer's scope: stores the buffer under the writer's path
    /// below the root of `fs` in the store if at least one byte was
    /// written, and leaves the store as it is otherwise. Every other file
    /// and the faults of the store stay as they are.
    pub fn commit<F: FileSystem>(self, fs: &F, store: &mut F::Store)
        requires
            self.well_formed(),
            old(store).well_formed(),
            is_relative(self@.path),
        ensures
            final(store).well_formed(),
            final(store).tree() == committed(old(store).tree(), fs.root(), self@),
            final(store).faults() == old(store).faults(),
            self@.buffer.len() > 0 ==> has_file(final(store).tree(), join(fs.root(), self@.path))
                && content_of(final(store).tree(), join(fs.root(), self@.path)) == self@.buffer,
            forall|other: Seq<char>|
                other != join(fs.root(), self@.path) ==> (#[trigger] has_file(
                    final(store).tree(),
                    other,
                )) == has_file(old(store).tree(), other),
            forall|other: Seq<char>|
                other != join(fs.root(), self@.path) && has_file(old(store).tree(), other) ==> (
                #[trigger] content_of(final(store).tree(), other)) == content_of(
                    old(store).tree(),
                    other,
                ),
    {
        let Writer { inner, path, written_to } = self;
        if written_to {
            fs.write(store, path.as_str(), inner);
        }
    }
}

/// An artifact that a test registered: its name and how it is compared.
#[derive(Debug)]
pub struct Registration<C> {
    pub name: String,
    pub comparison: C,
}

/// Collects the artifacts that one test registers.
#[derive(Debug)]
pub struct Provider<C> {
    scope: String,
    files: Vec<Registration<C>>,
}

impl<C: Comparison> Provider<C> {
    /// The path below which the test's files are written.
    pub closed spec fn scope(&self) -> Seq<char> {
        self.scope@
    }

    /// The artifacts registered so far, in the order of registration.
    pub closed spec fn registrations(&self) -> Seq<Registration<C>> {
        self.files@
    }

    /// The provider's invariant: the scope and every registered name are
    /// relative.
    pub open spec fn well_formed(&self) -> bool {
        &&& is_relative(self.scope())
        &&& forall|i: int|
            0 <= i < self.registrations().len() ==> is_relative(
                (#[trigger] self.registrations()[i]).name@,
            )
    }

    /// A provider with nothing registered, for files below `scope`.
    pub fn new(scope: String) -> (r: Self)
        requires
            is_relative(scope@),
        ensures
            r.well_formed(),
            r.scope() == scope@,
            r.registrations() == Seq::<Registration<C>>::empty(),
    {
        Provider { scope, files: Vec::new() }
    }

    /// Registers the artifact `name` with its comparison and opens a writer
    /// for it. A name that was registered before is registered once more.
    pub fn custom_test(&mut self, name: &str, comparison: C) -> (r: Writer)
        requires
            old(self).well_formed(),
            is_relative(name@),
        ensures
            final(self).well_formed(),
            final(self).scope() == old(self).scope(),
            final(self).registrations() == old(self).registrations().push(
                Registration { name: final(self).registrations().last().name, comparison },
            ),
            final(self).registrations().last().name@ == name@,
            r.well_formed(),
            r@ == opened(join(old(self).scope(), name@)),
            is_relative(r@.path),
    {
        let path = join_path(self.scope.as_str(), name);
        self.files.push(Registration { name: String::from_str(name), comparison });
        proof {
            let before = old(self).registrations();
            let after = self.registrations();
            assert forall|i: int| 0 <= i < after.len() implies is_relative(
                (#[trigger] after[i]).name@,
            ) by {
                if i < before.len() {
                    assert(after[i] == before[i]);
                }
            }
        }
        Writer::new(path)
    }

    /// Hands out the registrations.
    pub fn into_registrations(self) -> (r: Vec<Registration<C>>)
        ensures
            r@ == self.registrations(),
    {
        self.files
    }
}

} // verus!
