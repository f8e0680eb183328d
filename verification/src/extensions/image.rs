//! Comparing PNG images with three or four channels of eight bits: the
//! pixels must be the same; a difference is explained by images that show
//! where the two sides differ.

use vstd::prelude::*;
use vstd::string::*;
use crate::path::{is_relative, join, join_path, lemma_join_relative};
use crate::filesystem::Entry;
use crate::provider::{RequesterModel, RendererModel, WriteRequester, HtmlRenderer};
use crate::comparison::{Comparison, Verdict, Explained};
use crate::diff::{bytes_of, decimal, push_text, push_decimal};
use crate::filesystem::{FileSystem, Storage};
use crate::provider::{Provider, Writer, opened, written, committed};
use crate::extensions::strategy::{Strategy, registered, register};

verus! {

/// What decoding a PNG file gives: the pixels of an image with three or four
/// channels of eight bits, row by row; an image of another kind; or nothing.
#[derive(Debug)]
pub enum Decoded {
    Rgb8 { width: u32, height: u32, data: Vec<u8> },
    Rgba8 { width: u32, height: u32, data: Vec<u8> },
    Other,
    Unreadable,
}

/// The mathematical value of a [`Decoded`].
pub enum DecodedModel {
    Rgb8 { width: u32, height: u32, data: Seq<u8> },
    Rgba8 { width: u32, height: u32, data: Seq<u8> },
    Other,
    Unreadable,
}

impl View for Decoded {
    type V = DecodedModel;

    open spec fn view(&self) -> DecodedModel {
        match *self {
            Decoded::Rgb8 { width, height, data } => DecodedModel::Rgb8 {
                width,
                height,
                data: data@,
            },
            Decoded::Rgba8 { width, height, data } => DecodedModel::Rgba8 {
                width,
                height,
                data: data@,
            },
            Decoded::Other => DecodedModel::Other,
            Decoded::Unreadable => DecodedModel::Unreadable,
        }
    }
}

/// What `image::load_from_memory_with_format` decodes a PNG file to.
pub uninterp spec fn png_decoded(bytes: Seq<u8>) -> DecodedModel;

/// The PNG file that the `image` crate encodes an image of three channels
/// to, if it encodes it.
pub uninterp spec fn png_encoded(width: u32, height: u32, rgb: Seq<u8>) -> Option<Seq<u8>>;

/// Decodes a PNG file.
///
/// Calls `image::load_from_memory_with_format` with the PNG format.
/// Trusted: the result is a function of the bytes alone. The raw buffer of
/// an image of three or four channels of eight bits is handed out as it is.
#[verifier::external_body]
fn decode_png(bytes: &Vec<u8>) -> (r: Decoded)
    ensures
        r@ == png_decoded(bytes@),
{
    match image::load_from_memory_with_format(bytes, image::ImageFormat::Png) {
        Ok(image::DynamicImage::ImageRgb8(i)) => Decoded::Rgb8 {
            width: i.width(),
            height: i.height(),
            data: i.into_raw(),
        },
        Ok(image::DynamicImage::ImageRgba8(i)) => Decoded::Rgba8 {
            width: i.width(),
            height: i.height(),
            data: i.into_raw(),
        },
        Ok(_) => Decoded::Other,
        Err(_) => Decoded::Unreadable,
    }
}

/// Encodes an image of three channels of eight bits as a PNG file.
///
/// Calls `image::RgbImage::from_raw` and `write_to` with the PNG format.
/// Trusted: the result is a function of the size and the pixels alone.
#[verifier::external_body]
fn encode_png(width: u32, height: u32, rgb: Vec<u8>) -> (r: Option<Vec<u8>>)
    ensures
        r.is_some() == png_encoded(width, height, rgb@).is_some(),
        r.is_some() ==> r.unwrap()@ == png_encoded(width, height, rgb@).unwrap(),
{
    let image = image::RgbImage::from_raw(width, height, rgb)?;
    let mut out = std::io::Cursor::new(Vec::new());
    image.write_to(&mut out, image::ImageFormat::Png).ok()?;
    Some(out.into_inner())
}

/// The mathematical value of a [`Picture`].
pub struct PictureModel {
    pub alpha: bool,
    pub width: nat,
    pub height: nat,
    pub data: Seq<u8>,
}

/// The number of channels of a pixel.
pub open spec fn channels(alpha: bool) -> nat {
    if alpha {
        4
    } else {
        3
    }
}

/// The pixels of an image, row by row, with three channels to a pixel, or
/// four where the image has transparency.
#[derive(Debug)]
pub struct Picture {
    alpha: bool,
    width: u32,
    height: u32,
    data: Vec<u8>,
}

impl View for Picture {
    type V = PictureModel;

    closed spec fn view(&self) -> PictureModel {
        PictureModel {
            alpha: self.alpha,
            width: self.width as nat,
            height: self.height as nat,
            data: self.data@,
        }
    }
}

/// An image holds exactly the channels of its pixels.
pub open spec fn complete(picture: PictureModel) -> bool {
    &&& picture.width <= u32::MAX
    &&& picture.height <= u32::MAX
    &&& picture.data.len() == picture.width * picture.height * channels(picture.alpha)
}

/// What loading a file gives.
pub enum Loaded {
    Pixels(PictureModel),
    Other,
    Unreadable,
}

/// The image in a raw buffer: the buffer's first bytes, as many as the
/// pixels take; nothing where the buffer is too short.
pub open spec fn picture_in(alpha: bool, width: u32, height: u32, data: Seq<u8>) -> Loaded {
    let needed = width * height * channels(alpha);
    if data.len() >= needed {
        Loaded::Pixels(
            PictureModel {
                alpha,
                width: width as nat,
                height: height as nat,
                data: data.take(needed as int),
            },
        )
    } else {
        Loaded::Unreadable
    }
}

/// What loading the PNG file `bytes` gives.
pub open spec fn loaded(bytes: Seq<u8>) -> Loaded {
    match png_decoded(bytes) {
        DecodedModel::Rgb8 { width, height, data } => picture_in(false, width, height, data),
        DecodedModel::Rgba8 { width, height, data } => picture_in(true, width, height, data),
        DecodedModel::Other => Loaded::Other,
        DecodedModel::Unreadable => Loaded::Unreadable,
    }
}

/// The product of three factors is monotone.
pub proof fn lemma_product_bound(w: int, h: int, c: int, mw: int, mh: int, mc: int)
    requires
        0 <= w <= mw,
        0 <= h <= mh,
        0 <= c <= mc,
    ensures
        0 <= w * h * c <= mw * mh * mc,
{
    assert(0 <= w * h <= mw * mh) by (nonlinear_arith)
        requires
            0 <= w <= mw,
            0 <= h <= mh,
    ;
    assert(0 <= (w * h) * c <= (mw * mh) * mc) by (nonlinear_arith)
        requires
            0 <= w * h <= mw * mh,
            0 <= c <= mc,
    ;
}

/// Where a channel of a pixel lies in the buffer.
pub proof fn lemma_offset_bound(x: int, y: int, c: int, w: int, h: int, n: int)
    requires
        0 <= x < w,
        0 <= y < h,
        0 <= c < n,
    ensures
        0 <= y * w,
        0 <= y * w + x < w * h,
        0 <= (y * w + x) * n,
        0 <= (y * w + x) * n + c < w * h * n,
{
    assert(0 <= y * w && y * w + w <= w * h) by (nonlinear_arith)
        requires
            0 <= y < h,
            0 <= w,
    ;
    assert(0 <= (y * w + x) * n && (y * w + x) * n + n <= w * h * n) by (nonlinear_arith)
        requires
            0 <= y * w + x < w * h,
            0 <= n,
    ;
}

impl Picture {
    /// The picture's invariant.
    pub closed spec fn well_formed(&self) -> bool {
        complete(self@)
    }

    /// Takes the image out of a raw buffer, if the buffer holds it all.
    pub fn from_raw(alpha: bool, width: u32, height: u32, data: Vec<u8>) -> (r: Option<Picture>)
        ensures
            match r {
                Some(p) => p.well_formed() && picture_in(alpha, width, height, data@)
                    == Loaded::Pixels(p@),
                None => picture_in(alpha, width, height, data@) == Loaded::Unreadable,
            },
    {
        let n: u128 = if alpha {
            4
        } else {
            3
        };
        proof {
            lemma_product_bound(
                width as int,
                height as int,
                n as int,
                0xffff_ffff,
                0xffff_ffff,
                4,
            );
            assert(0xffff_ffffint * 0xffff_ffff * 4 < 0x1_0000_0000_0000_0000_0000)
                by (nonlinear_arith);
        }
        assert((width as u128) * (height as u128) == (width as int) * (height as int))
            by (nonlinear_arith)
            requires
                0 <= width <= 0xffff_ffff,
                0 <= height <= 0xffff_ffff,
        ;
        let needed: u128 = (width as u128) * (height as u128) * n;
        if (data.len() as u128) < needed {
            return None;
        }
        let mut data = data;
        data.truncate(needed as usize);
        Some(Picture { alpha, width, height, data })
    }

    /// Loads the image in a PNG file.
    fn load(bytes: &Vec<u8>) -> (r: core::result::Result<Option<Picture>, String>)
        ensures
            match r {
                Ok(Some(p)) => p.well_formed() && loaded(bytes@) == Loaded::Pixels(p@),
                Ok(None) => loaded(bytes@) == Loaded::Other,
                Err(detail) => loaded(bytes@) == Loaded::Unreadable && detail@ == unreadable(),
            },
    {
        let picture = match decode_png(bytes) {
            Decoded::Rgb8 { width, height, data } => Picture::from_raw(false, width, height, data),
            Decoded::Rgba8 { width, height, data } => Picture::from_raw(true, width, height, data),
            Decoded::Other => {
                return Ok(None);
            },
            Decoded::Unreadable => None,
        };
        match picture {
            Some(p) => Ok(Some(p)),
            None => Err(String::from_str("the file is not a PNG image")),
        }
    }

    /// The value of channel `c` of the pixel in column `x` of row `y`.
    pub fn channel(&self, x: u32, y: u32, c: u8) -> (r: u8)
        requires
            self.well_formed(),
            x < self@.width,
            y < self@.height,
            c < channels(self@.alpha),
        ensures
            r == channel_of(self@, x as int, y as int, c as int),
    {
        let n: usize = if self.alpha {
            4
        } else {
            3
        };
        proof {
            lemma_offset_bound(
                x as int,
                y as int,
                c as int,
                self.width as int,
                self.height as int,
                n as int,
            );
        }
        let len: usize = self.data.len();
        proof {
            assert(len == self.width * self.height * n);
            assert(y * self.width + x < self.width * self.height);
            assert(self.width * self.height <= self.width * self.height * n) by (nonlinear_arith)
                requires
                    n >= 1,
                    self.width * self.height >= 0,
            ;
        }
        let row: usize = (y as usize) * (self.width as usize);
        let pixel: usize = row + (x as usize);
        let at: usize = pixel * n + (c as usize);
        self.data[at]
    }
}

/// What a file that cannot be decoded is reported with.
pub open spec fn unreadable() -> Seq<char> {
    "the file is not a PNG image"@
}

/// The value of channel `c` of the pixel in column `x` of row `y`.
pub open spec fn channel_of(picture: PictureModel, x: int, y: int, c: int) -> u8 {
    picture.data[(y * picture.width + x) * channels(picture.alpha) + c]
}

/// The difference of two channel values, wrapping around at zero.
pub open spec fn wrapped_sub(a: u8, b: u8) -> u8 {
    if a >= b {
        (a - b) as u8
    } else {
        (256 + a - b) as u8
    }
}

/// The difference of two channel values, wrapping around at zero.
pub fn wrapping_difference(a: u8, b: u8) -> (r: u8)
    ensures
        r == wrapped_sub(a, b),
{
    if a >= b {
        a - b
    } else {
        255 - (b - a) + 1
    }
}

/// The images that explain a difference.
#[derive(Debug, Clone, Copy, PartialEq, Eq)]
pub enum Sheet {
    /// Two images without transparency side by side, and to their right the
    /// difference of their colours.
    SideBySide,
    /// The difference of the colours of two images with transparency, in
    /// the right third of the sheet.
    Colour,
    /// The difference of the transparency of two images, in grey, in the
    /// left third of the sheet.
    Transparency,
}

/// The smaller of two numbers.
pub open spec fn least(a: nat, b: nat) -> nat {
    if a <= b {
        a
    } else {
        b
    }
}

/// The larger of two numbers.
pub open spec fn most(a: nat, b: nat) -> nat {
    if a >= b {
        a
    } else {
        b
    }
}

/// The width of a sheet.
pub open spec fn sheet_width(sheet: Sheet, a: PictureModel, b: PictureModel) -> nat {
    match sheet {
        Sheet::SideBySide => a.width + b.width + least(a.width, b.width),
        _ => 3 * least(a.width, b.width),
    }
}

/// The height of a sheet.
pub open spec fn sheet_height(a: PictureModel, b: PictureModel) -> nat {
    most(a.height, b.height)
}

/// The value of channel `c` of the pixel in column `x` of row `y` of a
/// sheet. Where nothing is drawn the sheet is black.
pub open spec fn sheet_channel(
    sheet: Sheet,
    a: PictureModel,
    b: PictureModel,
    x: int,
    y: int,
    c: int,
) -> u8 {
    let w = least(a.width, b.width);
    let h = least(a.height, b.height);
    match sheet {
        Sheet::SideBySide => if x < a.width {
            if y < a.height {
                channel_of(a, x, y, c)
            } else {
                0
            }
        } else if x < a.width + b.width {
            if y < b.height {
                channel_of(b, x - a.width, y, c)
            } else {
                0
            }
        } else if y < h {
            wrapped_sub(
                channel_of(a, x - a.width - b.width, y, c),
                channel_of(b, x - a.width - b.width, y, c),
            )
        } else {
            0
        },
        Sheet::Colour => if x >= 2 * w && y < h {
            wrapped_sub(channel_of(a, x - 2 * w, y, c), channel_of(b, x - 2 * w, y, c))
        } else {
            0
        },
        Sheet::Transparency => if x < w && y < h {
            wrapped_sub(channel_of(a, x, y, 3), channel_of(b, x, y, 3))
        } else {
            0
        },
    }
}

/// The byte at `i` of a sheet: the channels of its pixels, row by row.
pub open spec fn sheet_byte(sheet: Sheet, a: PictureModel, b: PictureModel, i: int) -> u8 {
    let width = sheet_width(sheet, a, b) as int;
    sheet_channel(sheet, a, b, (i / 3) % width, (i / 3) / width, i % 3)
}

/// A sheet can be drawn when its width fits the width of an image and its
/// pixels can be addressed.
pub open spec fn drawable(sheet: Sheet, a: PictureModel, b: PictureModel) -> bool {
    &&& sheet_width(sheet, a, b) <= u32::MAX
    &&& 3 * sheet_width(sheet, a, b) * sheet_height(a, b) <= usize::MAX
}

/// The pixels of a sheet.
pub open spec fn sheet_data(sheet: Sheet, a: PictureModel, b: PictureModel) -> Seq<u8> {
    Seq::new(
        3 * sheet_width(sheet, a, b) * sheet_height(a, b),
        |i: int| sheet_byte(sheet, a, b, i),
    )
}

/// A row of a sheet lies inside it.
pub proof fn lemma_row_bound(p: int, width: int, height: int)
    requires
        0 <= p < width * height,
        0 < width,
    ensures
        0 <= p / width < height,
        0 <= p % width < width,
{
    assert(0 <= p / width < height && 0 <= p % width < width) by (nonlinear_arith)
        requires
            0 <= p < width * height,
            0 < width,
    ;
}

/// The value of one channel of one pixel of a sheet.
fn draw_channel(sheet: Sheet, a: &Picture, b: &Picture, x: u32, y: u32, c: u8) -> (r: u8)
    requires
        a.well_formed(),
        b.well_formed(),
        a@.alpha == b@.alpha,
        a@.alpha == (sheet != Sheet::SideBySide),
        x < sheet_width(sheet, a@, b@),
        y < sheet_height(a@, b@),
        c < 3,
    ensures
        r == sheet_channel(sheet, a@, b@, x as int, y as int, c as int),
{
    let w: u32 = if a.width <= b.width {
        a.width
    } else {
        b.width
    };
    let h: u32 = if a.height <= b.height {
        a.height
    } else {
        b.height
    };
    match sheet {
        Sheet::SideBySide => {
            if x < a.width {
                if y < a.height {
                    a.channel(x, y, c)
                } else {
                    0
                }
            } else if x - a.width < b.width {
                if y < b.height {
                    b.channel(x - a.width, y, c)
                } else {
                    0
                }
            } else if y < h {
                let at: u32 = x - a.width - b.width;
                wrapping_difference(a.channel(at, y, c), b.channel(at, y, c))
            } else {
                0
            }
        },
        Sheet::Colour => {
            if x >= w && x - w >= w && y < h {
                let at: u32 = x - w - w;
                wrapping_difference(a.channel(at, y, c), b.channel(at, y, c))
            } else {
                0
            }
        },
        Sheet::Transparency => {
            if x < w && y < h {
                wrapping_difference(a.channel(x, y, 3), b.channel(x, y, 3))
            } else {
                0
            }
        },
    }
}

/// A drawn sheet: its size and its pixels.
#[derive(Debug)]
pub struct Drawn {
    pub width: u32,
    pub height: u32,
    pub data: Vec<u8>,
}

/// Draws a sheet for two images of the same kind, if it can be drawn.
pub fn draw(sheet: Sheet, a: &Picture, b: &Picture) -> (r: Option<Drawn>)
    requires
        a.well_formed(),
        b.well_formed(),
        a@.alpha == b@.alpha,
        a@.alpha == (sheet != Sheet::SideBySide),
    ensures
        r.is_some() == drawable(sheet, a@, b@),
        r.is_some() ==> {
            &&& r.unwrap().width == sheet_width(sheet, a@, b@)
            &&& r.unwrap().height == sheet_height(a@, b@)
            &&& r.unwrap().data@ == sheet_data(sheet, a@, b@)
        },
{
    let w: u64 = if a.width <= b.width {
        a.width as u64
    } else {
        b.width as u64
    };
    let wide: u64 = match sheet {
        Sheet::SideBySide => a.width as u64 + b.width as u64 + w,
        _ => 3 * w,
    };
    let height: u32 = if a.height >= b.height {
        a.height
    } else {
        b.height
    };
    if wide > 0xffff_ffff {
        return None;
    }
    let width: u32 = wide as u32;
    proof {
        lemma_product_bound(
            width as int,
            height as int,
            3,
            0xffff_ffff,
            0xffff_ffff,
            3,
        );
        assert(0xffff_ffffint * 0xffff_ffff * 3 < 0x1_0000_0000_0000_0000_0000)
            by (nonlinear_arith);
        assert(3 * width * height == width * height * 3) by (nonlinear_arith);
    }
    assert((width as u128) * (height as u128) == (width as int) * (height as int))
        by (nonlinear_arith)
        requires
            0 <= width <= 0xffff_ffff,
            0 <= height <= 0xffff_ffff,
    ;
    let needed: u128 = (width as u128) * (height as u128) * 3;
    if needed > usize::MAX as u128 {
        return None;
    }
    let total: usize = needed as usize;
    let mut data: Vec<u8> = Vec::new();
    let mut i: usize = 0;
    while i < total
        invariant
            i <= total,
            total == 3 * width * height,
            width == sheet_width(sheet, a@, b@),
            height == sheet_height(a@, b@),
            a.well_formed(),
            b.well_formed(),
            a@.alpha == b@.alpha,
            a@.alpha == (sheet != Sheet::SideBySide),
            data@.len() == i,
            forall|k: int| 0 <= k < i ==> data@[k] == sheet_byte(sheet, a@, b@, k),
        decreases total - i,
    {
        let p: usize = i / 3;
        proof {
            assert(0 <= p < width * height) by (nonlinear_arith)
                requires
                    p == i / 3,
                    0 <= i < 3 * width * height,
            ;
            assert(width > 0) by (nonlinear_arith)
                requires
                    0 <= i < 3 * width * height,
                    width >= 0,
                    height >= 0,
            ;
            lemma_row_bound(p as int, width as int, height as int);
        }
        let x: u32 = (p % (width as usize)) as u32;
        let y: u32 = (p / (width as usize)) as u32;
        let c: u8 = (i % 3) as u8;
        let value = draw_channel(sheet, a, b, x, y, c);
        data.push(value);
        i = i + 1;
    }
    proof {
        assert(data@ =~= sheet_data(sheet, a@, b@));
    }
    Some(Drawn { width, height, data })
}

/// What an image that is neither RGB8 nor RGBA8 is reported with.
pub open spec fn unsupported() -> Seq<char> {
    "the image is neither RGB8 nor RGBA8"@
}

/// What a sheet that cannot be drawn is reported with.
pub open spec fn too_large() -> Seq<char> {
    "the images are too large to show side by side"@
}

/// What a sheet that cannot be encoded is reported with.
pub open spec fn not_encoded() -> Seq<char> {
    "the difference could not be encoded as a PNG image"@
}

/// The note on two images of different sizes.
pub open spec fn size_note(a: PictureModel, b: PictureModel) -> Seq<u8> {
    bytes_of("image dimensions are different\nactual:   width: "@) + decimal(a.width) + bytes_of(
        " height: "@,
    ) + decimal(a.height) + bytes_of("\nexpected: width: "@) + decimal(b.width) + bytes_of(
        " height: "@,
    ) + decimal(b.height) + bytes_of("\n"@)
}

/// The note on two images of which one has transparency and the other has
/// none.
pub open spec fn format_note(actual_has_alpha: bool) -> Seq<u8> {
    if actual_has_alpha {
        bytes_of("image formats are different\nactual:   RGBA8 (Alpha)\nexpected: RGB8\n"@)
    } else {
        bytes_of("image formats are different\nactual:   RGB8\nexpected: RGBA8 (Alpha)\n"@)
    }
}

/// Whether two files hold the same image: both must decode; images of the
/// same kind are the same when their sizes and pixels are, and images of
/// different kinds differ.
pub open spec fn image_verdict(actual: Seq<u8>, expected: Seq<u8>) -> Verdict {
    match (loaded(actual), loaded(expected)) {
        (Loaded::Unreadable, _) => Verdict::Failed(unreadable()),
        (_, Loaded::Unreadable) => Verdict::Failed(unreadable()),
        (Loaded::Pixels(a), Loaded::Pixels(b)) => if a == b {
            Verdict::Equal
        } else {
            Verdict::Unequal
        },
        _ => Verdict::Unequal,
    }
}

/// A collector after one more file was asked for.
pub open spec fn asked(
    before: RequesterModel,
    name: Seq<char>,
    content: Seq<u8>,
) -> RequesterModel {
    RequesterModel { pending: before.pending.push(Entry { path: name, content }), ..before }
}

/// Asking for the sheet `sheet` of two images under the name `name`: it is
/// drawn, encoded and asked for, or the explanation fails.
pub open spec fn sheet_asked(
    before: RequesterModel,
    sheet: Sheet,
    a: PictureModel,
    b: PictureModel,
    name: Seq<char>,
) -> Explained {
    if !drawable(sheet, a, b) {
        Explained { requester: before, failure: Some(too_large()) }
    } else {
        match png_encoded(
            sheet_width(sheet, a, b) as u32,
            sheet_height(a, b) as u32,
            sheet_data(sheet, a, b),
        ) {
            Some(png) => Explained { requester: asked(before, name, png), failure: None },
            None => Explained { requester: before, failure: Some(not_encoded()) },
        }
    }
}

/// Explaining a difference between two images.
///
/// Files that do not decode, and images of another kind, fail and ask for
/// nothing. Otherwise the renderer shows the first image among the sidecar
/// files. Images of which only one has transparency get a note in
/// `img-format.txt`. Images of the same kind get a note in `img-size.txt`
/// if their sizes differ, then the sheet `color-diff.png`, and with
/// transparency the sheet `transparency-diff.png` after it.
pub open spec fn image_explained(
    actual: Seq<u8>,
    expected: Seq<u8>,
    name: Seq<char>,
    before: RequesterModel,
) -> Explained {
    match (loaded(actual), loaded(expected)) {
        (Loaded::Unreadable, _) => Explained { requester: before, failure: Some(unreadable()) },
        (_, Loaded::Unreadable) => Explained { requester: before, failure: Some(unreadable()) },
        (Loaded::Pixels(a), Loaded::Pixels(b)) => {
            let start = RequesterModel { renderer: Some(RendererModel::FirstImage), ..before };
            if a.alpha != b.alpha {
                Explained {
                    requester: asked(start, join(name, "img-format.txt"@), format_note(a.alpha)),
                    failure: None,
                }
            } else {
                let sized = if a.width != b.width || a.height != b.height {
                    asked(start, join(name, "img-size.txt"@), size_note(a, b))
                } else {
                    start
                };
                if !a.alpha {
                    sheet_asked(sized, Sheet::SideBySide, a, b, join(name, "color-diff.png"@))
                } else {
                    let colour = sheet_asked(
                        sized,
                        Sheet::Colour,
                        a,
                        b,
                        join(name, "color-diff.png"@),
                    );
                    if colour.failure.is_some() {
                        colour
                    } else {
                        sheet_asked(
                            colour.requester,
                            Sheet::Transparency,
                            a,
                            b,
                            join(name, "transparency-diff.png"@),
                        )
                    }
                }
            }
        },
        _ => Explained { requester: before, failure: Some(unsupported()) },
    }
}

/// Tells whether two pictures are the same.
pub fn same_picture(a: &Picture, b: &Picture) -> (r: bool)
    requires
        a.well_formed(),
        b.well_formed(),
    ensures
        r == (a@ == b@),
{
    a.alpha == b.alpha && a.width == b.width && a.height == b.height
        && crate::diff::bitwise_equals(a.data.as_slice(), b.data.as_slice())
}

/// Tells whether two PNG files hold the same image.
pub fn image_eq(actual: &Vec<u8>, expected: &Vec<u8>) -> (r: core::result::Result<bool, String>)
    ensures
        crate::comparison::verdict_of(r) == image_verdict(actual@, expected@),
{
    let a = match Picture::load(actual) {
        Err(detail) => {
            return Err(detail);
        },
        Ok(a) => a,
    };
    let b = match Picture::load(expected) {
        Err(detail) => {
            return Err(detail);
        },
        Ok(b) => b,
    };
    match (a, b) {
        (Some(a), Some(b)) => Ok(same_picture(&a, &b)),
        _ => Ok(false),
    }
}

/// Writes the note on two images of different sizes.
fn write_size_note(a: &Picture, b: &Picture) -> (r: Vec<u8>)
    ensures
        r@ == size_note(a@, b@),
{
    let mut out: Vec<u8> = Vec::new();
    push_text(&mut out, "image dimensions are different\nactual:   width: ");
    push_decimal(&mut out, a.width as usize);
    push_text(&mut out, " height: ");
    push_decimal(&mut out, a.height as usize);
    push_text(&mut out, "\nexpected: width: ");
    push_decimal(&mut out, b.width as usize);
    push_text(&mut out, " height: ");
    push_decimal(&mut out, b.height as usize);
    push_text(&mut out, "\n");
    proof {
        assert(out@ =~= size_note(a@, b@));
    }
    out
}

/// Writes the note on two images of different kinds.
fn write_format_note(actual_has_alpha: bool) -> (r: Vec<u8>)
    ensures
        r@ == format_note(actual_has_alpha),
{
    let mut out: Vec<u8> = Vec::new();
    if actual_has_alpha {
        push_text(
            &mut out,
            "image formats are different\nactual:   RGBA8 (Alpha)\nexpected: RGB8\n",
        );
    } else {
        push_text(
            &mut out,
            "image formats are different\nactual:   RGB8\nexpected: RGBA8 (Alpha)\n",
        );
    }
    proof {
        assert(out@ =~= format_note(actual_has_alpha));
    }
    out
}

/// Draws a sheet, encodes it and asks for it under the name `file` below
/// the artifact's name.
fn request_sheet(
    requester: &mut WriteRequester,
    sheet: Sheet,
    a: &Picture,
    b: &Picture,
    name: &str,
    file: &str,
) -> (r: core::result::Result<(), String>)
    requires
        old(requester).well_formed(),
        a.well_formed(),
        b.well_formed(),
        a@.alpha == b@.alpha,
        a@.alpha == (sheet != Sheet::SideBySide),
        is_relative(name@),
        is_relative(file@),
    ensures
        final(requester).well_formed(),
        (Explained {
            requester: final(requester)@,
            failure: crate::comparison::failure_of(r),
        }) == sheet_asked(old(requester)@, sheet, a@, b@, join(name@, file@)),
{
    let drawn = match draw(sheet, a, b) {
        Some(drawn) => drawn,
        None => {
            return Err(String::from_str("the images are too large to show side by side"));
        },
    };
    let png = match encode_png(drawn.width, drawn.height, drawn.data) {
        Some(png) => png,
        None => {
            return Err(String::from_str("the difference could not be encoded as a PNG image"));
        },
    };
    let path = join_path(name, file);
    proof {
        lemma_join_relative(name@, file@);
    }
    requester.request(path.as_str(), png)
}

/// Explains a difference between two PNG files by notes and images.
pub fn image_diff(
    actual: &Vec<u8>,
    expected: &Vec<u8>,
    name: &str,
    requester: &mut WriteRequester,
) -> (r: core::result::Result<(), String>)
    requires
        is_relative(name@),
        old(requester).well_formed(),
    ensures
        final(requester).well_formed(),
        (Explained {
            requester: final(requester)@,
            failure: crate::comparison::failure_of(r),
        }) == image_explained(actual@, expected@, name@, old(requester)@),
{
    proof {
        reveal_strlit("img-format.txt");
        reveal_strlit("img-size.txt");
        reveal_strlit("color-diff.png");
        reveal_strlit("transparency-diff.png");
    }
    let a = match Picture::load(actual) {
        Err(detail) => {
            return Err(detail);
        },
        Ok(a) => a,
    };
    let b = match Picture::load(expected) {
        Err(detail) => {
            return Err(detail);
        },
        Ok(b) => b,
    };
    let (a, b) = match (a, b) {
        (Some(a), Some(b)) => (a, b),
        _ => {
            return Err(String::from_str("the image is neither RGB8 nor RGBA8"));
        },
    };
    requester.set_html_renderer(HtmlRenderer::FirstImage);
    if a.alpha != b.alpha {
        let path = join_path(name, "img-format.txt");
        proof {
            lemma_join_relative(name@, "img-format.txt"@);
        }
        return requester.request(path.as_str(), write_format_note(a.alpha));
    }
    if a.width != b.width || a.height != b.height {
        let path = join_path(name, "img-size.txt");
        proof {
            lemma_join_relative(name@, "img-size.txt"@);
        }
        let _ = requester.request(path.as_str(), write_size_note(&a, &b));
    }
    if !a.alpha {
        request_sheet(requester, Sheet::SideBySide, &a, &b, name, "color-diff.png")
    } else {
        match request_sheet(requester, Sheet::Colour, &a, &b, name, "color-diff.png") {
            Err(detail) => Err(detail),
            Ok(_) => request_sheet(
                requester,
                Sheet::Transparency,
                &a,
                &b,
                name,
                "transparency-diff.png",
            ),
        }
    }
}

/// Compares PNG images.
#[derive(Debug, Clone, Copy)]
pub struct Image;

impl Comparison for Image {
    open spec fn verdict(&self, actual: Seq<u8>, expected: Seq<u8>) -> Verdict {
        image_verdict(actual, expected)
    }

    open spec fn explained(
        &self,
        actual: Seq<u8>,
        expected: Seq<u8>,
        name: Seq<char>,
        before: RequesterModel,
    ) -> Explained {
        image_explained(actual, expected, name, before)
    }

    proof fn explained_extends(
        &self,
        actual: Seq<u8>,
        expected: Seq<u8>,
        name: Seq<char>,
        before: RequesterModel,
    ) {
    }

    fn equal(&self, actual: &Vec<u8>, expected: &Vec<u8>) -> (r: core::result::Result<
        bool,
        String,
    >) {
        image_eq(actual, expected)
    }

    fn diff(
        &self,
        actual: &Vec<u8>,
        expected: &Vec<u8>,
        name: &str,
        requester: &mut WriteRequester,
    ) -> (r: core::result::Result<(), String>) {
        image_diff(actual, expected, name, requester)
    }
}

/// The PNG file that the `image` crate encodes an image of four channels
/// to, if it encodes it.
pub uninterp spec fn png_encoded_with_alpha(width: u32, height: u32, rgba: Seq<u8>) -> Option<
    Seq<u8>,
>;

/// Encodes an image of four channels of eight bits as a PNG file.
///
/// Calls `image::RgbaImage::from_raw` and `write_to` with the PNG format.
/// Trusted: the result is a function of the size and the pixels alone.
#[verifier::external_body]
fn encode_png_with_alpha(width: u32, height: u32, rgba: Vec<u8>) -> (r: Option<Vec<u8>>)
    ensures
        r.is_some() == png_encoded_with_alpha(width, height, rgba@).is_some(),
        r.is_some() ==> r.unwrap()@ == png_encoded_with_alpha(width, height, rgba@).unwrap(),
{
    let image = image::RgbaImage::from_raw(width, height, rgba)?;
    let mut out = std::io::Cursor::new(Vec::new());
    image.write_to(&mut out, image::ImageFormat::Png).ok()?;
    Some(out.into_inner())
}

/// The tree after an encoded image was written and committed, or the tree
/// as it was where the image could not be encoded.
pub open spec fn image_committed(
    tree: Seq<Entry>,
    root: Seq<char>,
    path: Seq<char>,
    png: Option<Seq<u8>>,
) -> Seq<Entry> {
    match png {
        Some(bytes) => committed(tree, root, written(opened(path), bytes)),
        None => tree,
    }
}

/// Writes an encoded image to a writer and commits it, or reports that the
/// image could not be encoded.
fn commit_image<F: FileSystem>(
    writer: Writer,
    fs: &F,
    store: &mut F::Store,
    png: Option<Vec<u8>>,
) -> (r: core::result::Result<(), String>)
    requires
        writer.well_formed(),
        writer@.buffer.len() == 0,
        is_relative(writer@.path),
        old(store).well_formed(),
    ensures
        final(store).well_formed(),
        final(store).faults() == old(store).faults(),
        r.is_ok() == png.is_some(),
        r.is_err() ==> r.unwrap_err()@ == not_encoded(),
        final(store).tree() == image_committed(
            old(store).tree(),
            fs.root(),
            writer@.path,
            match png {
                Some(bytes) => Some(bytes@),
                None => None,
            },
        ),
{
    match png {
        Some(bytes) => {
            let mut writer = writer;
            proof {
                assert(writer@.buffer =~= Seq::<u8>::empty());
                assert(writer@ == opened(writer@.path));
            }
            writer.write(bytes.as_slice());
            writer.commit(fs, store);
            Ok(())
        },
        None => Err(String::from_str("the difference could not be encoded as a PNG image")),
    }
}

/// PNG artifacts on a provider.
pub trait ImageDiffExtension: Sized {
    /// The provider that the artifacts are registered with.
    spec fn provider(&self) -> Provider<Strategy>;

    /// Registers the PNG artifact `filename` and opens a writer for it.
    fn png_writer(&mut self, filename: &str) -> (r: Writer)
        requires
            old(self).provider().well_formed(),
            is_relative(filename@),
        ensures
            registered(old(self).provider(), final(self).provider(), filename@, Strategy::Image),
            r.well_formed(),
            r@ == opened(join(old(self).provider().scope(), filename@)),
            is_relative(r@.path),
    ;

    /// Registers the PNG artifact `filename` and stores the image of three
    /// channels with the given size and pixels, encoded, as its content. An
    /// image that cannot be encoded is registered and not stored.
    fn rgb_image<F: FileSystem>(
        &mut self,
        fs: &F,
        store: &mut F::Store,
        filename: &str,
        width: u32,
        height: u32,
        pixels: Vec<u8>,
    ) -> (r: core::result::Result<(), String>)
        requires
            old(self).provider().well_formed(),
            old(store).well_formed(),
            is_relative(filename@),
        ensures
            registered(old(self).provider(), final(self).provider(), filename@, Strategy::Image),
            final(store).well_formed(),
            final(store).faults() == old(store).faults(),
            r.is_ok() == png_encoded(width, height, pixels@).is_some(),
            r.is_err() ==> r.unwrap_err()@ == not_encoded(),
            final(store).tree() == image_committed(
                old(store).tree(),
                fs.root(),
                join(old(self).provider().scope(), filename@),
                png_encoded(width, height, pixels@),
            ),
    ;

    /// Registers the PNG artifact `filename` and stores the image of four
    /// channels with the given size and pixels, encoded, as its content. An
    /// image that cannot be encoded is registered and not stored.
    fn rgba_image<F: FileSystem>(
        &mut self,
        fs: &F,
        store: &mut F::Store,
        filename: &str,
        width: u32,
        height: u32,
        pixels: Vec<u8>,
    ) -> (r: core::result::Result<(), String>)
        requires
            old(self).provider().well_formed(),
            old(store).well_formed(),
            is_relative(filename@),
        ensures
            registered(old(self).provider(), final(self).provider(), filename@, Strategy::Image),
            final(store).well_formed(),
            final(store).faults() == old(store).faults(),
            r.is_ok() == png_encoded_with_alpha(width, height, pixels@).is_some(),
            r.is_err() ==> r.unwrap_err()@ == not_encoded(),
            final(store).tree() == image_committed(
                old(store).tree(),
                fs.root(),
                join(old(self).provider().scope(), filename@),
                png_encoded_with_alpha(width, height, pixels@),
            ),
    ;
}

impl ImageDiffExtension for Provider<Strategy> {
    open spec fn provider(&self) -> Provider<Strategy> {
        *self
    }

    fn png_writer(&mut self, filename: &str) -> (r: Writer) {
        register(self, filename, Strategy::Image)
    }

    fn rgb_image<F: FileSystem>(
        &mut self,
        fs: &F,
        store: &mut F::Store,
        filename: &str,
        width: u32,
        height: u32,
        pixels: Vec<u8>,
    ) -> (r: core::result::Result<(), String>) {
        let writer = register(self, filename, Strategy::Image);
        commit_image(writer, fs, store, encode_png(width, height, pixels))
    }

    fn rgba_image<F: FileSystem>(
        &mut self,
        fs: &F,
        store: &mut F::Store,
        filename: &str,
        width: u32,
        height: u32,
        pixels: Vec<u8>,
    ) -> (r: core::result::Result<(), String>) {
        let writer = register(self, filename, Strategy::Image);
        commit_image(writer, fs, store, encode_png_with_alpha(width, height, pixels))
    }
}

} // verus!
