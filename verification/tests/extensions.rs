use expectation::comparison::Comparison;
use expectation::config::AllFiles;
use expectation::diff::{add_extension, binary_diff, bitwise_equals, Bytes};
use expectation::extensions::image::{
    draw, image_eq, same_picture, wrapping_difference, Image, ImageDiffExtension, Picture, Sheet,
};
use expectation::extensions::strategy::Strategy;
use expectation::extensions::svg::SvgDiffExtension;
use expectation::extensions::text::{render_changes, text_eq, Change, Text, TextDiffExtension};
use expectation::filesystem::FileSystem;
use expectation::harness::difftest;
use expectation::memory::{FakeFileSystem, Mapping};
use expectation::provider::{HtmlRenderer, WriteRequester};
use expectation::shared::ResultKind;
use expectation::validation::validate;

fn png(
    fs: &FakeFileSystem,
    store: &mut Mapping,
    path: &str,
    alpha: bool,
    width: u32,
    height: u32,
    pixels: Vec<u8>,
) {
    let mut provider = difftest("scratch");
    let mut scratch = Mapping::new();
    if alpha {
        provider.rgba_image(fs, &mut scratch, "x.png", width, height, pixels).unwrap();
    } else {
        provider.rgb_image(fs, &mut scratch, "x.png", width, height, pixels).unwrap();
    }
    let bytes = fs.read(&scratch, "actual/scratch/x.png").unwrap();
    fs.write(store, path, bytes);
}

fn decode_rgb(bytes: &[u8]) -> (u32, u32, Vec<u8>) {
    let image = image::load_from_memory_with_format(bytes, image::ImageFormat::Png).unwrap();
    match image {
        image::DynamicImage::ImageRgb8(i) => (i.width(), i.height(), i.into_raw()),
        other => panic!("{:?}", other.color()),
    }
}

#[test]
fn bytes_are_compared_one_by_one() {
    assert!(bitwise_equals(b"", b""));
    assert!(bitwise_equals(b"abc", b"abc"));
    assert!(!bitwise_equals(b"abc", b"abd"));
    assert!(!bitwise_equals(b"abc", b"ab"));
}

#[test]
fn binary_diff_dumps_lengths_and_bytes() {
    let report = binary_diff(vec![1, 20, 255], vec![]);
    assert_eq!(
        String::from_utf8(report).unwrap(),
        "expected (length 3):\n[1, 20, 255]\nactual (length 0):\n[]\n"
    );
    let report = binary_diff(vec![0], vec![7; 12]);
    assert_eq!(
        String::from_utf8(report).unwrap(),
        "expected (length 1):\n[0]\nactual (length 12):\n[7, 7, 7, 7, 7, 7, 7, 7, 7, 7, 7, 7]\n"
    );
}

#[test]
fn a_sidecar_is_named_after_its_artifact() {
    assert_eq!(add_extension("foo.txt", ".diff"), "foo.txt.diff");
    assert_eq!(add_extension("dir/foo", ".diff"), "dir/foo.diff");
}

#[test]
fn text_is_equal_when_its_bytes_are() {
    assert_eq!(text_eq(&b"a\nb".to_vec(), &b"a\nb".to_vec()), Ok(true));
    assert_eq!(text_eq(&b"a\nb".to_vec(), &b"a\nb\n".to_vec()), Ok(false));
    assert_eq!(Text.equal(&vec![0xff], &vec![0xff]), Ok(true));
}

#[test]
fn changes_are_rendered_one_line_each() {
    let changes = vec![
        Change::Both("same".to_string()),
        Change::Left("new".to_string()),
        Change::Right("old".to_string()),
    ];
    assert_eq!(render_changes(&changes), " same\n+new\n-old\n");
    assert_eq!(render_changes(&vec![]), "");
}

#[test]
fn text_diff_marks_lines_and_escapes_the_snippet() {
    let mut requester = WriteRequester::new("/diff/t".to_string());
    let actual = b"a\n<b>\nc\n".to_vec();
    let expected = b"a\nb & c\nc\n".to_vec();
    Text.diff(&actual, &expected, "x.txt", &mut requester).unwrap();
    let (paths, files, renderer) = requester.into_parts();
    assert_eq!(paths, vec!["/diff/t/x.txt.diff".to_string()]);
    assert_eq!(files.len(), 1);
    assert_eq!(files[0].path, "x.txt.diff");
    assert_eq!(
        String::from_utf8(files[0].content.clone()).unwrap(),
        " a\n+<b>\n-b & c\n c\n \n"
    );
    let html = renderer.unwrap().render("/a", "/e", &paths).unwrap();
    assert_eq!(
        html,
        "<h3> Actual </h3><code><pre>a\n&lt;b&gt;\nc\n</pre></code>\
         <h3> Expected </h3><code><pre>a\nb &amp; c\nc\n</pre></code>\
         <h3> Diff </h3><code><pre> a\n&#43;&lt;b&gt;\n-b &amp; c\n c\n \n</pre></code>"
    );
    assert!(!html.contains("<b>"));
}

#[test]
fn every_escaped_character_becomes_an_entity() {
    let mut requester = WriteRequester::new("d".to_string());
    let actual = "&<>\"'`!$%()+=@[]{}é".as_bytes().to_vec();
    Text.diff(&actual, &actual, "x", &mut requester).unwrap();
    let (paths, _, renderer) = requester.into_parts();
    let html = renderer.unwrap().render("", "", &paths).unwrap();
    let escaped = "&amp;&lt;&gt;&#34;&#39;&#96;&#33;&#36;&#37;&#40;&#41;&#43;&#61;&#64;&#91;&#93;&#123;&#125;é";
    assert!(html.starts_with(&format!("<h3> Actual </h3><code><pre>{}</pre>", escaped)));
}

#[test]
fn svg_is_diffed_as_text_and_shown_as_images() {
    let fs = FakeFileSystem::new();
    let mut store = Mapping::new();
    fs.write(&mut store, "expected/t/a.svg", b"<svg>old</svg>".to_vec());
    let mut provider = difftest("t");
    provider.svg(&fs, &mut store, "a.svg", "<svg>new</svg>");
    let results = validate("t", &fs, &mut store, provider, AllFiles);
    assert_eq!(results.len(), 1);
    match &results[0].kind {
        ResultKind::Difference(d) => {
            assert_eq!(d.diffs, vec!["/diff/t/a.svg.diff".to_string()]);
            assert_eq!(
                d.html.as_deref(),
                Some(
                    "\n        <h3> Actual </h3>\n        <img src=\"/actual/t/a.svg\"/>\n        \
                     <h3> Expected </h3>\n        <img src=\"/expected/t/a.svg\"/>\n\n        "
                )
            );
        }
        other => panic!("{:?}", other),
    }
    assert_eq!(
        String::from_utf8(fs.read(&store, "diff/t/a.svg.diff").unwrap()).unwrap(),
        "+<svg>new</svg>\n-<svg>old</svg>\n"
    );
}

#[test]
fn svg_writer_registers_without_storing() {
    let fs = FakeFileSystem::new();
    let mut store = Mapping::new();
    let mut provider = difftest("t");
    let writer = provider.svg_writer("a.svg");
    writer.commit(&fs, &mut store);
    assert!(fs.is_empty(&store));
    let results = validate("t", &fs, &mut store, provider, AllFiles);
    assert_eq!(results.len(), 1);
    assert!(matches!(results[0].kind, ResultKind::ActualNotFound(_)));
}

#[test]
fn the_image_renderer_takes_the_first_png() {
    let diffs = vec!["/d/img-size.txt".to_string(), "/d/color-diff.png".to_string(), "/d/t.png".to_string()];
    assert_eq!(
        HtmlRenderer::FirstImage.render("a", "e", &diffs).as_deref(),
        Some("\n        <h3> Actual / Expected / Diff </h3>\n        <img src=\"/d/color-diff.png\"/>\n        ")
    );
    assert_eq!(HtmlRenderer::FirstImage.render("a", "e", &vec!["/d/img-format.txt".to_string()]), None);
    assert_eq!(
        HtmlRenderer::Fixed("<b>x</b>".to_string()).render("a", "e", &diffs).as_deref(),
        Some("<b>x</b>")
    );
}

#[test]
fn channel_differences_wrap_around() {
    assert_eq!(wrapping_difference(10, 3), 7);
    assert_eq!(wrapping_difference(3, 10), 249);
    assert_eq!(wrapping_difference(0, 255), 1);
    assert_eq!(wrapping_difference(255, 0), 255);
    assert_eq!(wrapping_difference(9, 9), 0);
}

#[test]
fn images_are_equal_when_their_pixels_are() {
    let fs = FakeFileSystem::new();
    let mut store = Mapping::new();
    png(&fs, &mut store, "a.png", false, 2, 1, vec![1, 2, 3, 4, 5, 6]);
    png(&fs, &mut store, "b.png", false, 2, 1, vec![1, 2, 3, 4, 5, 6]);
    png(&fs, &mut store, "c.png", false, 2, 1, vec![1, 2, 3, 4, 5, 7]);
    png(&fs, &mut store, "d.png", false, 1, 2, vec![1, 2, 3, 4, 5, 6]);
    png(&fs, &mut store, "e.png", true, 2, 1, vec![1, 2, 3, 255, 4, 5, 6, 255]);
    let a = fs.read(&store, "a.png").unwrap();
    assert_eq!(image_eq(&a, &fs.read(&store, "b.png").unwrap()), Ok(true));
    assert_eq!(image_eq(&a, &fs.read(&store, "c.png").unwrap()), Ok(false));
    assert_eq!(image_eq(&a, &fs.read(&store, "d.png").unwrap()), Ok(false));
    assert_eq!(image_eq(&a, &fs.read(&store, "e.png").unwrap()), Ok(false));
    assert_eq!(
        image_eq(&a, &b"no image".to_vec()),
        Err("the file is not a PNG image".to_string())
    );
    assert_eq!(decode_rgb(&a), (2, 1, vec![1, 2, 3, 4, 5, 6]));
}

#[test]
fn rgb_images_are_shown_side_by_side_with_their_difference() {
    let fs = FakeFileSystem::new();
    let mut store = Mapping::new();
    png(&fs, &mut store, "actual/t/i.png", false, 2, 1, vec![10, 20, 30, 40, 50, 60]);
    png(&fs, &mut store, "expected/t/i.png", false, 1, 2, vec![1, 30, 30, 7, 8, 9]);
    let mut provider = difftest("t");
    let _ = provider.png_writer("i.png");
    let results = validate("t", &fs, &mut store, provider, AllFiles);
    assert_eq!(results.len(), 1);
    match &results[0].kind {
        ResultKind::Difference(d) => {
            assert_eq!(
                d.diffs,
                vec![
                    "/diff/t/i.png/img-size.txt".to_string(),
                    "/diff/t/i.png/color-diff.png".to_string()
                ]
            );
            assert_eq!(
                d.html.as_deref(),
                Some("\n        <h3> Actual / Expected / Diff </h3>\n        <img src=\"/diff/t/i.png/color-diff.png\"/>\n        ")
            );
        }
        other => panic!("{:?}", other),
    }
    assert_eq!(
        String::from_utf8(fs.read(&store, "diff/t/i.png/img-size.txt").unwrap()).unwrap(),
        "image dimensions are different\nactual:   width: 2 height: 1\nexpected: width: 1 height: 2\n"
    );
    let (width, height, data) = decode_rgb(&fs.read(&store, "diff/t/i.png/color-diff.png").unwrap());
    assert_eq!((width, height), (4, 2));
    assert_eq!(
        data,
        vec![
            10, 20, 30, 40, 50, 60, 1, 30, 30, 9, 246, 0, //
            0, 0, 0, 0, 0, 0, 7, 8, 9, 0, 0, 0,
        ]
    );
}

#[test]
fn rgba_images_get_a_colour_and_a_transparency_sheet() {
    let fs = FakeFileSystem::new();
    let mut store = Mapping::new();
    png(&fs, &mut store, "actual/t/i.png", true, 1, 1, vec![10, 20, 30, 200]);
    png(&fs, &mut store, "expected/t/i.png", true, 1, 1, vec![5, 25, 30, 255]);
    let mut provider = difftest("t");
    let _ = provider.png_writer("i.png");
    let results = validate("t", &fs, &mut store, provider, AllFiles);
    match &results[0].kind {
        ResultKind::Difference(d) => assert_eq!(
            d.diffs,
            vec![
                "/diff/t/i.png/color-diff.png".to_string(),
                "/diff/t/i.png/transparency-diff.png".to_string()
            ]
        ),
        other => panic!("{:?}", other),
    }
    let (width, height, data) = decode_rgb(&fs.read(&store, "diff/t/i.png/color-diff.png").unwrap());
    assert_eq!((width, height), (3, 1));
    assert_eq!(data, vec![0, 0, 0, 0, 0, 0, 5, 251, 0]);
    let (width, height, data) =
        decode_rgb(&fs.read(&store, "diff/t/i.png/transparency-diff.png").unwrap());
    assert_eq!((width, height), (3, 1));
    assert_eq!(data, vec![201, 201, 201, 0, 0, 0, 0, 0, 0]);
}

#[test]
fn images_of_different_kinds_get_a_note() {
    let fs = FakeFileSystem::new();
    let mut store = Mapping::new();
    png(&fs, &mut store, "actual/t/i.png", false, 1, 1, vec![1, 2, 3]);
    png(&fs, &mut store, "expected/t/i.png", true, 1, 1, vec![1, 2, 3, 255]);
    let mut provider = difftest("t");
    let _ = provider.png_writer("i.png");
    let results = validate("t", &fs, &mut store, provider, AllFiles);
    match &results[0].kind {
        ResultKind::Difference(d) => {
            assert_eq!(d.diffs, vec!["/diff/t/i.png/img-format.txt".to_string()]);
            assert_eq!(d.html, None);
        }
        other => panic!("{:?}", other),
    }
    assert_eq!(
        String::from_utf8(fs.read(&store, "diff/t/i.png/img-format.txt").unwrap()).unwrap(),
        "image formats are different\nactual:   RGB8\nexpected: RGBA8 (Alpha)\n"
    );

    let mut requester = WriteRequester::new("d".to_string());
    let rgba = fs.read(&store, "expected/t/i.png").unwrap();
    let rgb = fs.read(&store, "actual/t/i.png").unwrap();
    Image.diff(&rgba, &rgb, "i.png", &mut requester).unwrap();
    let (_, files, _) = requester.into_parts();
    assert_eq!(
        String::from_utf8(files[0].content.clone()).unwrap(),
        "image formats are different\nactual:   RGBA8 (Alpha)\nexpected: RGB8\n"
    );
}

#[test]
fn a_file_that_is_no_image_is_an_io_error() {
    let fs = FakeFileSystem::new();
    let mut store = Mapping::new();
    fs.write(&mut store, "actual/t/i.png", b"not a png".to_vec());
    fs.write(&mut store, "expected/t/i.png", b"neither".to_vec());
    let mut provider = difftest("t");
    let _ = provider.png_writer("i.png");
    let results = validate("t", &fs, &mut store, provider, AllFiles);
    assert_eq!(results.len(), 1);
    assert_eq!(
        results[0].kind,
        ResultKind::IoError("the file is not a PNG image".to_string())
    );
}

#[test]
fn an_image_with_too_few_pixels_is_not_stored() {
    let fs = FakeFileSystem::new();
    let mut store = Mapping::new();
    let mut provider = difftest("t");
    let r = provider.rgb_image(&fs, &mut store, "i.png", 2, 2, vec![0, 0, 0]);
    assert_eq!(r, Err("the difference could not be encoded as a PNG image".to_string()));
    assert!(fs.is_empty(&store));
}

#[test]
fn the_strategy_picks_the_comparison() {
    let same = b"x".to_vec();
    assert_eq!(Strategy::Bytes.equal(&same, &same), Ok(true));
    assert_eq!(Strategy::Text.equal(&same, &b"y".to_vec()), Ok(false));
    assert_eq!(Strategy::Svg.equal(&same, &same), Ok(true));
    assert!(Strategy::Image.equal(&same, &same).is_err());
    let mut requester = WriteRequester::new("/d".to_string());
    Strategy::Bytes.diff(&same, &b"y".to_vec(), "f", &mut requester).unwrap();
    Bytes.diff(&same, &b"y".to_vec(), "g", &mut requester).unwrap();
    let (paths, files, renderer) = requester.into_parts();
    assert_eq!(paths, vec!["/d/f.diff".to_string(), "/d/g.diff".to_string()]);
    assert_eq!(files[0].content, files[1].content);
    assert!(renderer.is_none());
}

#[test]
fn text_stores_its_content_below_the_actual_root() {
    let fs = FakeFileSystem::new();
    let mut store = Mapping::new();
    let mut provider = difftest("t");
    provider.text(&fs, &mut store, "a.txt", "hällo");
    provider.text(&fs, &mut store, "empty.txt", "");
    assert_eq!(fs.files(&store), vec!["actual/t/a.txt".to_string()]);
    assert_eq!(fs.read(&store, "actual/t/a.txt").unwrap(), "hällo".as_bytes());
}

#[test]
fn a_picture_takes_the_pixels_that_its_size_asks_for() {
    assert!(Picture::from_raw(false, 2, 2, vec![0; 11]).is_none());
    assert!(Picture::from_raw(true, 1, 1, vec![0; 3]).is_none());
    let exact = Picture::from_raw(false, 2, 1, vec![1, 2, 3, 4, 5, 6]).unwrap();
    let longer = Picture::from_raw(false, 2, 1, vec![1, 2, 3, 4, 5, 6, 7, 8]).unwrap();
    assert!(same_picture(&exact, &longer));
    assert_eq!(exact.channel(1, 0, 2), 6);
    assert_eq!(exact.channel(0, 0, 1), 2);
    let tall = Picture::from_raw(false, 1, 2, vec![1, 2, 3, 4, 5, 6]).unwrap();
    assert!(!same_picture(&exact, &tall));
    assert_eq!(tall.channel(0, 1, 0), 4);
    let empty = Picture::from_raw(true, 0, 7, vec![]).unwrap();
    assert!(same_picture(&empty, &empty));
}

#[test]
fn sheets_are_drawn_pixel_by_pixel() {
    let a = Picture::from_raw(false, 1, 2, vec![9, 9, 9, 100, 0, 255]).unwrap();
    let b = Picture::from_raw(false, 2, 1, vec![10, 8, 9, 1, 1, 1]).unwrap();
    let sheet = draw(Sheet::SideBySide, &a, &b).unwrap();
    assert_eq!((sheet.width, sheet.height), (4, 2));
    assert_eq!(
        sheet.data,
        vec![
            9, 9, 9, 10, 8, 9, 1, 1, 1, 255, 1, 0, //
            100, 0, 255, 0, 0, 0, 0, 0, 0, 0, 0, 0,
        ]
    );

    let a = Picture::from_raw(true, 2, 1, vec![1, 2, 3, 4, 50, 60, 70, 80]).unwrap();
    let b = Picture::from_raw(true, 1, 1, vec![3, 2, 1, 5]).unwrap();
    let colour = draw(Sheet::Colour, &a, &b).unwrap();
    assert_eq!((colour.width, colour.height), (3, 1));
    assert_eq!(colour.data, vec![0, 0, 0, 0, 0, 0, 254, 0, 2]);
    let transparency = draw(Sheet::Transparency, &a, &b).unwrap();
    assert_eq!((transparency.width, transparency.height), (3, 1));
    assert_eq!(transparency.data, vec![255, 255, 255, 0, 0, 0, 0, 0, 0]);

    let none = Picture::from_raw(false, 0, 0, vec![]).unwrap();
    let sheet = draw(Sheet::SideBySide, &none, &none).unwrap();
    assert_eq!((sheet.width, sheet.height, sheet.data.len()), (0, 0, 0));
}
