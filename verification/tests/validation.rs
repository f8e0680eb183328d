use expectation::config::{parse_endings, AllFiles, FileTypes};
use expectation::extensions::text::TextDiffExtension;
use expectation::harness::difftest;
use expectation::diff::Bytes;
use expectation::filesystem::FileSystem;
use expectation::memory::{FakeFileSystem, Mapping};
use expectation::provider::{Provider, Writer};
use expectation::shared::{Difference, Double, Result, ResultKind};
use expectation::validation::validate;

fn scope(name: &str) -> String {
    format!("actual/{}", name)
}

fn write_to(fs: &FakeFileSystem, store: &mut Mapping, mut writer: Writer, text: &str) {
    writer.write(text.as_bytes());
    writer.commit(fs, store);
}

fn read_text(fs: &FakeFileSystem, store: &Mapping, path: &str) -> String {
    String::from_utf8(fs.read(store, path).unwrap()).unwrap()
}

#[test]
fn writer_does_not_write_to_filesystem_if_not_written_to() {
    let filesystem = FakeFileSystem::new();
    let mut store = Mapping::new();
    {
        let writer = Writer::new("foo.txt".to_string());
        writer.commit(&filesystem, &mut store);
    }
    assert!(!filesystem.file_exists(&store, "foo.txt"));
}

#[test]
fn not_used_provider() {
    let fs = FakeFileSystem::new();
    let mut store = Mapping::new();
    let _provider: Provider<Bytes> = Provider::new(scope("hi"));
    assert!(fs.is_empty(&store));
}

#[test]
fn provider_used_once() {
    let fs = FakeFileSystem::new();
    let mut store = Mapping::new();
    let mut provider = Provider::new(scope("hi"));
    let w = provider.custom_test("foo.txt", Bytes);
    write_to(&fs, &mut store, w, "hello world");

    assert!(!fs.is_empty(&store));
    assert_eq!(read_text(&fs, &store, "actual/hi/foo.txt"), "hello world");
}

#[test]
fn provider_used_more_than_once() {
    let fs = FakeFileSystem::new();
    let mut store = Mapping::new();
    let mut provider = Provider::new(scope("hi"));
    {
        let w = provider.custom_test("foo.txt", Bytes);
        write_to(&fs, &mut store, w, "hello world");
    }
    {
        let w = provider.custom_test("bar.txt", Bytes);
        write_to(&fs, &mut store, w, "hello world");
    }

    assert!(!fs.is_empty(&store));
    assert_eq!(read_text(&fs, &store, "actual/hi/foo.txt"), "hello world");
    assert_eq!(read_text(&fs, &store, "actual/hi/bar.txt"), "hello world");
}

#[test]
fn validate_on_no_files() {
    let fs = FakeFileSystem::new();
    let mut store = Mapping::new();
    let provider: Provider<Bytes> = Provider::new(scope("hi"));
    let results = validate("hi", &fs, &mut store, provider, AllFiles);
    assert!(results.is_empty());
}

#[test]
fn validate_one_file_expected_not_found() {
    let fs = FakeFileSystem::new();
    let mut store = Mapping::new();
    let mut provider = Provider::new(scope("hi"));
    let w = provider.custom_test("foo.txt", Bytes);
    write_to(&fs, &mut store, w, "hello world");
    let results = validate("hi", &fs, &mut store, provider, AllFiles);

    assert_eq!(
        results,
        vec![Result {
            test_name: "hi".into(),
            file_name: "foo.txt".into(),
            kind: ResultKind::ExpectedNotFound(Double {
                actual: "/actual/hi/foo.txt".into(),
                expected: "/expected/hi/foo.txt".into(),
            }),
        }]
    );
}

#[test]
fn validate_one_file_actual_not_found() {
    let fs = FakeFileSystem::new();
    let mut store = Mapping::new();
    let mut provider = Provider::new(scope("hi"));
    fs.write(&mut store, "expected/hi/something_else.txt", b"not found".to_vec());
    let w = provider.custom_test("foo.txt", Bytes);
    write_to(&fs, &mut store, w, "hello world");
    let results = validate("hi", &fs, &mut store, provider, AllFiles);

    assert_eq!(
        results,
        vec![
            Result {
                test_name: "hi".into(),
                file_name: "foo.txt".into(),
                kind: ResultKind::ExpectedNotFound(Double {
                    actual: "/actual/hi/foo.txt".into(),
                    expected: "/expected/hi/foo.txt".into(),
                }),
            },
            Result {
                test_name: "hi".into(),
                file_name: "something_else.txt".into(),
                kind: ResultKind::ActualNotFound(Double {
                    actual: "/actual/hi/something_else.txt".into(),
                    expected: "/expected/hi/something_else.txt".into(),
                }),
            },
        ]
    );
}

#[test]
fn validate_one_file_diff_is_bad() {
    let fs = FakeFileSystem::new();
    let mut store = Mapping::new();
    let mut provider = Provider::new(scope("hi"));
    fs.write(&mut store, "expected/hi/foo.txt", b"goodbye found".to_vec());
    let w = provider.custom_test("foo.txt", Bytes);
    write_to(&fs, &mut store, w, "hello world");
    let results = validate("hi", &fs, &mut store, provider, AllFiles);

    assert_eq!(
        results,
        vec![Result {
            test_name: "hi".into(),
            file_name: "foo.txt".into(),
            kind: ResultKind::Difference(Difference {
                actual: "/actual/hi/foo.txt".into(),
                expected: "/expected/hi/foo.txt".into(),
                diffs: vec!["/diff/hi/foo.txt.diff".into()],
                html: None,
            }),
        }]
    );
    assert_eq!(
        read_text(&fs, &store, "diff/hi/foo.txt.diff"),
        "expected (length 13):\n[103, 111, 111, 100, 98, 121, 101, 32, 102, 111, 117, 110, 100]\n\
         actual (length 11):\n[104, 101, 108, 108, 111, 32, 119, 111, 114, 108, 100]\n"
    );
}

#[test]
fn validate_one_file_diff_is_bad_with_text_extension() {
    let fs = FakeFileSystem::new();
    let mut store = Mapping::new();
    let mut provider = difftest("hi");
    fs.write(&mut store, "expected/hi/foo.txt", b"goodbye found".to_vec());
    let w = provider.text_writer("foo.txt");
    write_to(&fs, &mut store, w, "hello world");
    let results = validate("hi", &fs, &mut store, provider, AllFiles);

    assert_eq!(results.len(), 1);
    assert_eq!(results[0].test_name, "hi");
    assert_eq!(results[0].file_name, "foo.txt");
    match &results[0].kind {
        ResultKind::Difference(difference) => {
            assert_eq!(difference.actual, "/actual/hi/foo.txt");
            assert_eq!(difference.expected, "/expected/hi/foo.txt");
            assert_eq!(difference.diffs, vec!["/diff/hi/foo.txt.diff".to_string()]);
            assert_eq!(
                difference.html.as_deref(),
                Some(
                    "<h3> Actual </h3><code><pre>hello world</pre></code>\
                     <h3> Expected </h3><code><pre>goodbye found</pre></code>\
                     <h3> Diff </h3><code><pre>&#43;hello world\n-goodbye found\n</pre></code>"
                )
            );
        }
        other => panic!("{:?}", other),
    }
    assert_eq!(read_text(&fs, &store, "diff/hi/foo.txt.diff"), "+hello world\n-goodbye found\n");
}

#[test]
fn two_matching_artifacts_are_ok_in_registration_order() {
    let fs = FakeFileSystem::new();
    let mut store = Mapping::new();
    let mut provider = Provider::new(scope("hi"));
    fs.write(&mut store, "expected/hi/foo.txt", b"one".to_vec());
    fs.write(&mut store, "expected/hi/bar.txt", b"two".to_vec());
    let w = provider.custom_test("foo.txt", Bytes);
    write_to(&fs, &mut store, w, "one");
    let w = provider.custom_test("bar.txt", Bytes);
    write_to(&fs, &mut store, w, "two");
    let results = validate("hi", &fs, &mut store, provider, AllFiles);

    assert_eq!(results, vec![Result::ok("hi", "foo.txt"), Result::ok("hi", "bar.txt")]);
    assert!(fs.subsystem("diff").is_empty(&store));
    assert!(results.iter().all(|r| r.is_ok()));
}

#[test]
fn equal_sides_leave_no_sidecar() {
    let fs = FakeFileSystem::new();
    let mut store = Mapping::new();
    let mut provider = difftest("t");
    fs.write(&mut store, "expected/t/a.txt", b"same\n".to_vec());
    let w = provider.text_writer("a.txt");
    write_to(&fs, &mut store, w, "same\n");
    let before = fs.files(&store);
    let results = validate("t", &fs, &mut store, provider, AllFiles);
    assert_eq!(results, vec![Result::ok("t", "a.txt")]);
    assert_eq!(fs.files(&store), before);
}

#[test]
fn a_registered_file_that_was_not_written_is_actual_not_found() {
    let fs = FakeFileSystem::new();
    let mut store = Mapping::new();
    let mut provider = Provider::new(scope("t"));
    fs.write(&mut store, "expected/t/a.txt", b"baseline".to_vec());
    let _unused = provider.custom_test("a.txt", Bytes);
    let results = validate("t", &fs, &mut store, provider, AllFiles);
    assert_eq!(
        results,
        vec![Result::actual_not_found(
            "t",
            "a.txt",
            "/actual/t/a.txt".to_string(),
            "/expected/t/a.txt".to_string()
        )]
    );
}

#[test]
fn validating_twice_gives_the_same_results() {
    let fs = FakeFileSystem::new();
    let mut store = Mapping::new();
    fs.write(&mut store, "expected/t/a.txt", b"old".to_vec());
    fs.write(&mut store, "expected/t/gone.txt", b"gone".to_vec());
    fs.write(&mut store, "actual/t/a.txt", b"new".to_vec());
    fs.write(&mut store, "actual/t/b.txt", b"fresh".to_vec());

    let mut first = Provider::new(scope("t"));
    let _ = first.custom_test("a.txt", Bytes);
    let _ = first.custom_test("b.txt", Bytes);
    let once = validate("t", &fs, &mut store, first, AllFiles);

    let mut second = Provider::new(scope("t"));
    let _ = second.custom_test("a.txt", Bytes);
    let _ = second.custom_test("b.txt", Bytes);
    let twice = validate("t", &fs, &mut store, second, AllFiles);

    assert_eq!(once, twice);
    assert_eq!(once.len(), 3);
    assert!(matches!(once[0].kind, ResultKind::Difference(_)));
    assert!(matches!(once[1].kind, ResultKind::ExpectedNotFound(_)));
    assert!(matches!(once[2].kind, ResultKind::ActualNotFound(_)));
    assert_eq!(once[2].file_name, "gone.txt");
}

#[test]
fn a_name_registered_twice_is_compared_once() {
    let fs = FakeFileSystem::new();
    let mut store = Mapping::new();
    let mut provider = Provider::new(scope("t"));
    let w = provider.custom_test("a.txt", Bytes);
    write_to(&fs, &mut store, w, "x");
    let w = provider.custom_test("a.txt", Bytes);
    write_to(&fs, &mut store, w, "y");
    assert_eq!(read_text(&fs, &store, "actual/t/a.txt"), "y");
    let results = validate("t", &fs, &mut store, provider, AllFiles);
    assert_eq!(results.len(), 1);
    assert!(matches!(results[0].kind, ResultKind::ExpectedNotFound(_)));
}

#[test]
fn the_filter_passes_over_files_in_both_passes() {
    let fs = FakeFileSystem::new();
    let mut store = Mapping::new();
    fs.write(&mut store, "expected/t/old.svg", b"<svg/>".to_vec());
    fs.write(&mut store, "expected/t/old.txt", b"text".to_vec());
    let mut provider = Provider::new(scope("t"));
    let w = provider.custom_test("new.svg", Bytes);
    write_to(&fs, &mut store, w, "<svg/>");
    let w = provider.custom_test("new.txt", Bytes);
    write_to(&fs, &mut store, w, "text");
    let filter = FileTypes { endings: Some(parse_endings("svg,png")) };
    let results = validate("t", &fs, &mut store, provider, filter);
    let files: Vec<&str> = results.iter().map(|r| r.file_name.as_str()).collect();
    assert_eq!(files, vec!["new.svg", "old.svg"]);
}

#[test]
fn a_text_that_is_no_utf8_gives_a_difference_and_an_io_error() {
    let fs = FakeFileSystem::new();
    let mut store = Mapping::new();
    fs.write(&mut store, "expected/t/a.txt", vec![0xff, 0xfe]);
    fs.write(&mut store, "actual/t/a.txt", vec![b'a']);
    let mut provider = difftest("t");
    let _ = provider.text_writer("a.txt");
    let results = validate("t", &fs, &mut store, provider, AllFiles);
    assert_eq!(results.len(), 2);
    match &results[0].kind {
        ResultKind::Difference(d) => {
            assert!(d.diffs.is_empty());
            assert_eq!(d.html, None);
        }
        other => panic!("{:?}", other),
    }
    assert_eq!(
        results[1].kind,
        ResultKind::IoError("stream did not contain valid UTF-8".to_string())
    );
    assert!(fs.subsystem("diff").is_empty(&store));
}

#[test]
fn a_writer_commits_all_writes_as_one_file() {
    let fs = FakeFileSystem::new();
    let mut store = Mapping::new();
    let mut writer = Writer::new("out/log.txt".to_string());
    assert_eq!(writer.write(b"one "), 4);
    writer.flush();
    assert_eq!(writer.write(b""), 0);
    assert_eq!(writer.write(b"two"), 3);
    writer.commit(&fs, &mut store);
    assert_eq!(fs.files(&store), vec!["out/log.txt".to_string()]);
    assert_eq!(read_text(&fs, &store, "out/log.txt"), "one two");
}

#[test]
fn a_writer_that_got_no_byte_stores_nothing() {
    let fs = FakeFileSystem::new();
    let mut store = Mapping::new();
    let mut writer = Writer::new("empty.txt".to_string());
    writer.write(b"");
    writer.commit(&fs, &mut store);
    assert!(fs.is_empty(&store));
    assert!(!fs.file_exists(&store, "empty.txt"));
}

#[test]
fn a_file_that_cannot_be_read_is_an_io_error_and_the_run_goes_on() {
    let fs = FakeFileSystem::new();
    let mut store = Mapping::new();
    fs.write(&mut store, "expected/t/a.txt", b"a".to_vec());
    fs.write(&mut store, "actual/t/a.txt", b"a".to_vec());
    fs.write(&mut store, "expected/t/b.txt", b"b".to_vec());
    fs.write(&mut store, "actual/t/b.txt", b"b".to_vec());
    fs.write(&mut store, "expected/t/c.txt", b"c".to_vec());
    fs.write(&mut store, "actual/t/c.txt", b"c".to_vec());
    fs.fail_reads(&mut store, "actual/t/a.txt", "permission denied".to_string());
    fs.fail_reads(&mut store, "expected/t/a.txt", "never read".to_string());
    fs.fail_reads(&mut store, "expected/t/b.txt", "first".to_string());
    fs.fail_reads(&mut store, "expected/t/b.txt", "disk on fire".to_string());

    assert!(fs.file_exists(&store, "actual/t/a.txt"));
    assert_eq!(fs.read(&store, "actual/t/a.txt"), Err("permission denied".to_string()));
    assert_eq!(fs.subsystem("expected").read(&store, "t/b.txt"), Err("disk on fire".to_string()));

    let mut provider = Provider::new(scope("t"));
    let _ = provider.custom_test("a.txt", Bytes);
    let _ = provider.custom_test("b.txt", Bytes);
    let _ = provider.custom_test("c.txt", Bytes);
    let results = validate("t", &fs, &mut store, provider, AllFiles);
    assert_eq!(
        results,
        vec![
            Result::io_error("t", "a.txt", "permission denied".to_string()),
            Result::io_error("t", "b.txt", "disk on fire".to_string()),
            Result::ok("t", "c.txt"),
        ]
    );
    fs.write(&mut store, "actual/t/a.txt", b"again".to_vec());
    assert_eq!(fs.read(&store, "actual/t/a.txt"), Err("permission denied".to_string()));
}
