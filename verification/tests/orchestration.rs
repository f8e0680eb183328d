use expectation::config::{parse_endings, should_continue, AllFiles, FileFilter, FileTypes};
use expectation::disk::RealFileSystem;
use expectation::event_loop::{Action, Event, EventLoop};
use expectation::filesystem::FileSystem;
use expectation::memory::{FakeFileSystem, Mapping};
use expectation::path::{contains, ends_with, join_path, path_is_relative};
use expectation::shared::{Message, Result};
use expectation::transport::{
    candidate_address, join_with_commas, test_arguments, test_environment, Variable,
};

fn finished(name: &str, results: Vec<Result>) -> Event {
    Event::Received(Message::TestFinished { name: name.to_string(), result: results })
}

#[test]
fn a_message_behind_the_exit_signal_is_recorded() {
    let mut events = EventLoop::new();
    assert_eq!(events.next_action(), Action::Wait);
    assert!(!events.handle(Event::Exited));
    assert_eq!(events.next_action(), Action::Poll);
    assert!(events.handle(finished("suiteA", vec![Result::ok("suiteA", "a.txt")])));
    assert_eq!(events.next_action(), Action::Poll);
    assert!(!events.handle(Event::Empty));
    assert_eq!(events.next_action(), Action::Stop);
    assert_eq!(
        events.into_suites(),
        vec![("suiteA".to_string(), vec![Result::ok("suiteA", "a.txt")], true)]
    );
}

#[test]
fn the_loop_records_in_order_until_it_is_done() {
    let mut events = EventLoop::new();
    assert!(events.handle(finished("a", vec![])));
    assert!(!events.handle(Event::Empty));
    assert_eq!(events.next_action(), Action::Wait);
    assert!(!events.handle(Event::Received(Message::TestStarted { name: "b".to_string() })));
    assert!(events.handle(finished(
        "b",
        vec![Result::io_error("b", "f", "boom".to_string())]
    )));
    assert!(!events.handle(Event::Received(Message::TestPanicked {
        name: "c".to_string(),
        details: "panic".to_string()
    })));
    assert!(!events.handle(Event::Closed));
    assert_eq!(events.next_action(), Action::Poll);
    assert!(!events.handle(Event::Exited));
    assert_eq!(events.next_action(), Action::Poll);
    assert!(events.handle(finished("d", vec![Result::ok("d", "f")])));
    assert!(!events.handle(Event::Closed));
    assert_eq!(events.next_action(), Action::Stop);
    assert!(!events.handle(finished("late", vec![])));
    assert!(!events.handle(Event::Exited));
    assert_eq!(events.next_action(), Action::Stop);
    let names: Vec<(&str, bool)> =
        events.recorded().iter().map(|s| (s.0.as_str(), s.2)).collect();
    assert_eq!(names, vec![("a", true), ("b", false), ("d", true)]);
}

#[test]
fn candidate_addresses_run_through_the_ports() {
    assert_eq!(candidate_address(0).as_deref(), Some("localhost:9000"));
    assert_eq!(candidate_address(1).as_deref(), Some("localhost:9001"));
    assert_eq!(candidate_address(99).as_deref(), Some("localhost:9099"));
    assert_eq!(candidate_address(100).as_deref(), Some("localhost:9100"));
    assert_eq!(candidate_address(101), None);
    assert_eq!(candidate_address(u32::MAX), None);
}

#[test]
fn the_test_process_is_told_what_was_asked_for() {
    let var = |name: &str, value: &str| Variable { name: name.to_string(), value: value.to_string() };
    assert_eq!(
        test_environment(&None, &vec![], "localhost:9000"),
        vec![var("CARGO_EXPECT_IPC", "localhost:9000")]
    );
    assert_eq!(
        test_environment(
            &Some("name".to_string()),
            &vec!["svg".to_string(), "png".to_string()],
            "addr"
        ),
        vec![
            var("CARGO_EXPECT_FILTER", "name"),
            var("CARGO_EXPECT_FILES", "svg,png"),
            var("CARGO_EXPECT_IPC", "addr"),
        ]
    );
    assert_eq!(test_arguments(false), vec!["test", "--lib", "expectation_test"]);
    assert_eq!(test_arguments(true), vec!["test", "--lib", "--release", "expectation_test"]);
}

#[test]
fn endings_are_joined_and_split_at_commas() {
    assert_eq!(join_with_commas(&vec![]), "");
    assert_eq!(join_with_commas(&vec!["a".to_string()]), "a");
    assert_eq!(join_with_commas(&vec!["a".to_string(), "".to_string(), "c".to_string()]), "a,,c");
    assert_eq!(parse_endings("svg,png"), vec!["svg", "png"]);
    assert_eq!(parse_endings("svg"), vec!["svg"]);
    assert_eq!(parse_endings(""), vec![""]);
    assert_eq!(parse_endings(",a,"), vec!["", "a", ""]);
    assert_eq!(parse_endings("é,ü"), vec!["é", "ü"]);
    let list = vec![".svg".to_string(), ".txt".to_string()];
    assert_eq!(parse_endings(&join_with_commas(&list)), list);
}

#[test]
fn filters_match_names_and_endings() {
    assert!(should_continue("my_test", None));
    assert!(should_continue("my_test", Some("y_t")));
    assert!(should_continue("my_test", Some("")));
    assert!(should_continue("", Some("")));
    assert!(!should_continue("my_test", Some("other")));
    assert!(!should_continue("my", Some("my_test")));
    assert!(AllFiles.accepts("anything"));
    let all = FileTypes { endings: None };
    assert!(all.accepts("a.bin"));
    let some = FileTypes { endings: Some(vec!["svg".to_string(), ".png".to_string()]) };
    assert!(some.accepts("a.svg"));
    assert!(some.accepts("dir/b.png"));
    assert!(!some.accepts("bpng"));
    assert!(!some.accepts("a.txt"));
    let none = FileTypes { endings: Some(vec![]) };
    assert!(!none.accepts("a.svg"));
}

#[test]
fn paths_join_with_one_separator() {
    assert_eq!(join_path("/", "actual"), "/actual");
    assert_eq!(join_path("/actual", "hi"), "/actual/hi");
    assert_eq!(join_path("/actual/", "hi"), "/actual/hi");
    assert_eq!(join_path("", "hi"), "hi");
    assert_eq!(join_path("a", ""), "a/");
    assert!(path_is_relative("a/b"));
    assert!(path_is_relative(""));
    assert!(!path_is_relative("/a"));
    assert!(ends_with("file.png", ".png"));
    assert!(ends_with("file.png", ""));
    assert!(!ends_with("png", ".png"));
    assert!(contains("abc", "bc"));
    assert!(contains("abc", "abc"));
    assert!(!contains("abc", "cb"));
}

#[test]
fn handles_scope_the_same_store() {
    let fs = FakeFileSystem::new();
    let mut store = Mapping::new();
    fs.write(&mut store, "a/x.txt", b"1".to_vec());
    fs.write(&mut store, "a/b/y.txt", b"2".to_vec());
    fs.write(&mut store, "ab/z.txt", b"3".to_vec());
    fs.write(&mut store, "a/x.txt", b"4".to_vec());
    assert_eq!(fs.files(&store), vec!["a/x.txt", "a/b/y.txt", "ab/z.txt"]);
    let a = fs.subsystem("a");
    assert_eq!(a.files(&store), vec!["x.txt", "b/y.txt"]);
    assert_eq!(a.read(&store, "x.txt").unwrap(), b"4");
    assert_eq!(a.full_path_for("b/y.txt"), "/a/b/y.txt");
    let b = a.subsystem("b");
    assert!(b.file_exists(&store, "y.txt"));
    assert!(!b.file_exists(&store, "x.txt"));
    assert_eq!(b.read(&store, "x.txt"), Err("/a/b/x.txt does not exist".to_string()));
    assert!(fs.subsystem("c").is_empty(&store));
    assert!(!fs.subsystem("ab").is_empty(&store));
}

#[test]
fn handles_of_one_store_see_each_others_writes() {
    let top = FakeFileSystem::new();
    let mut store = Mapping::new();
    let early = top.subsystem("actual").subsystem("hi");
    let copy = top.duplicate();
    assert_eq!(copy, top);
    assert!(top.is_empty(&store));
    assert!(early.is_empty(&store));

    let late = top.subsystem("actual").subsystem("hi");
    late.write(&mut store, "foo.txt", b"through late".to_vec());
    assert!(!top.is_empty(&store));
    assert!(!early.is_empty(&store));
    assert!(top.file_exists(&store, "actual/hi/foo.txt"));
    assert!(copy.file_exists(&store, "actual/hi/foo.txt"));
    assert_eq!(early.read(&store, "foo.txt").unwrap(), b"through late");
    assert_eq!(top.files(&store), vec!["actual/hi/foo.txt"]);

    top.write(&mut store, "actual/hi/foo.txt", b"through top".to_vec());
    top.write(&mut store, "expected/hi/foo.txt", b"elsewhere".to_vec());
    assert_eq!(late.read(&store, "foo.txt").unwrap(), b"through top");
    assert_eq!(late.files(&store), vec!["foo.txt"]);
    assert!(top.subsystem("diff").is_empty(&store));

    let other = Mapping::new();
    assert!(top.is_empty(&other));
    assert!(!late.file_exists(&other, "foo.txt"));
}

#[test]
fn a_root_on_disk_is_scoped_by_joining() {
    let top = RealFileSystem { root: "./expectation-tests".to_string() };
    let actual = top.subsystem("actual").subsystem("name");
    assert_eq!(actual.root, "./expectation-tests/actual/name");
    assert_eq!(actual.full_path_for("a.txt"), "./expectation-tests/actual/name/a.txt");
    assert_eq!(top.duplicate(), top);
}
