use expectation::html::format_html;
use expectation::output::{
    all_ok, count_promoted, report_failures, report_promotion, report_results, Line, Mark,
};
use expectation::shared::Result;
use expectation::summary::{push_number, report_summary, summarize, Summary};

fn line(indent: &str, mark: Mark, text: &str) -> Line {
    Line { indent: indent.to_string(), mark, text: text.to_string() }
}

fn difference(file: &str, diffs: &[&str], html: Option<&str>) -> Result {
    Result::difference(
        "suite",
        file,
        format!("/actual/suite/{}", file),
        format!("/expected/suite/{}", file),
        diffs.iter().map(|d| d.to_string()).collect(),
        html.map(|h| h.to_string()),
    )
}

fn missing_baseline(file: &str) -> Result {
    Result::expected_not_found("suite", file, format!("/a/{}", file), format!("/e/{}", file))
}

fn missing_actual(file: &str) -> Result {
    Result::actual_not_found("suite", file, format!("/a/{}", file), format!("/e/{}", file))
}

#[test]
fn constructors_fill_every_field() {
    let r = Result::ok("n", "f");
    assert!(r.is_ok());
    assert_eq!((r.test_name.as_str(), r.file_name.as_str()), ("n", "f"));
    assert!(!missing_baseline("f").is_ok());
    assert!(!missing_actual("f").is_ok());
    assert!(!difference("f", &[], None).is_ok());
    let e = Result::io_error("n", "f", "broken".to_string());
    assert!(!e.is_ok());
    assert_eq!(e.kind, expectation::shared::ResultKind::IoError("broken".to_string()));
}

#[test]
fn the_document_shows_failed_suites_only() {
    let suites = vec![
        ("good".to_string(), vec![Result::ok("good", "a.txt")], true),
        (
            "bad".to_string(),
            vec![
                Result::ok("bad", "fine.txt"),
                difference("x.txt", &["/d/x.txt.diff"], Some("<pre>x</pre>")),
                difference("y.bin", &[], None),
                missing_baseline("z.txt"),
            ],
            false,
        ),
    ];
    assert_eq!(
        format_html(&suites, "h1{}"),
        "<html><head><style>h1{}</style></head><body>\
         <div class=\"test\"><h1>bad</h1><div class=\"indent\">\
         <div class=\"file\"><h2>x.txt</h2><div class=\"indent\"><pre>x</pre></div></div>\
         <div class=\"file\"><h2>y.bin</h2><div class=\"indent\">No HTML diff for this format</div></div>\
         </div></div>\
         </body></html>"
    );
    assert_eq!(
        format_html(&vec![], ""),
        "<html><head><style></style></head><body></body></html>"
    );
}

#[test]
fn a_passing_suite_is_one_line_unless_verbose() {
    let results = vec![Result::ok("s", "a.txt"), Result::ok("s", "b.txt")];
    assert!(all_ok(&results));
    assert_eq!(report_results("s", &results, false), vec![line("", Mark::Pass, " s")]);
    assert_eq!(
        report_results("s", &results, true),
        vec![
            line("", Mark::Pass, " s"),
            line("  ", Mark::Pass, " a.txt ❯ Ok"),
            line("  ", Mark::Pass, " b.txt ❯ Ok"),
        ]
    );
    assert_eq!(report_results("none", &vec![], false), vec![line("", Mark::Pass, " none")]);
}

#[test]
fn a_failing_suite_lists_every_outcome() {
    let results = vec![
        Result::ok("s", "a.txt"),
        missing_baseline("b.txt"),
        missing_actual("c.txt"),
        difference("d.txt", &[], None),
        difference("e.txt", &["/d/e.diff"], None),
        difference("f.png", &["/d/1.png", "/d/2.png"], None),
        Result::io_error("s", "g.txt", "boom".to_string()),
    ];
    assert!(!all_ok(&results));
    assert_eq!(
        report_results("s", &results, false),
        vec![
            line("", Mark::Fail, " s"),
            line("  ", Mark::Pass, " a.txt ❯ Ok"),
            line("  ", Mark::Fail, " b.txt ❯ Expected Not Found"),
            line("    ", Mark::Plain, "► Actual: /a/b.txt"),
            line("    ", Mark::Hint, " Expected: /e/b.txt"),
            line("  ", Mark::Fail, " c.txt ❯ Actual Not Found"),
            line("    ", Mark::Hint, " Actual: /a/c.txt"),
            line("    ", Mark::Plain, "► Expected: /e/c.txt"),
            line("  ", Mark::Fail, " d.txt ❯ Difference"),
            line("    ", Mark::Plain, "► Actual: /actual/suite/d.txt"),
            line("    ", Mark::Plain, "► Expected: /expected/suite/d.txt"),
            line("  ", Mark::Fail, " e.txt ❯ Difference"),
            line("    ", Mark::Plain, "► Actual: /actual/suite/e.txt"),
            line("    ", Mark::Plain, "► Expected: /expected/suite/e.txt"),
            line("    ", Mark::Plain, "► Diff: /d/e.diff"),
            line("  ", Mark::Fail, " f.png ❯ Difference"),
            line("    ", Mark::Plain, "► Actual: /actual/suite/f.png"),
            line("    ", Mark::Plain, "► Expected: /expected/suite/f.png"),
            line("    ", Mark::Plain, "► Diffs:"),
            line("      ", Mark::Plain, "• /d/1.png"),
            line("      ", Mark::Plain, "• /d/2.png"),
            line("  ", Mark::Fail, " Io Error for file g.txt: boom"),
        ]
    );
}

#[test]
fn promotion_is_reported_file_by_file() {
    let good = vec![(Result::ok("s", "a.txt"), Ok("copied".to_string()))];
    assert_eq!(report_promotion("s", &good, false), (vec![line("", Mark::Pass, " s")], true, 1));
    assert_eq!(
        report_promotion("s", &good, true),
        (
            vec![
                line("", Mark::Pass, " s"),
                line("  ", Mark::Pass, " a.txt ❯ Ok"),
                line("    ", Mark::Plain, "► copied"),
            ],
            true,
            1
        )
    );
    let mixed = vec![
        (Result::ok("s", "a.txt"), Ok("copied".to_string())),
        (missing_baseline("b.txt"), Err("denied".to_string())),
    ];
    assert_eq!(
        report_promotion("s", &mixed, false),
        (
            vec![
                line("", Mark::Fail, " s"),
                line("  ", Mark::Pass, " a.txt ❯ Ok"),
                line("  ", Mark::Fail, " b.txt ❯ Error occurred during "),
                line("    ", Mark::Plain, "► denied"),
            ],
            false,
            1
        )
    );
    assert_eq!(count_promoted(&mixed), 1);
    assert_eq!(count_promoted(&vec![]), 0);
    let none = vec![
        (missing_baseline("a.txt"), Err("denied".to_string())),
        (missing_baseline("b.txt"), Err("denied".to_string())),
    ];
    assert_eq!(report_promotion("s", &none, false).2, 0);
}

#[test]
fn a_test_fails_on_missing_files_and_differences() {
    let (lines, succeeded) = report_failures(&vec![
        Result::ok("s", "a"),
        Result::io_error("s", "b", "boom".to_string()),
    ]);
    assert!(lines.is_empty());
    assert!(succeeded);

    let (lines, succeeded) = report_failures(&vec![
        missing_actual("a"),
        missing_baseline("b"),
        difference("c", &[], None),
        difference("d", &["/d/1"], None),
        difference("e", &["/d/1", "/d/2"], None),
    ]);
    assert!(!succeeded);
    let texts: Vec<&str> = lines.iter().map(|l| l.text.as_str()).collect();
    assert_eq!(
        texts,
        vec![
            "\"Actual\" file not found",
            "  expected          /e/a",
            "  actual (missing)  /a/a",
            "\"Expected\" file not found",
            "  expected (missing)  /e/b",
            "  actual              /a/b",
            "Files differ",
            "  expected  /expected/suite/c",
            "  actual    /actual/suite/c",
            "Files differ",
            "  expected  /expected/suite/d",
            "  actual    /actual/suite/d",
            "  diff      /d/1",
            "Files differ",
            "  expected  /expected/suite/e",
            "  actual    /actual/suite/e",
            "  diffs",
            "    /d/1",
            "    /d/2",
        ]
    );
    assert!(lines.iter().all(|l| l.mark == Mark::Plain && l.indent.is_empty()));
}

#[test]
fn the_summary_counts_suites_and_files() {
    let suites = vec![
        ("a".to_string(), vec![Result::ok("a", "1"), Result::ok("a", "2")], true),
        ("b".to_string(), vec![Result::ok("b", "1"), missing_actual("2"), missing_baseline("3")], false),
        ("c".to_string(), vec![], true),
        ("d".to_string(), vec![difference("1", &[], None)], false),
    ];
    let summary = summarize(&suites);
    assert_eq!(
        summary,
        Summary { total_suites: 4, failed_suites: 2, total_files: 6, failed_files: 3 }
    );
    assert_eq!(
        report_summary(&summary),
        (
            vec![
                line("", Mark::Square { passed: false }, " Expectation Results"),
                line("  ", Mark::Arrow { passed: false }, " Tests: 2 / 4"),
                line("  ", Mark::Arrow { passed: false }, " Files: 3 / 6"),
            ],
            false
        )
    );
    let none = summarize(&vec![]);
    assert_eq!(none, Summary { total_suites: 0, failed_suites: 0, total_files: 0, failed_files: 0 });
    assert_eq!(
        report_summary(&none),
        (
            vec![
                line("", Mark::Square { passed: true }, " Expectation Results"),
                line("  ", Mark::Arrow { passed: true }, " Tests: 0 / 0"),
                line("  ", Mark::Arrow { passed: true }, " Files: 0 / 0"),
            ],
            true
        )
    );
}

#[test]
fn numbers_are_written_in_decimal() {
    let mut text = String::from("n=");
    push_number(&mut text, 0);
    push_number(&mut text, 9);
    push_number(&mut text, 10);
    push_number(&mut text, 1234567890);
    assert_eq!(text, "n=09101234567890");
    let mut text = String::new();
    push_number(&mut text, u128::MAX);
    assert_eq!(text, u128::MAX.to_string());
}
