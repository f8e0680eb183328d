//! The counts at the end of a run: how many tests and files there were and
//! how many of them failed.

use vstd::prelude::*;
use vstd::string::*;
use crate::shared::{Result, ResultModel, KindModel, result_views};
use crate::output::{Line, LineModel, Mark, line_views, all_matched};

verus! {

/// The counts of a run.
#[derive(Debug, Clone, Copy, PartialEq, Eq)]
pub struct Summary {
    pub total_suites: u128,
    pub failed_suites: u128,
    pub total_files: u128,
    pub failed_files: u128,
}

/// How many of the outcomes are no match.
pub open spec fn failed_among(results: Seq<ResultModel>) -> nat
    decreases results.len(),
{
    if results.len() == 0 {
        0
    } else {
        failed_among(results.drop_last()) + if results.last().kind == KindModel::Matched {
            0nat
        } else {
            1nat
        }
    }
}

/// How many tests have an outcome that is no match.
pub open spec fn failed_suites(suites: Seq<(String, Vec<Result>, bool)>) -> nat
    decreases suites.len(),
{
    if suites.len() == 0 {
        0
    } else {
        failed_suites(suites.drop_last()) + if all_matched(result_views(suites.last().1@)) {
            0nat
        } else {
            1nat
        }
    }
}

/// How many outcomes the tests have together.
pub open spec fn total_files(suites: Seq<(String, Vec<Result>, bool)>) -> nat
    decreases suites.len(),
{
    if suites.len() == 0 {
        0
    } else {
        total_files(suites.drop_last()) + suites.last().1@.len()
    }
}

/// How many outcomes of the tests together are no match.
pub open spec fn failed_files(suites: Seq<(String, Vec<Result>, bool)>) -> nat
    decreases suites.len(),
{
    if suites.len() == 0 {
        0
    } else {
        failed_files(suites.drop_last()) + failed_among(result_views(suites.last().1@))
    }
}

/// A test fails exactly when one of its outcomes is no match.
pub proof fn lemma_failed_among(results: Seq<ResultModel>)
    ensures
        failed_among(results) <= results.len(),
        (failed_among(results) == 0) == all_matched(results),
    decreases results.len(),
{
    if results.len() > 0 {
        lemma_failed_among(results.drop_last());
        let head = results.drop_last();
        if all_matched(results) {
            assert forall|i: int| 0 <= i < head.len() implies (#[trigger] head[i]).kind
                == KindModel::Matched by {
                assert(head[i] == results[i]);
            }
            assert(results[results.len() - 1].kind == KindModel::Matched);
        }
        if failed_among(results) == 0 {
            assert forall|i: int| 0 <= i < results.len() implies (#[trigger] results[i]).kind
                == KindModel::Matched by {
                if i < head.len() {
                    assert(head[i] == results[i]);
                }
            }
        }
    }
}

/// Counts the outcomes that are no match.
fn count_failed(results: &Vec<Result>) -> (r: usize)
    ensures
        r == failed_among(result_views(results@)),
{
    let ghost models = result_views(results@);
    let mut failed: usize = 0;
    let mut i: usize = 0;
    proof {
        assert(models.take(0) =~= Seq::<ResultModel>::empty());
    }
    while i < results.len()
        invariant
            i <= results@.len(),
            models == result_views(results@),
            failed == failed_among(models.take(i as int)),
            failed <= i,
        decreases results.len() - i,
    {
        proof {
            assert(models.take(i + 1).drop_last() =~= models.take(i as int));
            assert(models.take(i + 1).last() == results@[i as int]@);
        }
        if !results[i].is_ok() {
            failed = failed + 1;
        }
        i = i + 1;
    }
    proof {
        assert(models.take(i as int) =~= models);
    }
    failed
}

/// Counts the tests and files of a run and those among them that failed. A
/// test has failed when one of its outcomes is no match.
pub fn summarize(suites: &Vec<(String, Vec<Result>, bool)>) -> (r: Summary)
    ensures
        r.total_suites == suites@.len(),
        r.failed_suites == failed_suites(suites@),
        r.total_files == total_files(suites@),
        r.failed_files == failed_files(suites@),
        r.failed_suites <= r.total_suites,
        r.failed_files <= r.total_files,
{
    let mut summary = Summary {
        total_suites: 0,
        failed_suites: 0,
        total_files: 0,
        failed_files: 0,
    };
    let mut i: usize = 0;
    proof {
        assert(suites@.take(0) =~= Seq::<(String, Vec<Result>, bool)>::empty());
    }
    while i < suites.len()
        invariant
            i <= suites@.len(),
            summary.total_suites == i,
            summary.failed_suites == failed_suites(suites@.take(i as int)),
            summary.total_files == total_files(suites@.take(i as int)),
            summary.failed_files == failed_files(suites@.take(i as int)),
            summary.failed_suites <= i,
            summary.failed_files <= summary.total_files,
            summary.total_files <= i * usize::MAX,
        decreases suites.len() - i,
    {
        proof {
            assert(suites@.take(i + 1).drop_last() =~= suites@.take(i as int));
            assert(suites@.take(i + 1).last() == suites@[i as int]);
            lemma_failed_among(result_views(suites@[i as int].1@));
            assert(i * usize::MAX + usize::MAX == (i + 1) * usize::MAX) by (nonlinear_arith);
            assert((i + 1) * usize::MAX <= usize::MAX * usize::MAX) by (nonlinear_arith)
                requires
                    0 <= i + 1 <= usize::MAX,
            ;
            assert(usize::MAX * usize::MAX < 0x1_0000_0000_0000_0000_0000_0000_0000_0000)
                by (nonlinear_arith)
                requires
                    usize::MAX <= 0xffff_ffff_ffff_ffff,
            ;
        }
        let results = &suites[i].1;
        let failed = count_failed(results);
        summary.total_suites = summary.total_suites + 1;
        if failed > 0 {
            summary.failed_suites = summary.failed_suites + 1;
        }
        summary.total_files = summary.total_files + results.len() as u128;
        summary.failed_files = summary.failed_files + failed as u128;
        i = i + 1;
    }
    proof {
        assert(suites@.take(i as int) =~= suites@);
    }
    summary
}

/// The text of a digit.
pub open spec fn digit_text(d: nat) -> Seq<char> {
    if d == 0 {
        "0"@
    } else if d == 1 {
        "1"@
    } else if d == 2 {
        "2"@
    } else if d == 3 {
        "3"@
    } else if d == 4 {
        "4"@
    } else if d == 5 {
        "5"@
    } else if d == 6 {
        "6"@
    } else if d == 7 {
        "7"@
    } else if d == 8 {
        "8"@
    } else {
        "9"@
    }
}

/// A number in decimal.
pub open spec fn decimal_text(n: nat) -> Seq<char>
    decreases n,
{
    if n < 10 {
        digit_text(n)
    } else {
        decimal_text(n / 10) + digit_text(n % 10)
    }
}

/// Appends a number in decimal to a text.
pub fn push_number(out: &mut String, n: u128)
    ensures
        final(out)@ == old(out)@ + decimal_text(n as nat),
    decreases n,
{
    if n >= 10 {
        push_number(out, n / 10);
    }
    let d: u128 = n % 10;
    let digit = if d == 0 {
        "0"
    } else if d == 1 {
        "1"
    } else if d == 2 {
        "2"
    } else if d == 3 {
        "3"
    } else if d == 4 {
        "4"
    } else if d == 5 {
        "5"
    } else if d == 6 {
        "6"
    } else if d == 7 {
        "7"
    } else if d == 8 {
        "8"
    } else {
        "9"
    };
    let ghost before = out@;
    out.append(digit);
    proof {
        if n >= 10 {
            assert(out@ =~= old(out)@ + (decimal_text((n / 10) as nat) + digit_text(
                (n % 10) as nat,
            )));
        }
    }
}

/// The line of a count: how many passed of how many there were.
pub open spec fn count_line(label: Seq<char>, failed: nat, total: nat, passed: bool) -> LineModel {
    LineModel {
        indent: "  "@,
        mark: Mark::Arrow { passed },
        text: label + decimal_text((total - failed) as nat) + " / "@ + decimal_text(total),
    }
}

/// The summary of a run: a heading and the counts of tests and of files,
/// marked as passed when no test failed.
pub open spec fn summary_report(summary: Summary) -> Seq<LineModel> {
    let passed = summary.failed_suites == 0;
    seq![
        LineModel { indent: ""@, mark: Mark::Square { passed }, text: " Expectation Results"@ },
        count_line(
            " Tests: "@,
            summary.failed_suites as nat,
            summary.total_suites as nat,
            passed,
        ),
        count_line(
            " Files: "@,
            summary.failed_files as nat,
            summary.total_files as nat,
            passed,
        ),
    ]
}

/// Writes the line of a count.
fn make_count_line(label: &str, failed: u128, total: u128, passed: bool) -> (r: Line)
    requires
        failed <= total,
    ensures
        r@ == count_line(label@, failed as nat, total as nat, passed),
{
    let mut text = String::from_str(label);
    push_number(&mut text, total - failed);
    text.append(" / ");
    push_number(&mut text, total);
    Line { indent: String::from_str("  "), mark: Mark::Arrow { passed }, text }
}

/// Writes the summary of a run, and tells whether the run passed: it did
/// when no test failed.
pub fn report_summary(summary: &Summary) -> (r: (Vec<Line>, bool))
    requires
        summary.failed_suites <= summary.total_suites,
        summary.failed_files <= summary.total_files,
    ensures
        line_views(r.0@) == summary_report(*summary),
        r.1 == (summary.failed_suites == 0),
{
    let passed = summary.failed_suites == 0;
    let head = Line {
        indent: String::from_str(""),
        mark: Mark::Square { passed },
        text: String::from_str(" Expectation Results"),
    };
    let tests = make_count_line(" Tests: ", summary.failed_suites, summary.total_suites, passed);
    let files = make_count_line(" Files: ", summary.failed_files, summary.total_files, passed);
    let mut out: Vec<Line> = Vec::new();
    proof {
        assert(line_views(out@.push(head).push(tests).push(files)) =~= summary_report(*summary));
    }
    out.push(head);
    out.push(tests);
    out.push(files);
    (out, passed)
}

} // verus!
