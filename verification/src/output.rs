//! The report for the terminal, as lines: each line has an indentation, a
//! mark that the terminal shows in colour, and a text.

use vstd::prelude::*;
use vstd::string::*;
use crate::shared::{Result, ResultKind, ResultModel, KindModel, result_views, views};

verus! {

/// The mark at the head of a line.
#[derive(Debug, Clone, Copy, PartialEq, Eq)]
pub enum Mark {
    /// No mark.
    Plain,
    /// A check mark, in green.
    Pass,
    /// A cross, in red.
    Fail,
    /// A pointing hand, in yellow: here is what is missing.
    Hint,
    /// A square at the head of the summary, green if the run passed and red
    /// if it failed.
    Square { passed: bool },
    /// An arrow at the head of a count, green if the run passed and red if
    /// it failed.
    Arrow { passed: bool },
}

/// One line of the report.
#[derive(Debug, Clone, PartialEq, Eq)]
pub struct Line {
    pub indent: String,
    pub mark: Mark,
    pub text: String,
}

/// The mathematical value of a [`Line`].
pub struct LineModel {
    pub indent: Seq<char>,
    pub mark: Mark,
    pub text: Seq<char>,
}

impl View for Line {
    type V = LineModel;

    open spec fn view(&self) -> LineModel {
        LineModel { indent: self.indent@, mark: self.mark, text: self.text@ }
    }
}

/// A list of lines as the list of their values.
pub open spec fn line_views(lines: Seq<Line>) -> Seq<LineModel> {
    lines.map_values(|l: Line| l@)
}

/// A line made of an indentation, a mark and the parts of its text.
pub open spec fn line_of(
    indent: Seq<char>,
    mark: Mark,
    a: Seq<char>,
    b: Seq<char>,
    c: Seq<char>,
    d: Seq<char>,
) -> LineModel {
    LineModel { indent, mark, text: a + b + c + d }
}

/// Every outcome is a match.
pub open spec fn all_matched(results: Seq<ResultModel>) -> bool {
    forall|i: int| 0 <= i < results.len() ==> (#[trigger] results[i]).kind == KindModel::Matched
}

/// The mark of a test or a file: passed or failed.
pub open spec fn verdict_mark(passed: bool) -> Mark {
    if passed {
        Mark::Pass
    } else {
        Mark::Fail
    }
}

/// The lines that list the sidecar files of a difference: none for no
/// file, one line for one file, a heading and a line for each of several.
pub open spec fn diff_lines(diffs: Seq<Seq<char>>) -> Seq<LineModel> {
    if diffs.len() == 0 {
        Seq::empty()
    } else if diffs.len() == 1 {
        seq![line_of("    "@, Mark::Plain, "► Diff: "@, diffs[0], ""@, ""@)]
    } else {
        seq![line_of("    "@, Mark::Plain, "► Diffs:"@, ""@, ""@, ""@)] + diffs.map_values(
            |d: Seq<char>| line_of("      "@, Mark::Plain, "• "@, d, ""@, ""@),
        )
    }
}

/// The lines for one outcome.
pub open spec fn result_lines(result: ResultModel) -> Seq<LineModel> {
    let file = result.file_name;
    match result.kind {
        KindModel::Matched => seq![line_of("  "@, Mark::Pass, " "@, file, " ❯ Ok"@, ""@)],
        KindModel::ExpectedNotFound { actual, expected } => seq![
            line_of("  "@, Mark::Fail, " "@, file, " ❯ Expected Not Found"@, ""@),
            line_of("    "@, Mark::Plain, "► Actual: "@, actual, ""@, ""@),
            line_of("    "@, Mark::Hint, " Expected: "@, expected, ""@, ""@),
        ],
        KindModel::ActualNotFound { actual, expected } => seq![
            line_of("  "@, Mark::Fail, " "@, file, " ❯ Actual Not Found"@, ""@),
            line_of("    "@, Mark::Hint, " Actual: "@, actual, ""@, ""@),
            line_of("    "@, Mark::Plain, "► Expected: "@, expected, ""@, ""@),
        ],
        KindModel::Difference { actual, expected, diffs, html } => seq![
            line_of("  "@, Mark::Fail, " "@, file, " ❯ Difference"@, ""@),
            line_of("    "@, Mark::Plain, "► Actual: "@, actual, ""@, ""@),
            line_of("    "@, Mark::Plain, "► Expected: "@, expected, ""@, ""@),
        ] + diff_lines(diffs),
        KindModel::IoError { detail } => seq![
            line_of("  "@, Mark::Fail, " Io Error for file "@, file, ": "@, detail),
        ],
    }
}

/// The lines for the outcomes of one test, in their order.
pub open spec fn all_result_lines(results: Seq<ResultModel>) -> Seq<LineModel>
    decreases results.len(),
{
    if results.len() == 0 {
        Seq::empty()
    } else {
        all_result_lines(results.drop_last()) + result_lines(results.last())
    }
}

/// The report on one test: a line with its name, marked as passed when every
/// outcome is a match; then, unless it passed and the report is brief, the
/// lines for its outcomes.
pub open spec fn results_report(name: Seq<char>, results: Seq<ResultModel>, verbose: bool) -> Seq<
    LineModel,
> {
    let head = seq![line_of(""@, verdict_mark(all_matched(results)), " "@, name, ""@, ""@)];
    if all_matched(results) && !verbose {
        head
    } else {
        head + all_result_lines(results)
    }
}

/// Makes a line of an indentation, a mark and the parts of its text.
fn make_line(indent: &str, mark: Mark, a: &str, b: &str, c: &str, d: &str) -> (r: Line)
    ensures
        r@ == line_of(indent@, mark, a@, b@, c@, d@),
{
    let mut text = String::from_str(a);
    text.append(b);
    text.append(c);
    text.append(d);
    Line { indent: String::from_str(indent), mark, text }
}

/// Tells whether every outcome is a match.
pub fn all_ok(results: &Vec<Result>) -> (r: bool)
    ensures
        r == all_matched(result_views(results@)),
{
    let mut i: usize = 0;
    while i < results.len()
        invariant
            i <= results@.len(),
            forall|k: int|
                0 <= k < i ==> (#[trigger] result_views(results@)[k]).kind == KindModel::Matched,
        decreases results.len() - i,
    {
        if !results[i].is_ok() {
            proof {
                assert(result_views(results@)[i as int].kind != KindModel::Matched);
            }
            return false;
        }
        i = i + 1;
    }
    true
}

/// Appends the lines that list the sidecar files of a difference.
fn push_diff_lines(out: &mut Vec<Line>, diffs: &Vec<String>)
    ensures
        line_views(final(out)@) == line_views(old(out)@) + diff_lines(views(diffs@)),
{
    let ghost before = line_views(out@);
    let ghost paths = views(diffs@);
    if diffs.len() == 0 {
        proof {
            assert(line_views(out@) =~= before + diff_lines(paths));
        }
    } else if diffs.len() == 1 {
        let line = make_line("    ", Mark::Plain, "► Diff: ", diffs[0].as_str(), "", "");
        proof {
            assert(line_views(out@.push(line)) =~= before + diff_lines(paths));
        }
        out.push(line);
    } else {
        let head = make_line("    ", Mark::Plain, "► Diffs:", "", "", "");
        proof {
            assert(line_views(out@.push(head)) =~= before + seq![head@]);
        }
        out.push(head);
        let ghost listed = paths.map_values(
            |d: Seq<char>| line_of("      "@, Mark::Plain, "• "@, d, ""@, ""@),
        );
        let mut i: usize = 0;
        while i < diffs.len()
            invariant
                i <= diffs@.len(),
                paths == views(diffs@),
                listed == paths.map_values(
                    |d: Seq<char>| line_of("      "@, Mark::Plain, "• "@, d, ""@, ""@),
                ),
                line_views(out@) == before + seq![head@] + listed.take(i as int),
            decreases diffs.len() - i,
        {
            let line = make_line("      ", Mark::Plain, "• ", diffs[i].as_str(), "", "");
            proof {
                assert(line@ == listed[i as int]);
                assert(line_views(out@.push(line)) =~= line_views(out@).push(line@));
                assert(listed.take(i + 1) =~= listed.take(i as int).push(listed[i as int]));
                assert(line_views(out@.push(line)) =~= before + seq![head@] + listed.take(i + 1));
            }
            out.push(line);
            i = i + 1;
        }
        proof {
            assert(listed.take(i as int) =~= listed);
            assert(line_views(out@) =~= before + diff_lines(paths));
        }
    }
}

/// Appends the lines for one outcome.
fn push_result_lines(out: &mut Vec<Line>, result: &Result)
    ensures
        line_views(final(out)@) == line_views(old(out)@) + result_lines(result@),
{
    let ghost before = line_views(out@);
    let file = result.file_name.as_str();
    match &result.kind {
        ResultKind::Matched => {
            let a = make_line("  ", Mark::Pass, " ", file, " ❯ Ok", "");
            proof {
                assert(line_views(out@.push(a)) =~= before + result_lines(result@));
            }
            out.push(a);
        },
        ResultKind::ExpectedNotFound(double) => {
            let a = make_line("  ", Mark::Fail, " ", file, " ❯ Expected Not Found", "");
            let b = make_line("    ", Mark::Plain, "► Actual: ", double.actual.as_str(), "", "");
            let c = make_line("    ", Mark::Hint, " Expected: ", double.expected.as_str(), "", "");
            proof {
                assert(line_views(out@.push(a).push(b).push(c)) =~= before + result_lines(
                    result@,
                ));
            }
            out.push(a);
            out.push(b);
            out.push(c);
        },
        ResultKind::ActualNotFound(double) => {
            let a = make_line("  ", Mark::Fail, " ", file, " ❯ Actual Not Found", "");
            let b = make_line("    ", Mark::Hint, " Actual: ", double.actual.as_str(), "", "");
            let c = make_line(
                "    ",
                Mark::Plain,
                "► Expected: ",
                double.expected.as_str(),
                "",
                "",
            );
            proof {
                assert(line_views(out@.push(a).push(b).push(c)) =~= before + result_lines(
                    result@,
                ));
            }
            out.push(a);
            out.push(b);
            out.push(c);
        },
        ResultKind::Difference(difference) => {
            let a = make_line("  ", Mark::Fail, " ", file, " ❯ Difference", "");
            let b = make_line(
                "    ",
                Mark::Plain,
                "► Actual: ",
                difference.actual.as_str(),
                "",
                "",
            );
            let c = make_line(
                "    ",
                Mark::Plain,
                "► Expected: ",
                difference.expected.as_str(),
                "",
                "",
            );
            proof {
                assert(line_views(out@.push(a).push(b).push(c)) =~= before + seq![a@, b@, c@]);
            }
            out.push(a);
            out.push(b);
            out.push(c);
            push_diff_lines(out, &difference.diffs);
            proof {
                assert(line_views(out@) =~= before + result_lines(result@));
            }
        },
        ResultKind::IoError(detail) => {
            let a = make_line("  ", Mark::Fail, " Io Error for file ", file, ": ", detail.as_str());
            proof {
                assert(line_views(out@.push(a)) =~= before + result_lines(result@));
            }
            out.push(a);
        },
    }
}

/// Writes the report on the test `name` with the given outcomes.
pub fn report_results(name: &str, results: &Vec<Result>, verbose: bool) -> (r: Vec<Line>)
    ensures
        line_views(r@) == results_report(name@, result_views(results@), verbose),
{
    let ghost models = result_views(results@);
    let passed = all_ok(results);
    let mark = if passed {
        Mark::Pass
    } else {
        Mark::Fail
    };
    let head = make_line("", mark, " ", name, "", "");
    let mut out: Vec<Line> = Vec::new();
    out.push(head);
    proof {
        assert(line_views(out@) =~= seq![head@]);
    }
    if passed && !verbose {
        return out;
    }
    let mut i: usize = 0;
    proof {
        assert(models.take(0) =~= Seq::<ResultModel>::empty());
        assert(line_views(out@) =~= seq![head@] + all_result_lines(models.take(0)));
    }
    while i < results.len()
        invariant
            i <= results@.len(),
            models == result_views(results@),
            line_views(out@) == seq![head@] + all_result_lines(models.take(i as int)),
        decreases results.len() - i,
    {
        proof {
            assert(models.take(i + 1).drop_last() =~= models.take(i as int));
            assert(models.take(i + 1).last() == results@[i as int]@);
        }
        push_result_lines(&mut out, &results[i]);
        proof {
            assert(line_views(out@) =~= seq![head@] + all_result_lines(models.take(i + 1)));
        }
        i = i + 1;
    }
    proof {
        assert(models.take(i as int) =~= models);
    }
    out
}

/// What promoting one file gave: a note on what was done, or the detail of
/// a failure.
pub open spec fn promoted(outcome: core::result::Result<String, String>) -> bool {
    outcome.is_ok()
}

/// Every file was promoted.
pub open spec fn all_promoted(
    results: Seq<(Result, core::result::Result<String, String>)>,
) -> bool {
    forall|i: int| 0 <= i < results.len() ==> promoted((#[trigger] results[i]).1)
}

/// The lines for one promoted file: a line with its name, and the note if
/// the report is verbose; for a failure a line with its name and the
/// detail.
pub open spec fn promotion_lines(
    file: Seq<char>,
    outcome: core::result::Result<String, String>,
    verbose: bool,
) -> Seq<LineModel> {
    match outcome {
        Ok(note) => if verbose {
            seq![
                line_of("  "@, Mark::Pass, " "@, file, " ❯ Ok"@, ""@),
                line_of("    "@, Mark::Plain, "► "@, note@, ""@, ""@),
            ]
        } else {
            seq![line_of("  "@, Mark::Pass, " "@, file, " ❯ Ok"@, ""@)]
        },
        Err(detail) => seq![
            line_of("  "@, Mark::Fail, " "@, file, " ❯ Error occurred during "@, ""@),
            line_of("    "@, Mark::Plain, "► "@, detail@, ""@, ""@),
        ],
    }
}

/// The lines for the promoted files of one test, in their order.
pub open spec fn all_promotion_lines(
    results: Seq<(Result, core::result::Result<String, String>)>,
    verbose: bool,
) -> Seq<LineModel>
    decreases results.len(),
{
    if results.len() == 0 {
        Seq::empty()
    } else {
        all_promotion_lines(results.drop_last(), verbose) + promotion_lines(
            results.last().0.file_name@,
            results.last().1,
            verbose,
        )
    }
}

/// The report on the promotion of one test: a line with its name, marked as
/// passed when every file was promoted; then, unless it passed and the
/// report is brief, the lines for its files.
pub open spec fn promotion_report(
    name: Seq<char>,
    results: Seq<(Result, core::result::Result<String, String>)>,
    verbose: bool,
) -> Seq<LineModel> {
    let head = seq![line_of(""@, verdict_mark(all_promoted(results)), " "@, name, ""@, ""@)];
    if all_promoted(results) && !verbose {
        head
    } else {
        head + all_promotion_lines(results, verbose)
    }
}

/// How many files were promoted.
pub open spec fn promoted_among(
    results: Seq<(Result, core::result::Result<String, String>)>,
) -> nat
    decreases results.len(),
{
    if results.len() == 0 {
        0
    } else {
        promoted_among(results.drop_last()) + if promoted(results.last().1) {
            1nat
        } else {
            0nat
        }
    }
}

/// Counts the files that were promoted.
pub fn count_promoted(results: &Vec<(Result, core::result::Result<String, String>)>) -> (r: usize)
    ensures
        r == promoted_among(results@),
        r <= results@.len(),
{
    let mut count: usize = 0;
    let mut i: usize = 0;
    proof {
        assert(results@.take(0) =~= Seq::<(Result, core::result::Result<String, String>)>::empty());
    }
    while i < results.len()
        invariant
            i <= results@.len(),
            count <= i,
            count == promoted_among(results@.take(i as int)),
        decreases results.len() - i,
    {
        proof {
            assert(results@.take(i + 1).drop_last() =~= results@.take(i as int));
            assert(results@.take(i + 1).last() == results@[i as int]);
        }
        if results[i].1.is_ok() {
            count = count + 1;
        }
        i = i + 1;
    }
    proof {
        assert(results@.take(i as int) =~= results@);
    }
    count
}

/// Tells whether every file was promoted.
fn promotion_passed(results: &Vec<(Result, core::result::Result<String, String>)>) -> (r: bool)
    ensures
        r == all_promoted(results@),
{
    let mut i: usize = 0;
    while i < results.len()
        invariant
            i <= results@.len(),
            forall|k: int| 0 <= k < i ==> promoted((#[trigger] results@[k]).1),
        decreases results.len() - i,
    {
        if results[i].1.is_err() {
            return false;
        }
        i = i + 1;
    }
    true
}

/// Writes the report on the promotion of the test `name`, and tells whether
/// every file was promoted and how many were.
pub fn report_promotion(
    name: &str,
    results: &Vec<(Result, core::result::Result<String, String>)>,
    verbose: bool,
) -> (r: (Vec<Line>, bool, usize))
    ensures
        line_views(r.0@) == promotion_report(name@, results@, verbose),
        r.1 == all_promoted(results@),
        r.2 == promoted_among(results@),
{
    let passed = promotion_passed(results);
    let count = count_promoted(results);
    let mark = if passed {
        Mark::Pass
    } else {
        Mark::Fail
    };
    let head = make_line("", mark, " ", name, "", "");
    let mut out: Vec<Line> = Vec::new();
    out.push(head);
    proof {
        assert(line_views(out@) =~= seq![head@]);
    }
    if passed && !verbose {
        return (out, passed, count);
    }
    let mut i: usize = 0;
    proof {
        assert(results@.take(0) =~= Seq::<(Result, core::result::Result<String, String>)>::empty());
        assert(line_views(out@) =~= seq![head@] + all_promotion_lines(results@.take(0), verbose));
    }
    while i < results.len()
        invariant
            i <= results@.len(),
            line_views(out@) == seq![head@] + all_promotion_lines(results@.take(i as int), verbose),
        decreases results.len() - i,
    {
        let ghost before = line_views(out@);
        proof {
            assert(results@.take(i + 1).drop_last() =~= results@.take(i as int));
            assert(results@.take(i + 1).last() == results@[i as int]);
        }
        let file = results[i].0.file_name.as_str();
        match &results[i].1 {
            Ok(note) => {
                let a = make_line("  ", Mark::Pass, " ", file, " ❯ Ok", "");
                proof {
                    assert(line_views(out@.push(a)) =~= before + seq![a@]);
                }
                out.push(a);
                if verbose {
                    let b = make_line("    ", Mark::Plain, "► ", note.as_str(), "", "");
                    proof {
                        assert(line_views(out@.push(b)) =~= before + seq![a@, b@]);
                    }
                    out.push(b);
                }
            },
            Err(detail) => {
                let a = make_line("  ", Mark::Fail, " ", file, " ❯ Error occurred during ", "");
                let b = make_line("    ", Mark::Plain, "► ", detail.as_str(), "", "");
                proof {
                    assert(line_views(out@.push(a).push(b)) =~= before + seq![a@, b@]);
                }
                out.push(a);
                out.push(b);
            },
        }
        proof {
            assert(line_views(out@) =~= seq![head@] + all_promotion_lines(
                results@.take(i + 1),
                verbose,
            ));
        }
        i = i + 1;
    }
    proof {
        assert(results@.take(i as int) =~= results@);
    }
    (out, passed, count)
}

/// Whether an outcome lets the test succeed: a match does, and so does a
/// failure to read or compare.
pub open spec fn tolerated(kind: KindModel) -> bool {
    kind is Matched || kind is IoError
}

/// Every outcome lets the test succeed.
pub open spec fn all_tolerated(results: Seq<ResultModel>) -> bool {
    forall|i: int| 0 <= i < results.len() ==> tolerated((#[trigger] results[i]).kind)
}

/// The lines that list the sidecar files of a difference for the test
/// itself.
pub open spec fn plain_diff_lines(diffs: Seq<Seq<char>>) -> Seq<LineModel> {
    if diffs.len() == 0 {
        Seq::empty()
    } else if diffs.len() == 1 {
        seq![line_of(""@, Mark::Plain, "  diff      "@, diffs[0], ""@, ""@)]
    } else {
        seq![line_of(""@, Mark::Plain, "  diffs"@, ""@, ""@, ""@)] + diffs.map_values(
            |d: Seq<char>| line_of(""@, Mark::Plain, "    "@, d, ""@, ""@),
        )
    }
}

/// What the test itself prints for one outcome.
pub open spec fn failure_lines(result: ResultModel) -> Seq<LineModel> {
    match result.kind {
        KindModel::ActualNotFound { actual, expected } => seq![
            line_of(""@, Mark::Plain, "\"Actual\" file not found"@, ""@, ""@, ""@),
            line_of(""@, Mark::Plain, "  expected          "@, expected, ""@, ""@),
            line_of(""@, Mark::Plain, "  actual (missing)  "@, actual, ""@, ""@),
        ],
        KindModel::ExpectedNotFound { actual, expected } => seq![
            line_of(""@, Mark::Plain, "\"Expected\" file not found"@, ""@, ""@, ""@),
            line_of(""@, Mark::Plain, "  expected (missing)  "@, expected, ""@, ""@),
            line_of(""@, Mark::Plain, "  actual              "@, actual, ""@, ""@),
        ],
        KindModel::Difference { actual, expected, diffs, html } => seq![
            line_of(""@, Mark::Plain, "Files differ"@, ""@, ""@, ""@),
            line_of(""@, Mark::Plain, "  expected  "@, expected, ""@, ""@),
            line_of(""@, Mark::Plain, "  actual    "@, actual, ""@, ""@),
        ] + plain_diff_lines(diffs),
        _ => Seq::empty(),
    }
}

/// What the test itself prints for its outcomes, in their order.
pub open spec fn failure_report(results: Seq<ResultModel>) -> Seq<LineModel>
    decreases results.len(),
{
    if results.len() == 0 {
        Seq::empty()
    } else {
        failure_report(results.drop_last()) + failure_lines(results.last())
    }
}

/// Appends the lines that list the sidecar files of a difference for the
/// test itself.
fn push_plain_diff_lines(out: &mut Vec<Line>, diffs: &Vec<String>)
    ensures
        line_views(final(out)@) == line_views(old(out)@) + plain_diff_lines(views(diffs@)),
{
    let ghost before = line_views(out@);
    let ghost paths = views(diffs@);
    if diffs.len() == 0 {
        proof {
            assert(line_views(out@) =~= before + plain_diff_lines(paths));
        }
    } else if diffs.len() == 1 {
        let line = make_line("", Mark::Plain, "  diff      ", diffs[0].as_str(), "", "");
        proof {
            assert(line_views(out@.push(line)) =~= before + plain_diff_lines(paths));
        }
        out.push(line);
    } else {
        let head = make_line("", Mark::Plain, "  diffs", "", "", "");
        proof {
            assert(line_views(out@.push(head)) =~= before + seq![head@]);
        }
        out.push(head);
        let ghost listed = paths.map_values(
            |d: Seq<char>| line_of(""@, Mark::Plain, "    "@, d, ""@, ""@),
        );
        let mut i: usize = 0;
        while i < diffs.len()
            invariant
                i <= diffs@.len(),
                paths == views(diffs@),
                listed == paths.map_values(
                    |d: Seq<char>| line_of(""@, Mark::Plain, "    "@, d, ""@, ""@),
                ),
                line_views(out@) == before + seq![head@] + listed.take(i as int),
            decreases diffs.len() - i,
        {
            let line = make_line("", Mark::Plain, "    ", diffs[i].as_str(), "", "");
            proof {
                assert(line@ == listed[i as int]);
                assert(line_views(out@.push(line)) =~= line_views(out@).push(line@));
                assert(listed.take(i + 1) =~= listed.take(i as int).push(listed[i as int]));
                assert(line_views(out@.push(line)) =~= before + seq![head@] + listed.take(i + 1));
            }
            out.push(line);
            i = i + 1;
        }
        proof {
            assert(listed.take(i as int) =~= listed);
            assert(line_views(out@) =~= before + plain_diff_lines(paths));
        }
    }
}

/// Writes what the test itself prints for its outcomes, and tells whether
/// the test succeeded: it fails on a missing file and on a difference.
pub fn report_failures(results: &Vec<Result>) -> (r: (Vec<Line>, bool))
    ensures
        line_views(r.0@) == failure_report(result_views(results@)),
        r.1 == all_tolerated(result_views(results@)),
{
    let ghost models = result_views(results@);
    let mut out: Vec<Line> = Vec::new();
    let mut succeeded = true;
    let mut i: usize = 0;
    proof {
        assert(models.take(0) =~= Seq::<ResultModel>::empty());
        assert(line_views(out@) =~= failure_report(models.take(0)));
    }
    while i < results.len()
        invariant
            i <= results@.len(),
            models == result_views(results@),
            line_views(out@) == failure_report(models.take(i as int)),
            succeeded == all_tolerated(models.take(i as int)),
        decreases results.len() - i,
    {
        let ghost before = line_views(out@);
        let ghost seen = models.take(i as int);
        let ghost next = models.take(i + 1);
        proof {
            assert(next.drop_last() =~= seen);
            assert(next.last() == results@[i as int]@);
            assert(all_tolerated(next) == (all_tolerated(seen) && tolerated(
                results@[i as int]@.kind,
            ))) by {
                if all_tolerated(next) {
                    assert forall|k: int| 0 <= k < seen.len() implies tolerated(
                        (#[trigger] seen[k]).kind,
                    ) by {
                        assert(seen[k] == next[k]);
                    }
                    assert(next[i as int] == results@[i as int]@);
                }
                if all_tolerated(seen) && tolerated(results@[i as int]@.kind) {
                    assert forall|k: int| 0 <= k < next.len() implies tolerated(
                        (#[trigger] next[k]).kind,
                    ) by {
                        if k < i {
                            assert(next[k] == seen[k]);
                        }
                    }
                }
            }
        }
        match &results[i].kind {
            ResultKind::ActualNotFound(double) => {
                let a = make_line("", Mark::Plain, "\"Actual\" file not found", "", "", "");
                let b = make_line(
                    "",
                    Mark::Plain,
                    "  expected          ",
                    double.expected.as_str(),
                    "",
                    "",
                );
                let c = make_line(
                    "",
                    Mark::Plain,
                    "  actual (missing)  ",
                    double.actual.as_str(),
                    "",
                    "",
                );
                proof {
                    assert(line_views(out@.push(a).push(b).push(c)) =~= before + seq![a@, b@, c@]);
                }
                out.push(a);
                out.push(b);
                out.push(c);
                succeeded = false;
            },
            ResultKind::ExpectedNotFound(double) => {
                let a = make_line("", Mark::Plain, "\"Expected\" file not found", "", "", "");
                let b = make_line(
                    "",
                    Mark::Plain,
                    "  expected (missing)  ",
                    double.expected.as_str(),
                    "",
                    "",
                );
                let c = make_line(
                    "",
                    Mark::Plain,
                    "  actual              ",
                    double.actual.as_str(),
                    "",
                    "",
                );
                proof {
                    assert(line_views(out@.push(a).push(b).push(c)) =~= before + seq![a@, b@, c@]);
                }
                out.push(a);
                out.push(b);
                out.push(c);
                succeeded = false;
            },
            ResultKind::Difference(difference) => {
                let a = make_line("", Mark::Plain, "Files differ", "", "", "");
                let b = make_line(
                    "",
                    Mark::Plain,
                    "  expected  ",
                    difference.expected.as_str(),
                    "",
                    "",
                );
                let c = make_line(
                    "",
                    Mark::Plain,
                    "  actual    ",
                    difference.actual.as_str(),
                    "",
                    "",
                );
                proof {
                    assert(line_views(out@.push(a).push(b).push(c)) =~= before + seq![a@, b@, c@]);
                }
                out.push(a);
                out.push(b);
                out.push(c);
                push_plain_diff_lines(&mut out, &difference.diffs);
                succeeded = false;
            },
            _ => {},
        }
        proof {
            assert(line_views(out@) =~= before + failure_lines(results@[i as int]@));
        }
        i = i + 1;
    }
    proof {
        assert(models.take(i as int) =~= models);
    }
    (out, succeeded)
}

} // verus!
