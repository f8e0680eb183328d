//! The report as an HTML document: one section for each test that failed,
//! with one part for each of its files that differ.

use vstd::prelude::*;
use vstd::string::*;
use crate::shared::{Result, ResultKind, ResultModel, KindModel, result_views};

verus! {

/// The part of the document for one outcome: a difference is shown with the
/// snippet of its comparison, or with a notice where there is none; every
/// other outcome is left out.
pub open spec fn file_html(result: ResultModel) -> Seq<char> {
    match result.kind {
        KindModel::Difference { html: Some(snippet), .. } => "<div class=\"file\"><h2>"@
            + result.file_name + "</h2><div class=\"indent\">"@ + snippet + "</div></div>"@,
        KindModel::Difference { html: None, .. } => "<div class=\"file\"><h2>"@
            + result.file_name + "</h2><div class=\"indent\">"@ + "No HTML diff for this format"@
            + "</div></div>"@,
        _ => Seq::empty(),
    }
}

/// The parts for the outcomes of one test, in their order.
pub open spec fn files_html(results: Seq<ResultModel>) -> Seq<char>
    decreases results.len(),
{
    if results.len() == 0 {
        Seq::empty()
    } else {
        files_html(results.drop_last()) + file_html(results.last())
    }
}

/// The section for one test: nothing for a test that passed.
pub open spec fn suite_html(name: Seq<char>, results: Seq<ResultModel>, passed: bool) -> Seq<char> {
    if passed {
        Seq::empty()
    } else {
        "<div class=\"test\"><h1>"@ + name + "</h1><div class=\"indent\">"@ + files_html(results)
            + "</div></div>"@
    }
}

/// The sections for all tests, in their order.
pub open spec fn suites_html(suites: Seq<(String, Vec<Result>, bool)>) -> Seq<char>
    decreases suites.len(),
{
    if suites.len() == 0 {
        Seq::empty()
    } else {
        suites_html(suites.drop_last()) + suite_html(
            suites.last().0@,
            result_views(suites.last().1@),
            suites.last().2,
        )
    }
}

/// The whole document, with the given style sheet in its head.
pub open spec fn document(style: Seq<char>, suites: Seq<(String, Vec<Result>, bool)>) -> Seq<
    char,
> {
    "<html><head><style>"@ + style + "</style></head><body>"@ + suites_html(suites)
        + "</body></html>"@
}

/// Appends the part for one outcome to the document.
fn push_file(out: &mut String, result: &Result)
    ensures
        final(out)@ == old(out)@ + file_html(result@),
{
    match &result.kind {
        ResultKind::Difference(difference) => {
            out.append("<div class=\"file\"><h2>");
            out.append(result.file_name.as_str());
            out.append("</h2><div class=\"indent\">");
            match &difference.html {
                Some(snippet) => {
                    out.append(snippet.as_str());
                },
                None => {
                    out.append("No HTML diff for this format");
                },
            }
            out.append("</div></div>");
            proof {
                assert(out@ =~= old(out)@ + file_html(result@));
            }
        },
        _ => {
            proof {
                assert(out@ =~= old(out)@ + file_html(result@));
            }
        },
    }
}

/// Appends the section for one test to the document.
fn push_suite(out: &mut String, name: &str, results: &Vec<Result>, passed: bool)
    ensures
        final(out)@ == old(out)@ + suite_html(name@, result_views(results@), passed),
{
    if passed {
        proof {
            assert(out@ =~= old(out)@ + suite_html(name@, result_views(results@), passed));
        }
        return ;
    }
    let ghost models = result_views(results@);
    out.append("<div class=\"test\"><h1>");
    out.append(name);
    out.append("</h1><div class=\"indent\">");
    let ghost head = out@;
    let mut i: usize = 0;
    proof {
        assert(models.take(0) =~= Seq::<ResultModel>::empty());
        assert(out@ =~= head + files_html(models.take(0)));
    }
    while i < results.len()
        invariant
            i <= results@.len(),
            models == result_views(results@),
            out@ == head + files_html(models.take(i as int)),
        decreases results.len() - i,
    {
        proof {
            assert(models.take(i + 1).drop_last() =~= models.take(i as int));
            assert(models.take(i + 1).last() == results@[i as int]@);
        }
        push_file(out, &results[i]);
        proof {
            assert(out@ =~= head + files_html(models.take(i + 1)));
        }
        i = i + 1;
    }
    proof {
        assert(models.take(i as int) =~= models);
    }
    out.append("</div></div>");
    proof {
        assert(out@ =~= old(out)@ + suite_html(name@, models, passed));
    }
}

/// Writes the report on the given tests, each with its name, its outcomes
/// and whether it passed, as an HTML document with the given style sheet.
/// Tests that passed are left out of the document.
pub fn format_html(results_with_html: &Vec<(String, Vec<Result>, bool)>, style: &str) -> (r:
    String)
    ensures
        r@ == document(style@, results_with_html@),
{
    let ghost suites = results_with_html@;
    let mut out = String::from_str("<html><head><style>");
    out.append(style);
    out.append("</style></head><body>");
    let ghost head = out@;
    let mut i: usize = 0;
    proof {
        assert(suites.take(0) =~= Seq::<(String, Vec<Result>, bool)>::empty());
        assert(out@ =~= head + suites_html(suites.take(0)));
    }
    while i < results_with_html.len()
        invariant
            i <= results_with_html@.len(),
            suites == results_with_html@,
            out@ == head + suites_html(suites.take(i as int)),
        decreases results_with_html.len() - i,
    {
        proof {
            assert(suites.take(i + 1).drop_last() =~= suites.take(i as int));
            assert(suites.take(i + 1).last() == suites[i as int]);
        }
        let suite = &results_with_html[i];
        push_suite(&mut out, suite.0.as_str(), &suite.1, suite.2);
        proof {
            assert(out@ =~= head + suites_html(suites.take(i + 1)));
        }
        i = i + 1;
    }
    proof {
        assert(suites.take(i as int) =~= suites);
    }
    out.append("</body></html>");
    proof {
        assert(out@ =~= document(style@, suites));
    }
    out
}

} // verus!
