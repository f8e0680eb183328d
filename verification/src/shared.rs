//! The outcome of comparing one artifact with its baseline, and the messages
//! that carry outcomes from a test process to the process that reports them.

use vstd::prelude::*;
use vstd::string::*;

verus! {

/// The two paths of an artifact: where the test wrote it and where its
/// baseline lives.
#[derive(Debug, PartialEq, Clone)]
pub struct Double {
    pub actual: String,
    pub expected: String,
}

/// Both sides exist and differ: their paths, the sidecar files that explain
/// the difference, and a snippet of HTML for the report where the strategy
/// gave one.
#[derive(Debug, PartialEq, Clone)]
pub struct Difference {
    pub actual: String,
    pub expected: String,
    pub diffs: Vec<String>,
    pub html: Option<String>,
}

/// What became of one artifact.
///
/// `ActualNotFound` says that the side written by the test is missing;
/// `ExpectedNotFound` says that the test wrote the file and no baseline
/// exists.
#[derive(Debug, PartialEq, Clone)]
pub enum ResultKind {
    Matched,
    ExpectedNotFound(Double),
    ActualNotFound(Double),
    Difference(Difference),
    IoError(String),
}

/// The outcome for one artifact of one test.
#[derive(Debug, PartialEq, Clone)]
pub struct Result {
    pub test_name: String,
    pub file_name: String,
    pub kind: ResultKind,
}

/// What a test process tells the process that collects the outcomes.
#[derive(Debug, PartialEq, Clone)]
pub enum Message {
    TestStarted { name: String },
    TestFinished { name: String, result: Vec<Result> },
    TestPanicked { name: String, details: String },
}

/// A sequence of strings as a sequence of their views.
pub open spec fn views(v: Seq<String>) -> Seq<Seq<char>> {
    v.map_values(|s: String| s@)
}

/// An optional string as its optional view.
pub open spec fn option_view(o: Option<String>) -> Option<Seq<char>> {
    match o {
        Some(s) => Some(s@),
        None => None,
    }
}

/// The mathematical value of a [`ResultKind`].
pub enum KindModel {
    Matched,
    ExpectedNotFound { actual: Seq<char>, expected: Seq<char> },
    ActualNotFound { actual: Seq<char>, expected: Seq<char> },
    Difference {
        actual: Seq<char>,
        expected: Seq<char>,
        diffs: Seq<Seq<char>>,
        html: Option<Seq<char>>,
    },
    IoError { detail: Seq<char> },
}

/// The mathematical value of a [`Result`].
pub struct ResultModel {
    pub test_name: Seq<char>,
    pub file_name: Seq<char>,
    pub kind: KindModel,
}

impl View for ResultKind {
    type V = KindModel;

    open spec fn view(&self) -> KindModel {
        match *self {
            ResultKind::Matched => KindModel::Matched,
            ResultKind::ExpectedNotFound(d) => KindModel::ExpectedNotFound {
                actual: d.actual@,
                expected: d.expected@,
            },
            ResultKind::ActualNotFound(d) => KindModel::ActualNotFound {
                actual: d.actual@,
                expected: d.expected@,
            },
            ResultKind::Difference(d) => KindModel::Difference {
                actual: d.actual@,
                expected: d.expected@,
                diffs: views(d.diffs@),
                html: option_view(d.html),
            },
            ResultKind::IoError(detail) => KindModel::IoError { detail: detail@ },
        }
    }
}

impl View for Result {
    type V = ResultModel;

    open spec fn view(&self) -> ResultModel {
        ResultModel { test_name: self.test_name@, file_name: self.file_name@, kind: self.kind@ }
    }
}

/// A list of outcomes as the list of their values.
pub open spec fn result_views(v: Seq<Result>) -> Seq<ResultModel> {
    v.map_values(|r: Result| r@)
}

impl Result {
    /// Tells whether the artifact matched its baseline.
    pub fn is_ok(&self) -> (r: bool)
        ensures
            r == (self@.kind == KindModel::Matched),
    {
        match &self.kind {
            ResultKind::Matched => true,
            _ => false,
        }
    }

    /// The outcome of an artifact that matched its baseline.
    pub fn ok(name: &str, file: &str) -> (r: Self)
        ensures
            r@ == (ResultModel { test_name: name@, file_name: file@, kind: KindModel::Matched }),
    {
        Result {
            test_name: String::from_str(name),
            file_name: String::from_str(file),
            kind: ResultKind::Matched,
        }
    }

    /// The outcome of an artifact that the test wrote and that has no
    /// baseline yet.
    pub fn expected_not_found(name: &str, file: &str, actual: String, expected: String) -> (r:
        Self)
        ensures
            r@ == (ResultModel {
                test_name: name@,
                file_name: file@,
                kind: KindModel::ExpectedNotFound { actual: actual@, expected: expected@ },
            }),
    {
        Result {
            test_name: String::from_str(name),
            file_name: String::from_str(file),
            kind: ResultKind::ExpectedNotFound(Double { actual, expected }),
        }
    }

    /// The outcome of an artifact whose written side is missing.
    pub fn actual_not_found(name: &str, file: &str, actual: String, expected: String) -> (r: Self)
        ensures
            r@ == (ResultModel {
                test_name: name@,
                file_name: file@,
                kind: KindModel::ActualNotFound { actual: actual@, expected: expected@ },
            }),
    {
        Result {
            test_name: String::from_str(name),
            file_name: String::from_str(file),
            kind: ResultKind::ActualNotFound(Double { actual, expected }),
        }
    }

    /// The outcome of an artifact that differs from its baseline.
    pub fn difference(
        name: &str,
        file: &str,
        actual: String,
        expected: String,
        diffs: Vec<String>,
        html: Option<String>,
    ) -> (r: Self)
        ensures
            r@ == (ResultModel {
                test_name: name@,
                file_name: file@,
                kind: KindModel::Difference {
                    actual: actual@,
                    expected: expected@,
                    diffs: views(diffs@),
                    html: option_view(html),
                },
            }),
    {
        Result {
            test_name: String::from_str(name),
            file_name: String::from_str(file),
            kind: ResultKind::Difference(Difference { actual, expected, diffs, html }),
        }
    }

    /// The outcome of an artifact that could not be read or compared.
    pub fn io_error(name: &str, file: &str, detail: String) -> (r: Self)
        ensures
            r@ == (ResultModel {
                test_name: name@,
                file_name: file@,
                kind: KindModel::IoError { detail: detail@ },
            }),
    {
        Result {
            test_name: String::from_str(name),
            file_name: String::from_str(file),
            kind: ResultKind::IoError(detail),
        }
    }
}

} // verus!
