//! A comparison decides whether an artifact matches its baseline and, where
//! it does not, explains the difference through a collector.

use vstd::prelude::*;
use crate::path::is_relative;
use crate::provider::{RequesterModel, WriteRequester};

verus! {

/// The mathematical value of what deciding equality gives: the answer, or
/// the detail of a failure.
pub enum Verdict {
    Equal,
    Unequal,
    Failed(Seq<char>),
}

/// The value of an answer.
pub open spec fn verdict_of(r: core::result::Result<bool, String>) -> Verdict {
    match r {
        Ok(true) => Verdict::Equal,
        Ok(false) => Verdict::Unequal,
        Err(detail) => Verdict::Failed(detail@),
    }
}

/// What explaining a difference leaves behind: the collector, and the detail
/// of a failure if there was one.
pub struct Explained {
    pub requester: RequesterModel,
    pub failure: Option<Seq<char>>,
}

/// The failure of an explanation, if any.
pub open spec fn failure_of(r: core::result::Result<(), String>) -> Option<Seq<char>> {
    match r {
        Ok(_) => None,
        Err(detail) => Some(detail@),
    }
}

/// A way to compare an artifact with its baseline.
///
/// Both operations are functions of their arguments: the same contents give
/// the same answer and the same sidecar files.
pub trait Comparison {
    /// Whether `actual` matches `expected`, or why that cannot be told.
    spec fn verdict(&self, actual: Seq<u8>, expected: Seq<u8>) -> Verdict;

    /// What explaining the difference between `actual` and `expected` for
    /// the artifact `name` does to a collector.
    spec fn explained(
        &self,
        actual: Seq<u8>,
        expected: Seq<u8>,
        name: Seq<char>,
        before: RequesterModel,
    ) -> Explained;

    /// An explanation keeps the collector's root and what was asked for
    /// before.
    proof fn explained_extends(
        &self,
        actual: Seq<u8>,
        expected: Seq<u8>,
        name: Seq<char>,
        before: RequesterModel,
    )
        ensures
            self.explained(actual, expected, name, before).requester.root == before.root,
            before.pending.is_prefix_of(
                self.explained(actual, expected, name, before).requester.pending,
            ),
    ;

    /// Decides whether `actual` matches `expected`.
    fn equal(&self, actual: &Vec<u8>, expected: &Vec<u8>) -> (r: core::result::Result<
        bool,
        String,
    >)
        ensures
            verdict_of(r) == self.verdict(actual@, expected@),
    ;

    /// Explains the difference between `actual` and `expected` for the
    /// artifact `name` by asking the collector for sidecar files.
    fn diff(
        &self,
        actual: &Vec<u8>,
        expected: &Vec<u8>,
        name: &str,
        requester: &mut WriteRequester,
    ) -> (r: core::result::Result<(), String>)
        requires
            is_relative(name@),
            old(requester).well_formed(),
        ensures
            final(requester).well_formed(),
            (Explained { requester: final(requester)@, failure: failure_of(r) }) == self.explained(
                actual@,
                expected@,
                name@,
                old(requester)@,
            ),
    ;
}

} // verus!
