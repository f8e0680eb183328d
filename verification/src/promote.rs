//! Promotion: what a test wrote becomes its baseline.

use vstd::prelude::*;
use vstd::string::*;
use crate::shared::{ResultKind, KindModel};

verus! {

/// What promoting one outcome asks for.
#[derive(Debug, Clone, PartialEq, Eq)]
pub enum Promotion {
    /// Nothing: the baseline stays as it is.
    Keep,
    /// The file at `from` is copied over the file at `to`.
    Copy { from: String, to: String },
}

/// The mathematical value of a [`Promotion`].
pub enum PromotionModel {
    Keep,
    Copy { from: Seq<char>, to: Seq<char> },
}

impl View for Promotion {
    type V = PromotionModel;

    open spec fn view(&self) -> PromotionModel {
        match *self {
            Promotion::Keep => PromotionModel::Keep,
            Promotion::Copy { from, to } => PromotionModel::Copy { from: from@, to: to@ },
        }
    }
}

/// Promoting an outcome: a file without a baseline, and a file that differs
/// from its baseline, is copied over the baseline; every other outcome
/// keeps what is there.
pub open spec fn promoted(kind: KindModel) -> PromotionModel {
    match kind {
        KindModel::ExpectedNotFound { actual, expected } => PromotionModel::Copy {
            from: actual,
            to: expected,
        },
        KindModel::Difference { actual, expected, .. } => PromotionModel::Copy {
            from: actual,
            to: expected,
        },
        _ => PromotionModel::Keep,
    }
}

/// Tells what promoting an outcome asks for.
pub fn promotion_of(kind: &ResultKind) -> (r: Promotion)
    ensures
        r@ == promoted(kind@),
{
    match kind {
        ResultKind::ExpectedNotFound(double) => Promotion::Copy {
            from: double.actual.clone(),
            to: double.expected.clone(),
        },
        ResultKind::Difference(difference) => Promotion::Copy {
            from: difference.actual.clone(),
            to: difference.expected.clone(),
        },
        _ => Promotion::Keep,
    }
}

} // verus!
