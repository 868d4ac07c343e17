//! Whether a host needs an urgent restart: packages wait for a reboot, and
//! the changelog of one of them holds an urgent section that is newer than
//! the installed version.

use crate::checker::depends::ubuntu::{UpdateInfo, UpdateInfoView};
use crate::checker::host::Failure;
use vstd::prelude::*;

pub mod depends;
pub mod host;

verus! {

/// The views of the elements of a vector of updates.
pub open spec fn update_views(updates: Seq<UpdateInfo>) -> Seq<UpdateInfoView> {
    Seq::new(updates.len(), |i: int| updates[i]@)
}

/// What a check found.
#[derive(Debug, PartialEq, Eq)]
pub enum CheckResult {
    /// The host is of no family that the check knows.
    NotApplicable,
    /// The host is of a known family; these are the packages with urgent
    /// changes, in the order in which they wait. There may be none.
    Applicable(Vec<UpdateInfo>),
}

/// What a `CheckResult` holds, as sequences.
pub enum CheckResultView {
    NotApplicable,
    Applicable(Seq<UpdateInfoView>),
}

impl View for CheckResult {
    type V = CheckResultView;

    open spec fn view(&self) -> CheckResultView {
        match self {
            CheckResult::NotApplicable => CheckResultView::NotApplicable,
            CheckResult::Applicable(updates) => CheckResultView::Applicable(update_views(updates@)),
        }
    }
}

/// A restart is urgent where the check applies to the host and found at
/// least one package with urgent changes.
pub open spec fn urgent_restart(result: CheckResultView) -> bool {
    result matches CheckResultView::Applicable(updates) && updates.len() > 0
}

/// Whether what the check found calls for an urgent restart.
pub fn is_urgent_restart_required(result: &CheckResult) -> (required: bool)
    ensures
        required == urgent_restart(result@),
{
    match result {
        CheckResult::NotApplicable => false,
        CheckResult::Applicable(updates) => updates.len() > 0,
    }
}

/// A package that a check left out, and why.
#[derive(Debug, PartialEq, Eq)]
pub struct Skipped {
    pub name: String,
    pub cause: Failure,
}

/// What a `Skipped` holds, as sequences of characters.
pub struct SkippedView {
    pub name: Seq<char>,
    pub cause: Failure,
}

impl View for Skipped {
    type V = SkippedView;

    open spec fn view(&self) -> SkippedView {
        SkippedView { name: self.name@, cause: self.cause }
    }
}

/// The views of the elements of a vector of skipped packages.
pub open spec fn skipped_views(skipped: Seq<Skipped>) -> Seq<SkippedView> {
    Seq::new(skipped.len(), |i: int| skipped[i]@)
}

/// What a check that ran to its end reports: what it found, and the
/// packages that it had to leave out, in the order in which they wait.
#[derive(Debug, PartialEq, Eq)]
pub struct Report {
    pub result: CheckResult,
    pub skipped: Vec<Skipped>,
}

/// What a `Report` holds, as sequences.
pub struct ReportView {
    pub result: CheckResultView,
    pub skipped: Seq<SkippedView>,
}

impl View for Report {
    type V = ReportView;

    open spec fn view(&self) -> ReportView {
        ReportView { result: self.result@, skipped: skipped_views(self.skipped@) }
    }
}

} // verus!
