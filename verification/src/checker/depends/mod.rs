//! The check itself: which family the host is of, and from there the check
//! of that family. The check reads no file and runs no tool: it says what
//! it asks of the host, and goes on from the answer it is given.

use crate::checker::depends::ubuntu::{
    outcome_view, scan_step, ubuntu_host, UpdateScan, UpdateScanView,
};
use crate::checker::host::{
    wanted_view, FileRead, FileReadView, Reply, ReplyView, Request, RequestView, ScanError,
    ScanErrorView,
};
use crate::checker::{CheckResult, CheckResultView, Report, ReportView};
use vstd::prelude::*;

pub mod changelog;
pub mod model;
pub mod ubuntu;

verus! {

/// The families of hosts.
#[derive(Clone, Copy, Debug, PartialEq, Eq, Structural)]
pub enum Distro {
    Ubuntu,
    /// A family that the check does not know.
    Unknown,
}

/// The family of a host, from whether the marker file of the Debian family
/// is present and what came of reading the release information.
pub open spec fn distribution(debian_marker: bool, release: FileReadView) -> Option<Distro> {
    if ubuntu_host(debian_marker, release) {
        Some(Distro::Ubuntu)
    } else {
        None
    }
}

/// Tells the family of a host: the first that matches, or none. Release
/// information that could not be read counts as absent.
pub fn detect_distribution(debian_marker: bool, release: &FileRead) -> (distro: Option<Distro>)
    ensures
        distro == distribution(debian_marker, release@),
{
    if ubuntu::is_ubuntu(debian_marker, release) {
        return Some(Distro::Ubuntu);
    }
    None
}

/// Where a check stands.
#[derive(Debug, PartialEq, Eq)]
pub enum Check {
    /// It waits to learn whether the marker file of the Debian family is present.
    AwaitMarker,
    /// It waits for the release information.
    AwaitRelease,
    /// The host is of the Ubuntu family; the check of that family runs.
    Ubuntu(UpdateScan),
    /// It has ended: the host is of no family that the check knows.
    NotApplicable,
}

/// What a `Check` holds, as sequences.
pub enum CheckView {
    AwaitMarker,
    AwaitRelease,
    Ubuntu(UpdateScanView),
    NotApplicable,
}

impl View for Check {
    type V = CheckView;

    open spec fn view(&self) -> CheckView {
        match self {
            Check::AwaitMarker => CheckView::AwaitMarker,
            Check::AwaitRelease => CheckView::AwaitRelease,
            Check::Ubuntu(scan) => CheckView::Ubuntu(scan@),
            Check::NotApplicable => CheckView::NotApplicable,
        }
    }
}

impl CheckView {
    /// What the check asks of the host in this state: nothing once it has ended.
    pub open spec fn wanted(self) -> Option<RequestView> {
        match self {
            CheckView::AwaitMarker => Some(RequestView::ProbeDebianMarker),
            CheckView::AwaitRelease => Some(RequestView::ReadReleaseInfo),
            CheckView::Ubuntu(scan) => scan.wanted(),
            CheckView::NotApplicable => None,
        }
    }

    /// How the check ended, where it has ended.
    pub open spec fn outcome(self) -> Option<Result<ReportView, ScanErrorView>> {
        match self {
            CheckView::NotApplicable => Some(
                Ok(ReportView { result: CheckResultView::NotApplicable, skipped: Seq::empty() }),
            ),
            CheckView::Ubuntu(UpdateScanView::Finished(outcome)) => Some(outcome),
            _ => None,
        }
    }
}

/// The state that follows `check` when the host answers `reply`.
///
/// Without the marker file of the Debian family the release information is
/// not asked for: the check ends as not applicable. So it does where the
/// release information names no known family. An answer that the state did
/// not ask for changes nothing.
pub open spec fn check_step(check: CheckView, reply: ReplyView) -> CheckView {
    match (check, reply) {
        (CheckView::AwaitMarker, ReplyView::Marker(present)) => if present {
            CheckView::AwaitRelease
        } else {
            CheckView::NotApplicable
        },
        (CheckView::AwaitRelease, ReplyView::File(release)) => match distribution(true, release) {
            Some(Distro::Ubuntu) => CheckView::Ubuntu(UpdateScanView::AwaitPending),
            _ => CheckView::NotApplicable,
        },
        (CheckView::Ubuntu(scan), _) => CheckView::Ubuntu(scan_step(scan, reply)),
        _ => check,
    }
}

impl Check {
    /// The state in which every check begins.
    pub fn start() -> (check: Check)
        ensures
            check@ == CheckView::AwaitMarker,
    {
        Check::AwaitMarker
    }

    /// What the check asks of the host in this state.
    pub fn request(&self) -> (request: Option<Request>)
        ensures
            wanted_view(request) == self@.wanted(),
    {
        match self {
            Check::AwaitMarker => Some(Request::ProbeDebianMarker),
            Check::AwaitRelease => Some(Request::ReadReleaseInfo),
            Check::Ubuntu(scan) => scan.request(),
            Check::NotApplicable => None,
        }
    }

    /// How the check ended: `None` while it has not ended.
    pub fn into_outcome(self) -> (outcome: Option<Result<Report, ScanError>>)
        ensures
            match outcome {
                Some(o) => self@.outcome() == Some(outcome_view(o)),
                None => self@.outcome() is None,
            },
    {
        match self {
            Check::NotApplicable => {
                let report = Report { result: CheckResult::NotApplicable, skipped: Vec::new() };
                assert(report@.skipped =~= Seq::empty());
                Some(Ok(report))
            },
            Check::Ubuntu(UpdateScan::Finished(outcome)) => Some(outcome),
            _ => None,
        }
    }
}

/// Takes a check one step further: from the state `check` and the host's
/// answer `reply` to the next state and to what the check asks next. It
/// asks nothing once it has ended.
pub fn get_urgent_updates(check: Check, reply: Reply) -> (next: (Check, Option<Request>))
    ensures
        next.0@ == check_step(check@, reply@),
        wanted_view(next.1) == next.0@.wanted(),
{
    let state = match check {
        Check::AwaitMarker => match reply {
            Reply::Marker(present) => if present {
                Check::AwaitRelease
            } else {
                Check::NotApplicable
            },
            _ => Check::AwaitMarker,
        },
        Check::AwaitRelease => match reply {
            Reply::File(release) => match detect_distribution(true, &release) {
                Some(Distro::Ubuntu) => Check::Ubuntu(UpdateScan::AwaitPending),
                _ => Check::NotApplicable,
            },
            _ => Check::AwaitRelease,
        },
        Check::Ubuntu(scan) => {
            let (after, request) = ubuntu::get_urgent_updates(scan, reply);
            return (Check::Ubuntu(after), request);
        },
        Check::NotApplicable => Check::NotApplicable,
    };
    let request = state.request();
    (state, request)
}

} // verus!
