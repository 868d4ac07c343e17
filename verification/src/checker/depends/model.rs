//! A host as a check sees it, what a check of it has to find, and the proof
//! that a check which is given the host's answers ends with just that.

use crate::checker::depends::ubuntu::{
    onward, pending_packages, probed_version, scan_step, update_info_of, PkgInfoView,
    ProgressView, UpdateScanView,
};
use crate::checker::depends::{check_step, distribution, CheckView, Distro};
use crate::checker::host::{
    Failure, FileReadView, ReplyView, RequestView, ScanErrorView, ToolRunView,
};
use crate::checker::{urgent_restart, CheckResultView, ReportView};
use vstd::prelude::*;

verus! {

/// The state of a host, as far as a check can ask for it.
pub struct Host {
    /// Whether the marker file of the Debian family is present.
    pub debian_marker: bool,
    /// What comes of reading the release information.
    pub release: FileReadView,
    /// What comes of reading the file that lists the packages that wait for a reboot.
    pub pending: FileReadView,
    /// What comes of running the package database query for a package.
    pub version_query: spec_fn(Seq<char>) -> ToolRunView,
    /// What comes of running the changelog tool for a package.
    pub changelog: spec_fn(Seq<char>) -> ToolRunView,
}

impl Host {
    /// What the host answers to `request`.
    pub open spec fn answer(self, request: RequestView) -> ReplyView {
        match request {
            RequestView::ProbeDebianMarker => ReplyView::Marker(self.debian_marker),
            RequestView::ReadReleaseInfo => ReplyView::File(self.release),
            RequestView::ReadPendingPackages => ReplyView::File(self.pending),
            RequestView::QueryVersion(name) => ReplyView::Tool((self.version_query)(name)),
            RequestView::FetchChangelog(name) => ReplyView::Tool((self.changelog)(name)),
        }
    }

    /// The progress after the package that `progress` looks at next: it is
    /// left out where its installed version or its changelog cannot be had,
    /// kept where its changelog holds urgent changes, and passed otherwise.
    pub open spec fn after_package(self, progress: ProgressView) -> ProgressView {
        let name = progress.current();
        match probed_version((self.version_query)(name)) {
            Err(e) => progress.left_out(Failure::Probe(e)),
            Ok(version) => match update_info_of(
                PkgInfoView { name, current_version: version },
                (self.changelog)(name),
            ) {
                Err(e) => progress.left_out(Failure::Changelog(e)),
                Ok(None) => progress.passed(),
                Ok(Some(update)) => progress.kept(update),
            },
        }
    }

    /// The progress after the first `n` of the packages `names`, taken in
    /// their order.
    pub open spec fn survey(self, names: Seq<Seq<char>>, n: nat) -> ProgressView
        decreases n,
    {
        if n == 0 {
            ProgressView { names, next: 0, found: Seq::empty(), skipped: Seq::empty() }
        } else {
            self.after_package(self.survey(names, (n - 1) as nat))
        }
    }

    /// What a check of this host has to end with. A host of no known family
    /// is not applicable, and nothing else is looked at. On a host of the
    /// Ubuntu family, the list of packages that cannot be had is the error
    /// of the whole check; otherwise every package of the list is looked at.
    pub open spec fn expected(self) -> Result<ReportView, ScanErrorView> {
        match distribution(self.debian_marker, self.release) {
            Some(Distro::Ubuntu) => match pending_packages(self.pending) {
                Err(e) => Err(e),
                Ok(names) => Ok(self.survey(names, names.len()).report()),
            },
            _ => Ok(ReportView { result: CheckResultView::NotApplicable, skipped: Seq::empty() }),
        }
    }

    /// The state of a check of this host after `steps` answers: it starts
    /// at the beginning, is given the host's answer to what it asks, and
    /// stays as it is once it asks nothing.
    pub open spec fn run(self, steps: nat) -> CheckView
        decreases steps,
    {
        if steps == 0 {
            CheckView::AwaitMarker
        } else {
            let before = self.run((steps - 1) as nat);
            match before.wanted() {
                Some(request) => check_step(before, self.answer(request)),
                None => before,
            }
        }
    }

    /// The number of answers that a check of this host needs to get through
    /// the file that lists `names` and the first `n` of them: one for the
    /// file, one for each package whose version cannot be had, two for each other.
    pub open spec fn answers_needed(self, names: Seq<Seq<char>>, n: nat) -> nat
        decreases n,
    {
        if n == 0 {
            3
        } else {
            let before = self.survey(names, (n - 1) as nat);
            let package: nat = if probed_version((self.version_query)(before.current())) is Err {
                1
            } else {
                2
            };
            self.answers_needed(names, (n - 1) as nat) + package
        }
    }

    /// The number of answers after which a check of this host has ended.
    pub open spec fn answers_in_all(self) -> nat {
        if !self.debian_marker {
            1
        } else if distribution(self.debian_marker, self.release) != Some(Distro::Ubuntu) {
            2
        } else {
            match pending_packages(self.pending) {
                Err(_) => 3,
                Ok(names) => self.answers_needed(names, names.len()),
            }
        }
    }
}

/// A survey keeps the list of packages and counts those it has looked at.
pub proof fn lemma_survey_position(host: Host, names: Seq<Seq<char>>, n: nat)
    ensures
        host.survey(names, n).names == names,
        host.survey(names, n).next == n,
    decreases n,
{
    if n > 0 {
        lemma_survey_position(host, names, (n - 1) as nat);
    }
}

/// Every package that a survey found has at least one urgent section, and
/// is one of the packages looked at.
pub proof fn lemma_found_have_changes(host: Host, names: Seq<Seq<char>>, n: nat, i: int)
    requires
        n <= names.len(),
        0 <= i < host.survey(names, n).found.len(),
    ensures
        host.survey(names, n).found[i].change_logs.len() > 0,
        exists|k: int| 0 <= k < n && #[trigger] names[k] == host.survey(names, n).found[i].pkg_info.name,
    decreases n,
{
    if n > 0 {
        let k = (n - 1) as nat;
        let before = host.survey(names, k);
        lemma_survey_position(host, names, k);
        if i < before.found.len() {
            lemma_found_have_changes(host, names, k, i);
            let j = choose|j: int| 0 <= j < k && #[trigger] names[j] == before.found[i].pkg_info.name;
            assert(names[j] == host.survey(names, n).found[i].pkg_info.name);
        } else {
            assert(names[k as int] == host.survey(names, n).found[i].pkg_info.name);
        }
    }
}

/// On a host of the Ubuntu family whose list of packages can be had, a
/// check has looked at the first `n` packages after `answers_needed` answers.
pub proof fn lemma_run_surveys(host: Host, names: Seq<Seq<char>>, n: nat)
    requires
        distribution(host.debian_marker, host.release) == Some(Distro::Ubuntu),
        pending_packages(host.pending) == Ok::<Seq<Seq<char>>, ScanErrorView>(names),
        n <= names.len(),
    ensures
        host.run(host.answers_needed(names, n)) == CheckView::Ubuntu(
            onward(host.survey(names, n)),
        ),
    decreases n,
{
    if n == 0 {
        assert(host.run(0) == CheckView::AwaitMarker);
        assert(host.run(1) == CheckView::AwaitRelease);
        assert(host.run(2) == CheckView::Ubuntu(UpdateScanView::AwaitPending));
        assert(host.run(3) == CheckView::Ubuntu(onward(host.survey(names, 0))));
    } else {
        let k = (n - 1) as nat;
        lemma_run_surveys(host, names, k);
        lemma_survey_position(host, names, k);
        let before = host.survey(names, k);
        let done = host.answers_needed(names, k);
        assert(before.unfinished());
        assert(host.run(done) == CheckView::Ubuntu(UpdateScanView::AwaitVersion(before)));
        let name = before.current();
        match probed_version((host.version_query)(name)) {
            Err(e) => {
                assert(host.run(done + 1) == CheckView::Ubuntu(
                    onward(before.left_out(Failure::Probe(e))),
                ));
            },
            Ok(version) => {
                assert(host.run(done + 1) == CheckView::Ubuntu(
                    UpdateScanView::AwaitChangelog(before, version),
                ));
                assert(host.run(done + 2) == CheckView::Ubuntu(
                    onward(host.after_package(before)),
                ));
            },
        }
    }
}

/// A check that asks nothing stays as it is.
pub proof fn lemma_run_rests(host: Host, n: nat, m: nat)
    requires
        host.run(n).wanted() is None,
        n <= m,
    ensures
        host.run(m) == host.run(n),
    decreases m,
{
    if m > n {
        lemma_run_rests(host, n, (m - 1) as nat);
    }
}

/// A check that is given the host's answers ends, and it ends with what
/// the host calls for: after `host.answers_in_all()` answers it asks
/// nothing more, and its outcome is `host.expected()`.
pub proof fn lemma_check_ends_as_expected(host: Host)
    ensures
        host.run(host.answers_in_all()).wanted() is None,
        host.run(host.answers_in_all()).outcome() == Some(host.expected()),
{
    if !host.debian_marker {
        assert(host.run(0) == CheckView::AwaitMarker);
        assert(host.run(1) == CheckView::NotApplicable);
    } else if distribution(host.debian_marker, host.release) != Some(Distro::Ubuntu) {
        assert(host.run(0) == CheckView::AwaitMarker);
        assert(host.run(1) == CheckView::AwaitRelease);
        assert(host.run(2) == CheckView::NotApplicable);
    } else {
        match pending_packages(host.pending) {
            Err(e) => {
                assert(host.run(0) == CheckView::AwaitMarker);
                assert(host.run(1) == CheckView::AwaitRelease);
                assert(host.run(2) == CheckView::Ubuntu(UpdateScanView::AwaitPending));
                assert(host.run(3) == CheckView::Ubuntu(UpdateScanView::Finished(Err(e))));
            },
            Ok(names) => {
                lemma_run_surveys(host, names, names.len());
                lemma_survey_position(host, names, names.len());
            },
        }
    }
}

/// Checking twice gives the same: however many answers two checks of one
/// host were given, if both have ended, they have ended alike, and with
/// what the host calls for.
pub proof fn lemma_check_is_repeatable(host: Host, n: nat, m: nat)
    requires
        host.run(n).outcome() is Some,
        host.run(m).outcome() is Some,
    ensures
        host.run(n).outcome() == host.run(m).outcome(),
        host.run(n).outcome() == Some(host.expected()),
{
    let all = host.answers_in_all();
    lemma_check_ends_as_expected(host);
    lemma_outcome_is_final(host, n, all);
    lemma_outcome_is_final(host, m, all);
}

/// Two states of a check of one host that both ask nothing are the same state.
proof fn lemma_outcome_is_final(host: Host, n: nat, m: nat)
    requires
        host.run(n).outcome() is Some,
        host.run(m).wanted() is None,
    ensures
        host.run(n) == host.run(m),
{
    if n <= m {
        lemma_run_rests(host, n, m);
    } else {
        lemma_run_rests(host, m, n);
    }
}

/// A host without the marker file of the Debian family is not applicable,
/// whatever else it holds, and needs no urgent restart.
pub proof fn lemma_no_marker_not_applicable(host: Host)
    requires
        !host.debian_marker,
    ensures
        host.expected() == Ok::<ReportView, ScanErrorView>(
            ReportView { result: CheckResultView::NotApplicable, skipped: Seq::empty() },
        ),
        !urgent_restart(CheckResultView::NotApplicable),
{
}

} // verus!
