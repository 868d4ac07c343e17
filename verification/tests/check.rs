use urgent_restart::checker::depends::ubuntu::{
    get_urgent_updates as scan_step, Changelog, PkgInfo, Progress, UpdateInfo, UpdateScan,
};
use urgent_restart::checker::depends::{get_urgent_updates, Check};
use urgent_restart::checker::host::{
    ChangelogError, Failure, FileRead, ProbeError, Reply, Request, ScanError, ToolRun,
};
use urgent_restart::checker::{is_urgent_restart_required, CheckResult, Report, Skipped};

/// A host with canned answers.
struct Host {
    debian_marker: bool,
    release: Option<&'static str>,
    pending: Option<&'static str>,
    versions: Vec<(&'static str, Option<&'static str>)>,
    changelogs: Vec<(&'static str, Option<&'static [u8]>)>,
}

fn file(text: Option<&str>) -> FileRead {
    match text {
        Some(text) => FileRead::Content(text.to_string()),
        None => FileRead::NotFound,
    }
}

impl Host {
    fn answer(&self, request: &Request) -> Reply {
        match request {
            Request::ProbeDebianMarker => Reply::Marker(self.debian_marker),
            Request::ReadReleaseInfo => Reply::File(file(self.release)),
            Request::ReadPendingPackages => Reply::File(file(self.pending)),
            Request::QueryVersion(name) => {
                let found = self.versions.iter().find(|entry| entry.0 == name.as_str());
                Reply::Tool(match found {
                    Some((_, Some(text))) => ToolRun::Output(text.as_bytes().to_vec()),
                    _ => ToolRun::NotStarted,
                })
            }
            Request::FetchChangelog(name) => {
                let found = self.changelogs.iter().find(|entry| entry.0 == name.as_str());
                Reply::Tool(match found {
                    Some((_, Some(bytes))) => ToolRun::Output(bytes.to_vec()),
                    _ => ToolRun::NotStarted,
                })
            }
        }
    }
}

/// Runs a check against the host; gives the outcome and what was asked.
fn run(host: &Host) -> (Result<Report, ScanError>, Vec<Request>) {
    let mut check = Check::start();
    let mut request = check.request();
    let mut asked = Vec::new();
    while let Some(current) = request {
        assert!(asked.len() < 100);
        let reply = host.answer(&current);
        asked.push(current);
        let next = get_urgent_updates(check, reply);
        check = next.0;
        request = next.1;
    }
    (check.into_outcome().expect("a check that asks nothing has ended"), asked)
}

fn plain_host() -> Host {
    Host {
        debian_marker: true,
        release: Some("DISTRIB_ID=Ubuntu\nDISTRIB_RELEASE=22.04\n"),
        pending: Some("foo\n"),
        versions: vec![("foo", Some("Package: foo\nVersion: 1.1\n"))],
        changelogs: vec![(
            "foo",
            Some(b"foo (1.2) stable; urgency=high\n  * fix\nfoo (1.1) stable; urgency=low\n  * init\n" as &[u8]),
        )],
    }
}

fn foo_update() -> UpdateInfo {
    UpdateInfo {
        pkg_info: PkgInfo { name: "foo".to_string(), current_version: "1.1".to_string() },
        change_logs: vec![Changelog {
            version: "foo (1.2) stable; urgency=high".to_string(),
            content: "  * fix".to_string(),
        }],
    }
}

fn not_applicable() -> Report {
    Report { result: CheckResult::NotApplicable, skipped: Vec::new() }
}

#[test]
fn restart_is_urgent_only_with_updates() {
    assert!(!is_urgent_restart_required(&CheckResult::NotApplicable));
    assert!(!is_urgent_restart_required(&CheckResult::Applicable(Vec::new())));
    assert!(is_urgent_restart_required(&CheckResult::Applicable(vec![foo_update()])));
}

#[test]
fn check_starts_with_the_debian_marker() {
    let check = Check::start();
    assert_eq!(check, Check::AwaitMarker);
    assert_eq!(check.request(), Some(Request::ProbeDebianMarker));
    assert_eq!(check.into_outcome(), None);
}

#[test]
fn without_debian_marker_check_is_not_applicable() {
    let host = Host { debian_marker: false, ..plain_host() };
    let (outcome, asked) = run(&host);
    assert_eq!(outcome, Ok(not_applicable()));
    assert_eq!(asked, vec![Request::ProbeDebianMarker]);
    assert!(!is_urgent_restart_required(&outcome.unwrap().result));
}

#[test]
fn without_ubuntu_release_check_is_not_applicable() {
    let host = Host { release: Some("DISTRIB_ID=Debian\n"), ..plain_host() };
    let (outcome, asked) = run(&host);
    assert_eq!(outcome, Ok(not_applicable()));
    assert_eq!(asked, vec![Request::ProbeDebianMarker, Request::ReadReleaseInfo]);
}

#[test]
fn release_information_that_cannot_be_read_counts_as_absent() {
    let (check, request) = get_urgent_updates(Check::AwaitRelease, Reply::File(FileRead::ReadFailed));
    assert_eq!(check, Check::NotApplicable);
    assert_eq!(request, None);
    let host = Host { release: None, ..plain_host() };
    assert_eq!(run(&host).0, Ok(not_applicable()));
}

#[test]
fn ubuntu_host_with_one_urgent_package_needs_restart() {
    let (outcome, asked) = run(&plain_host());
    assert_eq!(
        outcome,
        Ok(Report { result: CheckResult::Applicable(vec![foo_update()]), skipped: Vec::new() })
    );
    assert_eq!(
        asked,
        vec![
            Request::ProbeDebianMarker,
            Request::ReadReleaseInfo,
            Request::ReadPendingPackages,
            Request::QueryVersion("foo".to_string()),
            Request::FetchChangelog("foo".to_string()),
        ]
    );
    assert!(is_urgent_restart_required(&outcome.unwrap().result));
}

#[test]
fn ubuntu_host_without_pending_file_needs_no_restart() {
    let host = Host { pending: None, ..plain_host() };
    let (outcome, asked) = run(&host);
    assert_eq!(
        outcome,
        Ok(Report { result: CheckResult::Applicable(Vec::new()), skipped: Vec::new() })
    );
    assert_eq!(
        asked,
        vec![Request::ProbeDebianMarker, Request::ReadReleaseInfo, Request::ReadPendingPackages]
    );
    assert!(!is_urgent_restart_required(&outcome.unwrap().result));
}

#[test]
fn ubuntu_host_with_nothing_urgent_needs_no_restart() {
    let host = Host {
        changelogs: vec![("foo", Some(b"foo (1.2) stable; urgency=low\n  * typo\nfoo (1.1) stable; urgency=high\n  * init\n" as &[u8]))],
        ..plain_host()
    };
    let (outcome, _) = run(&host);
    assert_eq!(
        outcome,
        Ok(Report { result: CheckResult::Applicable(Vec::new()), skipped: Vec::new() })
    );
}

#[test]
fn unreadable_pending_file_fails_the_check() {
    let mut check = Check::start();
    check = get_urgent_updates(check, Reply::Marker(true)).0;
    check = get_urgent_updates(check, Reply::File(FileRead::Content("Ubuntu".to_string()))).0;
    let (check, request) = get_urgent_updates(
        check,
        Reply::File(FileRead::OpenFailed("PermissionDenied".to_string())),
    );
    assert_eq!(request, None);
    assert_eq!(
        check.into_outcome(),
        Some(Err(ScanError::Open("PermissionDenied".to_string())))
    );
    let mut again = Check::Ubuntu(UpdateScan::AwaitPending);
    again = get_urgent_updates(again, Reply::File(FileRead::ReadFailed)).0;
    assert_eq!(again.into_outcome(), Some(Err(ScanError::Read)));
}

#[test]
fn broken_packages_are_left_out_and_the_check_goes_on() {
    let host = Host {
        pending: Some("gone\nbar\nfoo\nmute\nodd\nbare\n"),
        versions: vec![
            ("gone", None),
            ("bar", Some("Package: bar\n")),
            ("foo", Some("Package: foo\nVersion: 1.1\n")),
            ("mute", Some("Version: 3\n")),
            ("odd", Some("Version: 4\n")),
            ("bare", Some("Version:\n")),
        ],
        changelogs: vec![
            ("foo", Some(b"foo (1.2) stable; urgency=high\n  * fix\nfoo (1.1) stable; urgency=low\n  * init\n" as &[u8])),
            ("mute", None),
            ("odd", Some(b"\xff" as &[u8])),
        ],
        ..plain_host()
    };
    let (outcome, asked) = run(&host);
    let skipped = |name: &str, cause: Failure| Skipped { name: name.to_string(), cause };
    assert_eq!(
        outcome,
        Ok(Report {
            result: CheckResult::Applicable(vec![foo_update()]),
            skipped: vec![
                skipped("gone", Failure::Probe(ProbeError::Launch)),
                skipped("bar", Failure::Probe(ProbeError::NoVersionLine)),
                skipped("mute", Failure::Changelog(ChangelogError::Launch)),
                skipped("odd", Failure::Changelog(ChangelogError::Encoding)),
                skipped("bare", Failure::Probe(ProbeError::NoValue)),
            ],
        })
    );
    assert_eq!(asked.len(), 3 + 1 + 1 + 2 + 2 + 2 + 1);
}

#[test]
fn updates_come_in_the_order_of_the_pending_file() {
    let host = Host {
        pending: Some("b\na\nb\n"),
        versions: vec![("a", Some("Version: 1\n")), ("b", Some("Version: 2\n"))],
        changelogs: vec![
            ("a", Some(b"a (9) s; urgency=high\n  * x\na (1) s; urgency=low\n" as &[u8])),
            ("b", Some(b"b (8) s; urgency=critical\n" as &[u8])),
        ],
        ..plain_host()
    };
    let (outcome, _) = run(&host);
    let update = |name: &str, version: &str, header: &str, content: &str| UpdateInfo {
        pkg_info: PkgInfo { name: name.to_string(), current_version: version.to_string() },
        change_logs: vec![Changelog { version: header.to_string(), content: content.to_string() }],
    };
    assert_eq!(
        outcome,
        Ok(Report {
            result: CheckResult::Applicable(vec![
                update("b", "2", "b (8) s; urgency=critical", ""),
                update("a", "1", "a (9) s; urgency=high", "  * x"),
                update("b", "2", "b (8) s; urgency=critical", ""),
            ]),
            skipped: Vec::new(),
        })
    );
}

#[test]
fn of_two_packages_the_one_with_an_urgent_section_is_found() {
    let host = Host {
        pending: Some("a\nb\n"),
        versions: vec![("a", Some("Version: 1.0\n")), ("b", Some("Version: 1.0\n"))],
        changelogs: vec![
            ("a", Some(b"a (2.0) s; urgency=low\n  * x\na (1.0) s; urgency=low\n  * y\n" as &[u8])),
            ("b", Some(b"b (2.0) s; urgency=high\n  * x\nb (1.0) s; urgency=low\n  * y\n" as &[u8])),
        ],
        ..plain_host()
    };
    let (outcome, _) = run(&host);
    assert_eq!(
        outcome,
        Ok(Report {
            result: CheckResult::Applicable(vec![UpdateInfo {
                pkg_info: PkgInfo { name: "b".to_string(), current_version: "1.0".to_string() },
                change_logs: vec![Changelog {
                    version: "b (2.0) s; urgency=high".to_string(),
                    content: "  * x".to_string(),
                }],
            }]),
            skipped: Vec::new(),
        })
    );
    assert!(is_urgent_restart_required(&outcome.unwrap().result));
}

#[test]
fn checking_twice_gives_the_same() {
    let host = Host {
        pending: Some("gone\nfoo\n"),
        ..plain_host()
    };
    let first = run(&host);
    let second = run(&host);
    assert_eq!(first, second);
    assert_eq!(
        first.0,
        Ok(Report {
            result: CheckResult::Applicable(vec![foo_update()]),
            skipped: vec![Skipped { name: "gone".to_string(), cause: Failure::Probe(ProbeError::Launch) }],
        })
    );
}

#[test]
fn answer_that_was_not_asked_for_changes_nothing() {
    let (check, request) = get_urgent_updates(Check::AwaitMarker, Reply::Tool(ToolRun::NotStarted));
    assert_eq!(check, Check::AwaitMarker);
    assert_eq!(request, Some(Request::ProbeDebianMarker));
    let (check, request) = get_urgent_updates(Check::AwaitRelease, Reply::Marker(true));
    assert_eq!(check, Check::AwaitRelease);
    assert_eq!(request, Some(Request::ReadReleaseInfo));
    let (scan, request) = scan_step(UpdateScan::AwaitPending, Reply::Marker(true));
    assert_eq!(scan, UpdateScan::AwaitPending);
    assert_eq!(request, Some(Request::ReadPendingPackages));
    let (check, request) = get_urgent_updates(Check::NotApplicable, Reply::Marker(true));
    assert_eq!(check, Check::NotApplicable);
    assert_eq!(request, None);
}

#[test]
fn scan_goes_from_version_to_changelog() {
    let progress = || Progress {
        names: vec!["foo".to_string(), "bar".to_string()],
        next: 0,
        found: Vec::new(),
        skipped: Vec::new(),
    };
    let (scan, request) = scan_step(
        UpdateScan::AwaitVersion(progress()),
        Reply::Tool(ToolRun::Output(b"Version: 1.1\n".to_vec())),
    );
    assert_eq!(scan, UpdateScan::AwaitChangelog(progress(), "1.1".to_string()));
    assert_eq!(request, Some(Request::FetchChangelog("foo".to_string())));
    let (scan, request) = scan_step(scan, Reply::Tool(ToolRun::Output(b"foo (2) s; urgency=low\n  * x\n".to_vec())));
    assert_eq!(scan, UpdateScan::AwaitVersion(Progress { next: 1, ..progress() }));
    assert_eq!(request, Some(Request::QueryVersion("bar".to_string())));
    let (scan, request) = scan_step(scan, Reply::Tool(ToolRun::NotStarted));
    assert_eq!(request, None);
    assert_eq!(
        scan,
        UpdateScan::Finished(Ok(Report {
            result: CheckResult::Applicable(Vec::new()),
            skipped: vec![Skipped { name: "bar".to_string(), cause: Failure::Probe(ProbeError::Launch) }],
        }))
    );
    let (scan, request) = scan_step(scan, Reply::Tool(ToolRun::NotStarted));
    assert_eq!(request, None);
    assert!(matches!(scan, UpdateScan::Finished(Ok(_))));
}

#[test]
fn scan_past_the_last_package_ends() {
    let progress = Progress { names: vec!["foo".to_string()], next: 1, found: Vec::new(), skipped: Vec::new() };
    let scan = UpdateScan::AwaitVersion(progress);
    assert_eq!(scan.request(), None);
    let (scan, request) = scan_step(scan, Reply::Tool(ToolRun::NotStarted));
    assert_eq!(request, None);
    assert_eq!(
        scan,
        UpdateScan::Finished(Ok(Report { result: CheckResult::Applicable(Vec::new()), skipped: Vec::new() }))
    );
}

#[test]
fn errors_say_what_failed() {
    assert_eq!(ScanError::Open("PermissionDenied".to_string()).message(), "PermissionDenied");
    assert_eq!(ScanError::Read.message(), "Cannot read content from");
    assert_eq!(ProbeError::Launch.message("foo"), "Cannot get foo's version");
    assert_eq!(ProbeError::Encoding.message("foo"), "Cannot convert output into utf8 format");
    assert_eq!(ProbeError::NoVersionLine.message("foo"), "Cannot find foo's version from dpkg");
    assert_eq!(ProbeError::NoValue.message("foo"), "Cannot extract foo's version from dpkg");
    assert_eq!(ChangelogError::Launch.message(), "Cannot execute apt command.");
    assert_eq!(ChangelogError::Encoding.message(), "Cannot convert output into utf8 format");
    assert_eq!(Failure::Probe(ProbeError::Launch).message("bar"), "Cannot get bar's version");
    assert_eq!(Failure::Changelog(ChangelogError::Launch).message("bar"), "Cannot execute apt command.");
}
