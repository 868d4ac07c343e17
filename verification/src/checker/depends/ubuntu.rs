//! The check on hosts of the Ubuntu family: recognising the host, the list
//! of packages that wait for a reboot, the installed version of a package,
//! and the urgent changes in its changelog.
//!
//! A changelog is read as the changelog tool lays it out: a line that is
//! neither empty nor indented announces a version, and the lines under it
//! are its change entries.

use crate::checker::depends::changelog::{
    change_entry, kept, lemma_body_len, lemma_headers_are_the_announcements,
    lemma_installed_is_newest, lemma_kept_are_urgent, lemma_kept_versions, lemma_sections_seek,
    lemma_sections_unfold, lemma_urgent_changes_unfold, newer, sections, urgency_of,
    urgent_changes, versions, ChangelogView, Section, UrgencyLevel,
};
use crate::checker::host::{
    wanted_view, ChangelogError, Failure, FileRead, FileReadView, ProbeError, Reply, ReplyView,
    Request, RequestView, ScanError, ScanErrorView, ToolRun, ToolRunView,
};
use crate::checker::{
    skipped_views, update_views, CheckResult, CheckResultView, Report, ReportView, Skipped,
    SkippedView,
};
use crate::strings::{chars_of, decode_text, string_of};
use crate::text::{
    contains, has_substring, is_whitespace, join, lemma_tokens_hold_no_whitespace,
    lemma_tokens_not_empty, rows, same_chars, split_lines, split_whitespace, text_lines, tokens,
    whitespace,
};
use vstd::prelude::*;
use vstd::utf8::{decode_utf8, valid_utf8};

verus! {

/// A package and the version of it that is installed.
#[derive(Debug, PartialEq, Eq)]
pub struct PkgInfo {
    pub name: String,
    pub current_version: String,
}

/// What a `PkgInfo` holds, as sequences of characters.
pub struct PkgInfoView {
    pub name: Seq<char>,
    pub current_version: Seq<char>,
}

impl View for PkgInfo {
    type V = PkgInfoView;

    open spec fn view(&self) -> PkgInfoView {
        PkgInfoView { name: self.name@, current_version: self.current_version@ }
    }
}

impl Clone for PkgInfo {
    fn clone(&self) -> (copy: Self)
        ensures
            copy@ == self@,
    {
        PkgInfo { name: self.name.clone(), current_version: self.current_version.clone() }
    }
}

/// One urgent section of a changelog: the line that announces the version,
/// and the lines of change entries under it, joined by line feeds.
#[derive(Debug, PartialEq, Eq)]
pub struct Changelog {
    pub version: String,
    pub content: String,
}

impl View for Changelog {
    type V = ChangelogView;

    open spec fn view(&self) -> ChangelogView {
        ChangelogView { version: self.version@, content: self.content@ }
    }
}

impl Clone for Changelog {
    fn clone(&self) -> (copy: Self)
        ensures
            copy@ == self@,
    {
        Changelog { version: self.version.clone(), content: self.content.clone() }
    }
}

/// The views of the elements of a vector of changelog sections.
pub open spec fn changelog_views(logs: Seq<Changelog>) -> Seq<ChangelogView> {
    Seq::new(logs.len(), |i: int| logs[i]@)
}

/// A package with urgent changes that wait for a restart.
#[derive(Debug, PartialEq, Eq)]
pub struct UpdateInfo {
    pub pkg_info: PkgInfo,
    pub change_logs: Vec<Changelog>,
}

/// What an `UpdateInfo` holds, as sequences.
pub struct UpdateInfoView {
    pub pkg_info: PkgInfoView,
    pub change_logs: Seq<ChangelogView>,
}

impl View for UpdateInfo {
    type V = UpdateInfoView;

    open spec fn view(&self) -> UpdateInfoView {
        UpdateInfoView {
            pkg_info: self.pkg_info@,
            change_logs: changelog_views(self.change_logs@),
        }
    }
}

impl UpdateInfo {
    /// An update holds at least one urgent section.
    pub open spec fn wf(&self) -> bool {
        self.change_logs@.len() > 0
    }
}

impl Clone for UpdateInfo {
    fn clone(&self) -> (copy: Self)
        ensures
            copy@ == self@,
    {
        let mut logs: Vec<Changelog> = Vec::new();
        let mut i: usize = 0;
        while i < self.change_logs.len()
            invariant
                i <= self.change_logs.len(),
                changelog_views(logs@) == changelog_views(self.change_logs@).take(i as int),
            decreases self.change_logs.len() - i,
        {
            let ghost before = changelog_views(logs@);
            let log = self.change_logs[i].clone();
            let ghost log_view = log@;
            logs.push(log);
            assert(changelog_views(logs@) =~= before.push(log_view));
            assert(changelog_views(self.change_logs@).take(i + 1) =~= before.push(log_view));
            i += 1;
        }
        assert(changelog_views(self.change_logs@).take(i as int) =~= changelog_views(
            self.change_logs@,
        ));
        UpdateInfo { pkg_info: self.pkg_info.clone(), change_logs: logs }
    }
}

/// The urgency that the announcement line `header` names.
pub fn urgency_level(header: &Vec<char>) -> (level: UrgencyLevel)
    ensures
        level == urgency_of(header@),
{
    if !contains(header, &chars_of("urgency=")) {
        UrgencyLevel::Unknown
    } else if contains(header, &chars_of("urgency=low")) {
        UrgencyLevel::Low
    } else if contains(header, &chars_of("urgency=medium")) {
        UrgencyLevel::Medium
    } else if contains(header, &chars_of("urgency=critical")) {
        UrgencyLevel::Critical
    } else {
        UrgencyLevel::High
    }
}

/// The urgency that the announcement line `header` names.
pub fn header_urgency(header: &str) -> (level: UrgencyLevel)
    ensures
        level == urgency_of(header@),
{
    urgency_level(&chars_of(header))
}

/// Whether `line` is a line of change entries: empty, or indented.
pub fn is_change_entry(line: &Vec<char>) -> (entry: bool)
    ensures
        entry == change_entry(line@),
{
    line.len() == 0 || is_whitespace(line[0])
}

/// The urgent sections among the lines of a changelog, for a package of
/// which the version `installed` is installed.
pub fn urgent_changelogs(lines: &Vec<Vec<char>>, installed: &Vec<char>) -> (logs: Vec<Changelog>)
    ensures
        changelog_views(logs@) == urgent_changes(sections(rows(lines@)), installed@),
{
    let ghost all = rows(lines@);
    let n: usize = lines.len();
    let mut i: usize = 0;
    while i < n && is_change_entry(&lines[i])
        invariant
            n == lines.len(),
            i <= n,
            all == rows(lines@),
            forall|k: int| 0 <= k < i ==> change_entry(#[trigger] all[k]),
        decreases n - i,
    {
        i += 1;
    }
    proof {
        lemma_body_len(all, i as int);
        lemma_sections_seek(all);
    }
    let mut logs: Vec<Changelog> = Vec::new();
    assert(changelog_views(logs@) + urgent_changes(sections(all.skip(i as int)), installed@)
        =~= urgent_changes(sections(all), installed@));
    while i < n
        invariant
            n == lines.len(),
            i <= n,
            all == rows(lines@),
            i < n ==> !change_entry(all[i as int]),
            changelog_views(logs@) + urgent_changes(sections(all.skip(i as int)), installed@)
                == urgent_changes(sections(all), installed@),
        decreases n - i,
    {
        let ghost here = all.skip(i as int);
        let ghost before = changelog_views(logs@);
        let header = &lines[i];
        let mut j: usize = i + 1;
        while j < n && is_change_entry(&lines[j])
            invariant
                n == lines.len(),
                i < j <= n,
                all == rows(lines@),
                forall|k: int| i < k < j ==> change_entry(#[trigger] all[k]),
            decreases n - j,
        {
            j += 1;
        }
        let ghost first = Section { header: all[i as int], body: all.subrange(i + 1, j as int) };
        let ghost later = urgent_changes(sections(all.skip(j as int)), installed@);
        proof {
            assert forall|k: int| 0 <= k < j - i - 1 implies change_entry(
                #[trigger] here.skip(1)[k],
            ) by {
                assert(here.skip(1)[k] == all[i + 1 + k]);
            }
            lemma_body_len(here.skip(1), j - i - 1);
            lemma_sections_unfold(here, j - i - 1);
            assert(here.subrange(1, j - i) =~= all.subrange(i + 1, j as int));
            assert(here.skip(j - i) =~= all.skip(j as int));
            lemma_urgent_changes_unfold(first, sections(all.skip(j as int)), installed@);
        }
        if contains(header, installed) {
            assert(before + Seq::<ChangelogView>::empty() =~= before);
            return logs;
        }
        if urgency_level(header).is_urgent() {
            let content = join(lines, i + 1, j);
            logs.push(Changelog { version: string_of(header), content: string_of(&content) });
            assert(changelog_views(logs@) =~= before.push(kept(first)));
            assert(before.push(kept(first)) + later =~= before + (seq![kept(first)] + later));
        }
        i = j;
    }
    assert(all.skip(i as int).len() == 0);
    assert(changelog_views(logs@) + Seq::<ChangelogView>::empty() =~= changelog_views(logs@));
    logs
}

/// What the changelog `text` holds for the package `pkg`: the package with
/// the urgent sections that are newer than its installed version, or
/// nothing where there is none. The package's name plays no part.
pub open spec fn classified(pkg: PkgInfoView, text: Seq<char>) -> Option<UpdateInfoView> {
    let logs = urgent_changes(sections(text_lines(text)), pkg.current_version);
    if logs.len() == 0 {
        None
    } else {
        Some(UpdateInfoView { pkg_info: pkg, change_logs: logs })
    }
}

/// The sections of an update are those of the urgent announcements among
/// the ones before the first that holds the installed version, in the order
/// of the changelog; there is no update where there is no such announcement.
/// An announcement is a line that is neither empty nor indented.
pub proof fn lemma_classified_versions(pkg: PkgInfoView, text: Seq<char>)
    ensures
        ({
            let announcements = text_lines(text).filter(|line: Seq<char>| !change_entry(line));
            let urgent = newer(announcements, pkg.current_version).filter(
                |header: Seq<char>| urgency_of(header).urgent(),
            );
            match classified(pkg, text) {
                None => urgent.len() == 0,
                Some(update) => update.pkg_info == pkg && versions(update.change_logs) == urgent
                    && urgent.len() > 0,
            }
        }),
{
    lemma_headers_are_the_announcements(text_lines(text));
    lemma_kept_versions(sections(text_lines(text)), pkg.current_version);
}

/// A changelog whose newest section announces the installed version holds
/// nothing urgent.
pub proof fn lemma_up_to_date_nothing_urgent(pkg: PkgInfoView, text: Seq<char>)
    requires
        sections(text_lines(text)).len() > 0,
        has_substring(sections(text_lines(text))[0].header, pkg.current_version),
    ensures
        classified(pkg, text) is None,
{
    lemma_installed_is_newest(sections(text_lines(text)), pkg.current_version);
}

/// An update has at least one section.
pub proof fn lemma_update_has_sections(pkg: PkgInfoView, text: Seq<char>)
    requires
        classified(pkg, text) is Some,
    ensures
        classified(pkg, text)->0.pkg_info == pkg,
        classified(pkg, text)->0.change_logs.len() > 0,
{
}

/// Every section of an update names an urgency, and one that is neither
/// low nor medium.
pub proof fn lemma_update_sections_urgent(pkg: PkgInfoView, text: Seq<char>, i: int)
    requires
        classified(pkg, text) is Some,
        0 <= i < classified(pkg, text)->0.change_logs.len(),
    ensures
        has_substring(classified(pkg, text)->0.change_logs[i].version, "urgency="@),
        !has_substring(classified(pkg, text)->0.change_logs[i].version, "urgency=low"@),
        !has_substring(classified(pkg, text)->0.change_logs[i].version, "urgency=medium"@),
{
    lemma_kept_are_urgent(sections(text_lines(text)), pkg.current_version, i);
}

/// Looks in the changelog `changelog` of the package `pkg_info` for urgent
/// sections that are newer than the installed version.
pub fn classify(pkg_info: &PkgInfo, changelog: &str) -> (update: Option<UpdateInfo>)
    ensures
        match update {
            Some(u) => classified(pkg_info@, changelog@) == Some(u@) && u.wf(),
            None => classified(pkg_info@, changelog@) is None,
        },
{
    let text = chars_of(changelog);
    let lines = split_lines(&text);
    let installed = chars_of(pkg_info.current_version.as_str());
    let logs = urgent_changelogs(&lines, &installed);
    if logs.len() == 0 {
        None
    } else {
        Some(UpdateInfo { pkg_info: pkg_info.clone(), change_logs: logs })
    }
}

/// What the output of the changelog tool holds for the package `pkg`.
pub open spec fn update_info_of(pkg: PkgInfoView, run: ToolRunView) -> Result<
    Option<UpdateInfoView>,
    ChangelogError,
> {
    match run {
        ToolRunView::NotStarted => Err(ChangelogError::Launch),
        ToolRunView::Output(bytes) => if valid_utf8(bytes) {
            Ok(classified(pkg, decode_utf8(bytes)))
        } else {
            Err(ChangelogError::Encoding)
        },
    }
}

/// A changelog tool that wrote nothing is no error: there are no sections,
/// so nothing is urgent.
pub proof fn lemma_empty_changelog_is_no_error(pkg: PkgInfoView)
    ensures
        update_info_of(pkg, ToolRunView::Output(Seq::empty())) == Ok::<
            Option<UpdateInfoView>,
            ChangelogError,
        >(None),
{
    let bytes = Seq::<u8>::empty();
    assert(valid_utf8(bytes));
    assert(decode_utf8(bytes).len() == 0);
    assert(text_lines(decode_utf8(bytes)).len() == 0);
}

/// Looks in what the changelog tool gave for the package `pkg_info` for
/// urgent sections that are newer than the installed version. Output of no
/// length is no error: it has no sections.
pub fn get_urgent_update_info(pkg_info: &PkgInfo, run: ToolRun) -> (update: Result<
    Option<UpdateInfo>,
    ChangelogError,
>)
    ensures
        match update {
            Ok(Some(u)) => update_info_of(pkg_info@, run@) == Ok::<
                Option<UpdateInfoView>,
                ChangelogError,
            >(Some(u@)) && u.wf(),
            Ok(None) => update_info_of(pkg_info@, run@) == Ok::<
                Option<UpdateInfoView>,
                ChangelogError,
            >(None),
            Err(e) => update_info_of(pkg_info@, run@) == Err::<
                Option<UpdateInfoView>,
                ChangelogError,
            >(e),
        },
{
    match run {
        ToolRun::NotStarted => Err(ChangelogError::Launch),
        ToolRun::Output(bytes) => match decode_text(bytes) {
            None => Err(ChangelogError::Encoding),
            Some(text) => Ok(classify(pkg_info, text.as_str())),
        },
    }
}

/// The line that names the installed version: its first token is the key
/// `Version:`.
pub open spec fn version_line(line: Seq<char>) -> bool {
    tokens(line).len() > 0 && tokens(line)[0] == "Version:"@
}

/// The first of `lines` that is a version line.
pub open spec fn first_version_line(lines: Seq<Seq<char>>) -> Option<Seq<char>>
    decreases lines.len(),
{
    if lines.len() == 0 {
        None
    } else if version_line(lines[0]) {
        Some(lines[0])
    } else {
        first_version_line(lines.skip(1))
    }
}

/// The installed version that the output `output` of the package database
/// query names: the token that follows the key on the first version line.
/// It is an error that no line has the key, and another that no token
/// follows it.
pub open spec fn version_field(output: Seq<char>) -> Result<Seq<char>, ProbeError> {
    match first_version_line(text_lines(output)) {
        None => Err(ProbeError::NoVersionLine),
        Some(line) => if tokens(line).len() > 1 {
            Ok(tokens(line)[1])
        } else {
            Err(ProbeError::NoValue)
        },
    }
}

/// What `first_version_line` finds is one of the lines, and a version line.
pub proof fn lemma_first_version_line(lines: Seq<Seq<char>>)
    ensures
        first_version_line(lines) matches Some(line) ==> lines.contains(line) && version_line(
            line,
        ),
    decreases lines.len(),
{
    if lines.len() > 0 {
        if version_line(lines[0]) {
            assert(lines[0] == first_version_line(lines)->0);
        } else {
            lemma_first_version_line(lines.skip(1));
            if first_version_line(lines) is Some {
                let line = first_version_line(lines)->0;
                let i = choose|i: int| 0 <= i < lines.skip(1).len() && lines.skip(1)[i] == line;
                assert(lines[i + 1] == line);
            }
        }
    }
}

/// A version that was found follows the key `Version:` on a line of the
/// output, is not empty and holds no whitespace.
pub proof fn lemma_version_is_a_token(output: Seq<char>)
    ensures
        version_field(output) matches Ok(version) ==> {
            &&& version.len() > 0
            &&& forall|k: int| 0 <= k < version.len() ==> !whitespace(#[trigger] version[k])
            &&& exists|line: Seq<char>| #[trigger]
                text_lines(output).contains(line) && version_line(line) && tokens(line).len() > 1
                    && tokens(line)[1] == version
        },
{
    if let Ok(version) = version_field(output) {
        let line = first_version_line(text_lines(output))->0;
        lemma_first_version_line(text_lines(output));
        lemma_tokens_not_empty(line, 1);
        assert forall|k: int| 0 <= k < version.len() implies !whitespace(
            #[trigger] version[k],
        ) by {
            lemma_tokens_hold_no_whitespace(line, 1, k);
        }
        assert(text_lines(output).contains(line));
    }
}

/// Reads the installed version from the text that the package database
/// query wrote.
pub fn parse_version(output: &str) -> (version: Result<String, ProbeError>)
    ensures
        match version {
            Ok(v) => version_field(output@) == Ok::<Seq<char>, ProbeError>(v@) && v@.len() > 0,
            Err(e) => version_field(output@) == Err::<Seq<char>, ProbeError>(e),
        },
{
    let key = chars_of("Version:");
    let text = chars_of(output);
    let lines = split_lines(&text);
    let ghost all = rows(lines@);
    let mut i: usize = 0;
    assert(all.skip(0) =~= all);
    while i < lines.len()
        invariant
            i <= lines.len(),
            all == rows(lines@),
            all == text_lines(output@),
            key@ == "Version:"@,
            first_version_line(all.skip(i as int)) == first_version_line(all),
        decreases lines.len() - i,
    {
        let found = split_whitespace(&lines[i]);
        let ghost line = lines@[i as int]@;
        assert(all.skip(i as int)[0] == line);
        assert(found.len() > 0 ==> rows(found@)[0] == found@[0]@);
        if found.len() > 0 && same_chars(&found[0], &key) {
            assert(version_line(line));
            if found.len() > 1 {
                proof {
                    assert(rows(found@)[1] == found@[1]@);
                    lemma_tokens_not_empty(line, 1);
                }
                return Ok(string_of(&found[1]));
            }
            return Err(ProbeError::NoValue);
        }
        assert(all.skip(i as int).skip(1) =~= all.skip(i + 1));
        i += 1;
    }
    Err(ProbeError::NoVersionLine)
}

/// The installed version that a run of the package database query gives.
pub open spec fn probed_version(run: ToolRunView) -> Result<Seq<char>, ProbeError> {
    match run {
        ToolRunView::NotStarted => Err(ProbeError::Launch),
        ToolRunView::Output(bytes) => if valid_utf8(bytes) {
            version_field(decode_utf8(bytes))
        } else {
            Err(ProbeError::Encoding)
        },
    }
}

/// The installed version of a package, from what the package database query
/// for it gave.
pub fn get_pkg_version(run: ToolRun) -> (version: Result<String, ProbeError>)
    ensures
        match version {
            Ok(v) => probed_version(run@) == Ok::<Seq<char>, ProbeError>(v@) && v@.len() > 0,
            Err(e) => probed_version(run@) == Err::<Seq<char>, ProbeError>(e),
        },
{
    match run {
        ToolRun::NotStarted => Err(ProbeError::Launch),
        ToolRun::Output(bytes) => match decode_text(bytes) {
            None => Err(ProbeError::Encoding),
            Some(text) => parse_version(text.as_str()),
        },
    }
}

/// The views of the elements of a vector of strings.
pub open spec fn string_views(v: Seq<String>) -> Seq<Seq<char>> {
    Seq::new(v.len(), |i: int| v[i]@)
}

/// The package names that the text of the pending-reboot file lists: its
/// lines that are not empty, in their order. A name that occurs twice is
/// listed twice.
pub open spec fn pending_names(text: Seq<char>) -> Seq<Seq<char>> {
    text_lines(text).filter(|line: Seq<char>| line.len() > 0)
}

/// The packages that wait for a reboot, from what came of reading the file
/// that lists them. That there is no such file means that none waits.
pub open spec fn pending_packages(file: FileReadView) -> Result<Seq<Seq<char>>, ScanErrorView> {
    match file {
        FileReadView::Content(text) => Ok(pending_names(text)),
        FileReadView::NotFound => Ok(Seq::empty()),
        FileReadView::OpenFailed(reason) => Err(ScanErrorView::Open(reason)),
        FileReadView::ReadFailed => Err(ScanErrorView::Read),
    }
}

/// Every name that the file lists is a line of it, and none is empty.
pub proof fn lemma_pending_names_are_lines(text: Seq<char>, i: int)
    requires
        0 <= i < pending_names(text).len(),
    ensures
        pending_names(text)[i].len() > 0,
        text_lines(text).contains(pending_names(text)[i]),
{
    let named = |line: Seq<char>| line.len() > 0;
    text_lines(text).lemma_filter_pred(named, i);
    let name = pending_names(text)[i];
    assert(pending_names(text).contains(name));
    text_lines(text).lemma_filter_contains_rev(named, name);
}

/// A file that is absent or empty lists no package, and is no error.
pub proof fn lemma_nothing_pending(file: FileReadView)
    requires
        file is NotFound || (file matches FileReadView::Content(text) && text.len() == 0),
    ensures
        pending_packages(file) == Ok::<Seq<Seq<char>>, ScanErrorView>(Seq::empty()),
{
    reveal(Seq::filter);
    if let FileReadView::Content(text) = file {
        assert(text_lines(text).len() == 0);
        assert(pending_names(text) =~= Seq::<Seq<char>>::empty());
    }
}

/// The names of the packages that wait for a reboot, from what came of
/// reading the file that lists them.
pub fn get_reboot_required_pkgs(file: &FileRead) -> (pkgs: Result<Vec<String>, ScanError>)
    ensures
        match pkgs {
            Ok(names) => pending_packages(file@) == Ok::<Seq<Seq<char>>, ScanErrorView>(
                string_views(names@),
            ),
            Err(e) => pending_packages(file@) == Err::<Seq<Seq<char>>, ScanErrorView>(e@),
        },
        file@ is NotFound || (file@ matches FileReadView::Content(text) && text.len() == 0) ==> (
        pkgs matches Ok(names) && names@.len() == 0),
{
    proof {
        if file@ is NotFound || (file@ matches FileReadView::Content(text) && text.len() == 0) {
            lemma_nothing_pending(file@);
        }
    }
    match file {
        FileRead::NotFound => {
            let names: Vec<String> = Vec::new();
            assert(string_views(names@) =~= Seq::<Seq<char>>::empty());
            Ok(names)
        },
        FileRead::OpenFailed(reason) => Err(ScanError::Open(reason.clone())),
        FileRead::ReadFailed => Err(ScanError::Read),
        FileRead::Content(content) => {
            let text = chars_of(content.as_str());
            let lines = split_lines(&text);
            let ghost all = rows(lines@);
            let ghost named = |line: Seq<char>| line.len() > 0;
            let mut names: Vec<String> = Vec::new();
            let mut i: usize = 0;
            proof {
                reveal(Seq::filter);
                assert(string_views(names@) =~= all.take(0).filter(named));
            }
            while i < lines.len()
                invariant
                    i <= lines.len(),
                    all == rows(lines@),
                    named == |line: Seq<char>| line.len() > 0,
                    string_views(names@) == all.take(i as int).filter(named),
                decreases lines.len() - i,
            {
                let ghost before = string_views(names@);
                proof {
                    assert(all.take(i + 1) =~= all.take(i as int).push(lines@[i as int]@));
                    all.take(i as int).lemma_filter_push(lines@[i as int]@, named);
                }
                if lines[i].len() > 0 {
                    names.push(string_of(&lines[i]));
                    assert(string_views(names@) =~= before.push(lines@[i as int]@));
                }
                i += 1;
            }
            assert(all.take(i as int) =~= all);
            Ok(names)
        },
    }
}

/// The release information names Ubuntu.
pub open spec fn names_ubuntu(content: Seq<char>) -> bool {
    has_substring(content, "Ubuntu"@)
}

/// Whether the release information `content` names Ubuntu.
pub fn contains_ubuntu(content: &str) -> (found: bool)
    ensures
        found == names_ubuntu(content@),
{
    contains(&chars_of(content), &chars_of("Ubuntu"))
}

/// A host is of the Ubuntu family where the marker file of the Debian family
/// is present and the release information could be read and names Ubuntu.
pub open spec fn ubuntu_host(debian_marker: bool, release: FileReadView) -> bool {
    debian_marker && (release matches FileReadView::Content(text) && names_ubuntu(text))
}

/// Whether the host is of the Ubuntu family, from whether the marker file of
/// the Debian family is present and what came of reading the release
/// information. Release information that could not be read counts as absent.
pub fn is_ubuntu(debian_marker: bool, release: &FileRead) -> (found: bool)
    ensures
        found == ubuntu_host(debian_marker, release@),
{
    if !debian_marker {
        return false;
    }
    match release {
        FileRead::Content(text) => contains_ubuntu(text.as_str()),
        _ => false,
    }
}

/// How far a check has gone through the packages that wait for a reboot.
#[derive(Debug, PartialEq, Eq)]
pub struct Progress {
    /// The packages that wait, in the order of the file that lists them.
    pub names: Vec<String>,
    /// The position in `names` of the package that is looked at next.
    pub next: usize,
    /// The packages before `next` with urgent changes.
    pub found: Vec<UpdateInfo>,
    /// The packages before `next` that had to be left out.
    pub skipped: Vec<Skipped>,
}

/// What a `Progress` holds, as sequences.
pub struct ProgressView {
    pub names: Seq<Seq<char>>,
    pub next: int,
    pub found: Seq<UpdateInfoView>,
    pub skipped: Seq<SkippedView>,
}

impl View for Progress {
    type V = ProgressView;

    open spec fn view(&self) -> ProgressView {
        ProgressView {
            names: string_views(self.names@),
            next: self.next as int,
            found: update_views(self.found@),
            skipped: skipped_views(self.skipped@),
        }
    }
}

impl ProgressView {
    /// A package is left to look at.
    pub open spec fn unfinished(self) -> bool {
        0 <= self.next < self.names.len()
    }

    /// The package that is looked at next.
    pub open spec fn current(self) -> Seq<char> {
        self.names[self.next]
    }

    /// The progress after the current package turned out to have no urgent changes.
    pub open spec fn passed(self) -> ProgressView {
        ProgressView { next: self.next + 1, ..self }
    }

    /// The progress after the current package turned out to have the urgent
    /// changes `update`.
    pub open spec fn kept(self, update: UpdateInfoView) -> ProgressView {
        ProgressView { next: self.next + 1, found: self.found.push(update), ..self }
    }

    /// The progress after the current package had to be left out.
    pub open spec fn left_out(self, cause: Failure) -> ProgressView {
        ProgressView {
            next: self.next + 1,
            skipped: self.skipped.push(SkippedView { name: self.current(), cause }),
            ..self
        }
    }

    /// What a check that went through all packages reports.
    pub open spec fn report(self) -> ReportView {
        ReportView { result: CheckResultView::Applicable(self.found), skipped: self.skipped }
    }
}

/// Where a check of a host of the Ubuntu family stands.
#[derive(Debug, PartialEq, Eq)]
pub enum UpdateScan {
    /// It waits for the file that lists the packages that wait for a reboot.
    AwaitPending,
    /// It waits for the package database query for the current package.
    AwaitVersion(Progress),
    /// It waits for the changelog of the current package, of which the
    /// given version is installed.
    AwaitChangelog(Progress, String),
    /// It has ended: with a report, or because the list of packages could
    /// not be had.
    Finished(Result<Report, ScanError>),
}

/// What an `UpdateScan` holds, as sequences.
pub enum UpdateScanView {
    AwaitPending,
    AwaitVersion(ProgressView),
    AwaitChangelog(ProgressView, Seq<char>),
    Finished(Result<ReportView, ScanErrorView>),
}

/// The view of how a check ended.
pub open spec fn outcome_view(outcome: Result<Report, ScanError>) -> Result<
    ReportView,
    ScanErrorView,
> {
    match outcome {
        Ok(report) => Ok(report@),
        Err(e) => Err(e@),
    }
}

impl View for UpdateScan {
    type V = UpdateScanView;

    open spec fn view(&self) -> UpdateScanView {
        match self {
            UpdateScan::AwaitPending => UpdateScanView::AwaitPending,
            UpdateScan::AwaitVersion(progress) => UpdateScanView::AwaitVersion(progress@),
            UpdateScan::AwaitChangelog(progress, version) => UpdateScanView::AwaitChangelog(
                progress@,
                version@,
            ),
            UpdateScan::Finished(outcome) => UpdateScanView::Finished(outcome_view(*outcome)),
        }
    }
}

impl UpdateScanView {
    /// What the check asks of the host in this state: nothing once it has ended.
    pub open spec fn wanted(self) -> Option<RequestView> {
        match self {
            UpdateScanView::AwaitPending => Some(RequestView::ReadPendingPackages),
            UpdateScanView::AwaitVersion(progress) => if progress.unfinished() {
                Some(RequestView::QueryVersion(progress.current()))
            } else {
                None
            },
            UpdateScanView::AwaitChangelog(progress, _) => if progress.unfinished() {
                Some(RequestView::FetchChangelog(progress.current()))
            } else {
                None
            },
            UpdateScanView::Finished(_) => None,
        }
    }
}

/// The state in which a check goes on after `progress`: it turns to the
/// next package, or ends with its report when none is left.
pub open spec fn onward(progress: ProgressView) -> UpdateScanView {
    if progress.unfinished() {
        UpdateScanView::AwaitVersion(progress)
    } else {
        UpdateScanView::Finished(Ok(progress.report()))
    }
}

/// The state that follows `scan` when the host answers `reply`.
///
/// The list of packages that could not be had ends the check with that
/// error. A package whose installed version or whose changelog could not be
/// had is left out, with the cause, and the check goes on with the next
/// one. An answer that the state did not ask for changes nothing.
pub open spec fn scan_step(scan: UpdateScanView, reply: ReplyView) -> UpdateScanView {
    match (scan, reply) {
        (UpdateScanView::AwaitPending, ReplyView::File(file)) => match pending_packages(file) {
            Err(e) => UpdateScanView::Finished(Err(e)),
            Ok(names) => onward(
                ProgressView { names, next: 0, found: Seq::empty(), skipped: Seq::empty() },
            ),
        },
        (UpdateScanView::AwaitVersion(progress), ReplyView::Tool(run)) => if !progress.unfinished() {
            onward(progress)
        } else {
            match probed_version(run) {
                Err(e) => onward(progress.left_out(Failure::Probe(e))),
                Ok(version) => UpdateScanView::AwaitChangelog(progress, version),
            }
        },
        (UpdateScanView::AwaitChangelog(progress, version), ReplyView::Tool(run)) => if !progress.unfinished() {
            onward(progress)
        } else {
            match update_info_of(
                PkgInfoView { name: progress.current(), current_version: version },
                run,
            ) {
                Err(e) => onward(progress.left_out(Failure::Changelog(e))),
                Ok(None) => onward(progress.passed()),
                Ok(Some(update)) => onward(progress.kept(update)),
            }
        },
        _ => scan,
    }
}

impl UpdateScan {
    /// What the check asks of the host in this state.
    pub fn request(&self) -> (request: Option<Request>)
        ensures
            wanted_view(request) == self@.wanted(),
    {
        match self {
            UpdateScan::AwaitPending => Some(Request::ReadPendingPackages),
            UpdateScan::AwaitVersion(progress) => if progress.next < progress.names.len() {
                Some(Request::QueryVersion(progress.names[progress.next].clone()))
            } else {
                None
            },
            UpdateScan::AwaitChangelog(progress, _) => if progress.next < progress.names.len() {
                Some(Request::FetchChangelog(progress.names[progress.next].clone()))
            } else {
                None
            },
            UpdateScan::Finished(_) => None,
        }
    }
}

/// Goes on after `progress`: to the next package, or to the end.
fn go_on(progress: Progress) -> (scan: UpdateScan)
    ensures
        scan@ == onward(progress@),
{
    if progress.next < progress.names.len() {
        UpdateScan::AwaitVersion(progress)
    } else {
        UpdateScan::Finished(
            Ok(Report { result: CheckResult::Applicable(progress.found), skipped: progress.skipped }),
        )
    }
}

/// Takes a check of a host of the Ubuntu family one step further: from the
/// state `scan` and the host's answer `reply` to the next state and to
/// what the check asks next. It asks nothing once it has ended.
pub fn get_urgent_updates(scan: UpdateScan, reply: Reply) -> (next: (UpdateScan, Option<Request>))
    ensures
        next.0@ == scan_step(scan@, reply@),
        wanted_view(next.1) == next.0@.wanted(),
{
    let state = match scan {
        UpdateScan::AwaitPending => match reply {
            Reply::File(file) => match get_reboot_required_pkgs(&file) {
                Err(e) => UpdateScan::Finished(Err(e)),
                Ok(names) => {
                    let progress = Progress {
                        names,
                        next: 0,
                        found: Vec::new(),
                        skipped: Vec::new(),
                    };
                    assert(progress@.found =~= Seq::empty());
                    assert(progress@.skipped =~= Seq::empty());
                    go_on(progress)
                },
            },
            _ => UpdateScan::AwaitPending,
        },
        UpdateScan::AwaitVersion(progress) => match reply {
            Reply::Tool(run) => if progress.next >= progress.names.len() {
                go_on(progress)
            } else {
                match get_pkg_version(run) {
                    Err(e) => go_on(leave_out(progress, Failure::Probe(e))),
                    Ok(version) => UpdateScan::AwaitChangelog(progress, version),
                }
            },
            _ => UpdateScan::AwaitVersion(progress),
        },
        UpdateScan::AwaitChangelog(progress, version) => match reply {
            Reply::Tool(run) => if progress.next >= progress.names.len() {
                go_on(progress)
            } else {
                let pkg_info = PkgInfo {
                    name: progress.names[progress.next].clone(),
                    current_version: version,
                };
                match get_urgent_update_info(&pkg_info, run) {
                    Err(e) => go_on(leave_out(progress, Failure::Changelog(e))),
                    Ok(None) => {
                        let Progress { names, next, found, skipped } = progress;
                        go_on(Progress { names, next: next + 1, found, skipped })
                    },
                    Ok(Some(update)) => {
                        let ghost before = progress@;
                        let Progress { names, next, mut found, skipped } = progress;
                        found.push(update);
                        let after = Progress { names, next: next + 1, found, skipped };
                        assert(after@.found =~= before.found.push(update@));
                        go_on(after)
                    },
                }
            },
            _ => UpdateScan::AwaitChangelog(progress, version),
        },
        UpdateScan::Finished(outcome) => UpdateScan::Finished(outcome),
    };
    let request = state.request();
    (state, request)
}

/// Leaves the current package out, for the given cause.
fn leave_out(progress: Progress, cause: Failure) -> (after: Progress)
    requires
        progress@.unfinished(),
    ensures
        after@ == progress@.left_out(cause),
{
    let ghost before = progress@;
    let Progress { names, next, found, mut skipped } = progress;
    assert(next < names.len());
    let entry = Skipped { name: names[next].clone(), cause };
    skipped.push(entry);
    let after = Progress { names, next: next + 1, found, skipped };
    assert(after@.skipped =~= before.skipped.push(
        SkippedView { name: before.current(), cause },
    ));
    after
}

} // verus!
