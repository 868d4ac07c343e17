//! What a check learns from the host it runs on: the questions it asks and
//! the answers it is given. Reading files and running tools is left to the
//! caller; the values here carry what was found.

use vstd::prelude::*;
use vstd::string::StringExecFns;

verus! {

/// What came of reading a file.
#[derive(Debug, PartialEq, Eq)]
pub enum FileRead {
    /// The file was read; this is its text.
    Content(String),
    /// There is no such file.
    NotFound,
    /// The file could not be opened, for the named reason.
    OpenFailed(String),
    /// The file was opened, but its content could not be read as text.
    ReadFailed,
}

/// What a `FileRead` holds, as sequences of characters.
pub enum FileReadView {
    Content(Seq<char>),
    NotFound,
    OpenFailed(Seq<char>),
    ReadFailed,
}

impl View for FileRead {
    type V = FileReadView;

    open spec fn view(&self) -> FileReadView {
        match self {
            FileRead::Content(text) => FileReadView::Content(text@),
            FileRead::NotFound => FileReadView::NotFound,
            FileRead::OpenFailed(reason) => FileReadView::OpenFailed(reason@),
            FileRead::ReadFailed => FileReadView::ReadFailed,
        }
    }
}

/// What came of running a tool.
#[derive(Debug, PartialEq, Eq)]
pub enum ToolRun {
    /// The tool ran; these are the bytes it wrote to its standard output.
    Output(Vec<u8>),
    /// The tool could not be started.
    NotStarted,
}

/// What a `ToolRun` holds, as a sequence of bytes.
pub enum ToolRunView {
    Output(Seq<u8>),
    NotStarted,
}

impl View for ToolRun {
    type V = ToolRunView;

    open spec fn view(&self) -> ToolRunView {
        match self {
            ToolRun::Output(bytes) => ToolRunView::Output(bytes@),
            ToolRun::NotStarted => ToolRunView::NotStarted,
        }
    }
}

/// Why the list of packages that wait for a reboot could not be had.
#[derive(Debug, PartialEq, Eq)]
pub enum ScanError {
    /// The file exists but could not be opened, for the named reason.
    Open(String),
    /// The file was opened, but its content could not be read.
    Read,
}

/// What a `ScanError` holds, as sequences of characters.
pub enum ScanErrorView {
    Open(Seq<char>),
    Read,
}

impl View for ScanError {
    type V = ScanErrorView;

    open spec fn view(&self) -> ScanErrorView {
        match self {
            ScanError::Open(reason) => ScanErrorView::Open(reason@),
            ScanError::Read => ScanErrorView::Read,
        }
    }
}

/// Why the installed version of a package could not be had.
#[derive(Clone, Copy, Debug, PartialEq, Eq, Structural)]
pub enum ProbeError {
    /// The package database query could not be started.
    Launch,
    /// The query's output is not valid UTF-8.
    Encoding,
    /// No line of the output names the version.
    NoVersionLine,
    /// The version line holds no value.
    NoValue,
}

/// Why the changelog of a package could not be had.
#[derive(Clone, Copy, Debug, PartialEq, Eq, Structural)]
pub enum ChangelogError {
    /// The changelog tool could not be started.
    Launch,
    /// The tool's output is not valid UTF-8.
    Encoding,
}

/// Why a package was left out of a check.
#[derive(Clone, Copy, Debug, PartialEq, Eq, Structural)]
pub enum Failure {
    /// Its installed version could not be had.
    Probe(ProbeError),
    /// Its changelog could not be had.
    Changelog(ChangelogError),
}

/// What `ScanError::message` says of an error.
pub open spec fn scan_message(e: ScanErrorView) -> Seq<char> {
    match e {
        ScanErrorView::Open(reason) => reason,
        ScanErrorView::Read => "Cannot read content from"@,
    }
}

/// What `ProbeError::message` says of an error with the package `name`.
pub open spec fn probe_message(e: ProbeError, name: Seq<char>) -> Seq<char> {
    match e {
        ProbeError::Launch => "Cannot get "@ + name + "'s version"@,
        ProbeError::Encoding => "Cannot convert output into utf8 format"@,
        ProbeError::NoVersionLine => "Cannot find "@ + name + "'s version from dpkg"@,
        ProbeError::NoValue => "Cannot extract "@ + name + "'s version from dpkg"@,
    }
}

/// What `ChangelogError::message` says of an error.
pub open spec fn changelog_message(e: ChangelogError) -> Seq<char> {
    match e {
        ChangelogError::Launch => "Cannot execute apt command."@,
        ChangelogError::Encoding => "Cannot convert output into utf8 format"@,
    }
}

/// What `Failure::message` says of a failure with the package `name`.
pub open spec fn failure_message(failure: Failure, name: Seq<char>) -> Seq<char> {
    match failure {
        Failure::Probe(e) => probe_message(e, name),
        Failure::Changelog(e) => changelog_message(e),
    }
}

impl ScanError {
    /// The error in words: the reason for which the file could not be
    /// opened, or that it could not be read.
    pub fn message(&self) -> (text: String)
        ensures
            text@ == scan_message(self@),
    {
        match self {
            ScanError::Open(reason) => reason.clone(),
            ScanError::Read => String::from_str("Cannot read content from"),
        }
    }
}

impl ProbeError {
    /// The error in words, for the package `name`.
    pub fn message(&self, name: &str) -> (text: String)
        ensures
            text@ == probe_message(*self, name@),
    {
        match self {
            ProbeError::Launch => String::from_str("Cannot get ").concat(name).concat(
                "'s version",
            ),
            ProbeError::Encoding => String::from_str("Cannot convert output into utf8 format"),
            ProbeError::NoVersionLine => String::from_str("Cannot find ").concat(name).concat(
                "'s version from dpkg",
            ),
            ProbeError::NoValue => String::from_str("Cannot extract ").concat(name).concat(
                "'s version from dpkg",
            ),
        }
    }
}

impl ChangelogError {
    /// The error in words.
    pub fn message(&self) -> (text: String)
        ensures
            text@ == changelog_message(*self),
    {
        match self {
            ChangelogError::Launch => String::from_str("Cannot execute apt command."),
            ChangelogError::Encoding => String::from_str("Cannot convert output into utf8 format"),
        }
    }
}

impl Failure {
    /// The failure in words, for the package `name`.
    pub fn message(&self, name: &str) -> (text: String)
        ensures
            text@ == failure_message(*self, name@),
    {
        match self {
            Failure::Probe(e) => e.message(name),
            Failure::Changelog(e) => e.message(),
        }
    }
}

/// What a check asks of the host.
#[derive(Debug, PartialEq, Eq)]
pub enum Request {
    /// Is the marker file of the Debian family present? Answered by `Reply::Marker`.
    ProbeDebianMarker,
    /// Read the release information. Answered by `Reply::File`.
    ReadReleaseInfo,
    /// Read the file that lists the packages that wait for a reboot.
    /// Answered by `Reply::File`.
    ReadPendingPackages,
    /// Run the package database query for the named package. Answered by `Reply::Tool`.
    QueryVersion(String),
    /// Run the changelog tool for the named package. Answered by `Reply::Tool`.
    FetchChangelog(String),
}

/// What a `Request` holds, as sequences of characters.
pub enum RequestView {
    ProbeDebianMarker,
    ReadReleaseInfo,
    ReadPendingPackages,
    QueryVersion(Seq<char>),
    FetchChangelog(Seq<char>),
}

impl View for Request {
    type V = RequestView;

    open spec fn view(&self) -> RequestView {
        match self {
            Request::ProbeDebianMarker => RequestView::ProbeDebianMarker,
            Request::ReadReleaseInfo => RequestView::ReadReleaseInfo,
            Request::ReadPendingPackages => RequestView::ReadPendingPackages,
            Request::QueryVersion(name) => RequestView::QueryVersion(name@),
            Request::FetchChangelog(name) => RequestView::FetchChangelog(name@),
        }
    }
}

/// The view of a request that may be absent.
pub open spec fn wanted_view(request: Option<Request>) -> Option<RequestView> {
    match request {
        Some(r) => Some(r@),
        None => None,
    }
}

/// What the host answers.
#[derive(Debug, PartialEq, Eq)]
pub enum Reply {
    /// Whether a marker file is present.
    Marker(bool),
    /// What came of reading a file.
    File(FileRead),
    /// What came of running a tool.
    Tool(ToolRun),
}

/// What a `Reply` holds, as sequences.
pub enum ReplyView {
    Marker(bool),
    File(FileReadView),
    Tool(ToolRunView),
}

impl View for Reply {
    type V = ReplyView;

    open spec fn view(&self) -> ReplyView {
        match self {
            Reply::Marker(present) => ReplyView::Marker(*present),
            Reply::File(file) => ReplyView::File(file@),
            Reply::Tool(run) => ReplyView::Tool(run@),
        }
    }
}

} // verus!
