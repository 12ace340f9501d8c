//! What the interface and its background worker hand each other: the
//! requests the interface sends, the reports the worker answers with, and
//! the repository data those carry.
use crate::files::RepoEntry;
use crate::text::concat3;
use vstd::prelude::*;

verus! {

/// The tabs of the main area.
#[derive(Clone, Copy, Debug, PartialEq, Eq, Structural)]
pub enum AppTab {
    Browser,
    Releases,
    Search,
    Settings,
}

/// The repository that is open: where it lives and which branch is shown.
#[derive(Clone, Debug)]
pub struct RepoLocation {
    pub owner: String,
    pub repo: String,
    pub branch: String,
    pub host: String,
}

impl RepoLocation {
    /// The repository's web page: `https://{host}/{owner}/{repo}`.
    pub fn web_url(&self) -> (url: String)
        ensures
            url@ == "https://"@ + self.host@ + "/"@ + self.owner@ + "/"@ + self.repo@,
    {
        let mut url = concat3("https://", self.host.as_str(), "/");
        url.append(self.owner.as_str());
        url.append("/");
        url.append(self.repo.as_str());
        url
    }
}

/// A file attached to a release.
#[derive(Clone, Debug)]
pub struct ReleaseAsset {
    pub name: String,
    pub size: u64,
    pub download_url: String,
}

/// A release of the open repository, with its notes where it has any.
#[derive(Clone, Debug)]
pub struct Release {
    pub tag_name: String,
    pub prerelease: bool,
    pub draft: bool,
    pub notes: Option<String>,
    pub assets: Vec<ReleaseAsset>,
}

/// A repository found by a search.
#[derive(Clone, Debug)]
pub struct SearchHit {
    pub full_name: String,
    pub html_url: String,
    pub description: Option<String>,
    pub language: Option<String>,
    pub stargazers_count: u64,
}

/// A request from the interface to the background worker. Downloads name
/// their entries by key; the destination folder is added by the sender.
#[derive(Debug)]
pub enum GuiCommand {
    LoadRepo { url: String, token: Option<String> },
    NavigateTo { path: String },
    FetchFilePreview { path: String },
    FetchReleases,
    SearchRepositories { query: String },
    DownloadBatch { keys: Vec<usize>, token: Option<String>, jobs: usize },
    DownloadReleaseAsset { name: String, download_url: String, token: Option<String> },
}

/// A report from the background worker. `dest` of a finished download is
/// the destination path as the debug formatter writes it.
#[derive(Debug)]
pub enum WorkerEvent {
    RepoLoaded { location: RepoLocation, items: Vec<RepoEntry> },
    FolderLoaded { path: String, items: Vec<RepoEntry> },
    FilePreviewLoaded { content: String },
    ReleasesLoaded(Vec<Release>),
    SearchResultsLoaded(Vec<SearchHit>),
    DownloadProgress { message: String, completed: usize, total: usize },
    DownloadFinished { dest: String, count: usize, errors: Vec<String> },
    Error(String),
}

/// The last status message: its text and whether it reports a failure.
#[derive(Clone, Debug)]
pub struct StatusMessage {
    pub text: String,
    pub is_error: bool,
}

/// How far the running download has come.
#[derive(Clone, Debug)]
pub struct DownloadProgress {
    pub completed: usize,
    pub total: usize,
    pub message: String,
}

/// What the GitHub command-line tool answered when asked for its token.
#[derive(Clone, Debug)]
pub enum CliTokenReply {
    /// It ran and reported failure.
    Failed,
    /// It ran and succeeded; its standard output, read as text.
    Succeeded(String),
}

/// How the size column of a listing row reads.
#[derive(Clone, Copy, Debug, PartialEq, Eq, Structural)]
pub enum SizeLabel {
    /// The size in bytes, shown in a human unit.
    Bytes(u64),
    Folder,
    Lfs,
    Nothing,
}

} // verus!
