//! The background worker's decisions: whether a request can run without an
//! open repository, and which report each outcome of a request gives. The
//! worker performs the network and disk steps and hands their outcome here,
//! errors as their text.
use crate::model::{GuiCommand, Release, SearchHit, WorkerEvent};
use crate::text::{concat2, concat3, owned};
use vstd::prelude::*;

verus! {

/// Whether a request works on the open repository.
pub open spec fn needs_open_repo(cmd: GuiCommand) -> bool {
    ||| cmd is NavigateTo
    ||| cmd is FetchFilePreview
    ||| cmd is FetchReleases
}

/// What the worker does with a request.
#[derive(Debug)]
pub enum JobGate {
    /// Carry it out.
    Run,
    /// Drop it without a report.
    Ignore,
    /// Drop it with this report.
    Refuse(WorkerEvent),
}

/// Whether a request runs, given whether a repository is open: requests on
/// the open repository need one; without it, fetching releases is refused
/// with "No repository currently loaded." and the others are dropped
/// silently.
pub fn job_gate(cmd: &GuiCommand, repo_open: bool) -> (gate: JobGate)
    ensures
        !needs_open_repo(*cmd) || repo_open ==> gate is Run,
        needs_open_repo(*cmd) && !repo_open && cmd is FetchReleases ==> (gate matches JobGate::Refuse(
            WorkerEvent::Error(m),
        ) && m@ == "No repository currently loaded."@),
        needs_open_repo(*cmd) && !repo_open && !(cmd is FetchReleases) ==> gate is Ignore,
{
    match cmd {
        GuiCommand::NavigateTo { .. } | GuiCommand::FetchFilePreview { .. } => {
            if repo_open {
                JobGate::Run
            } else {
                JobGate::Ignore
            }
        },
        GuiCommand::FetchReleases => {
            if repo_open {
                JobGate::Run
            } else {
                JobGate::Refuse(WorkerEvent::Error(owned("No repository currently loaded.")))
            }
        },
        _ => JobGate::Run,
    }
}

/// The step at which loading a repository failed.
#[derive(Clone, Copy, Debug, PartialEq, Eq, Structural)]
pub enum LoadFailure {
    /// The address could not be read as a repository.
    InvalidUrl,
    /// No client could be made for it.
    ClientSetup,
    /// Its listing could not be fetched.
    Fetch,
}

/// The words that open the report of a failed load.
pub open spec fn load_failure_prefix(stage: LoadFailure) -> Seq<char> {
    match stage {
        LoadFailure::InvalidUrl => "Invalid repository URL: "@,
        LoadFailure::ClientSetup => "Failed to initialize GitHub client: "@,
        LoadFailure::Fetch => "Failed to fetch repository contents: "@,
    }
}

/// The report of a load that failed at `stage` with error `detail`.
pub fn load_failed(stage: LoadFailure, detail: &str) -> (e: WorkerEvent)
    ensures
        e matches WorkerEvent::Error(m) && m@ == load_failure_prefix(stage) + detail@,
{
    let prefix = match stage {
        LoadFailure::InvalidUrl => "Invalid repository URL: ",
        LoadFailure::ClientSetup => "Failed to initialize GitHub client: ",
        LoadFailure::Fetch => "Failed to fetch repository contents: ",
    };
    WorkerEvent::Error(concat2(prefix, detail))
}

/// The report of a folder that could not be opened.
pub fn folder_failed(detail: &str) -> (e: WorkerEvent)
    ensures
        e matches WorkerEvent::Error(m) && m@ == "Failed to open folder: "@ + detail@,
{
    WorkerEvent::Error(concat2("Failed to open folder: ", detail))
}

/// The report of a preview: the file's text, or a note in its place saying
/// why it could not be loaded.
pub fn preview_report(result: Result<String, String>) -> (e: WorkerEvent)
    ensures
        match result {
            Ok(content) => e == WorkerEvent::FilePreviewLoaded { content },
            Err(detail) => e matches WorkerEvent::FilePreviewLoaded { content } && content@
                == "[Could not load preview: "@ + detail@ + "]"@,
        },
{
    match result {
        Ok(content) => WorkerEvent::FilePreviewLoaded { content },
        Err(detail) => WorkerEvent::FilePreviewLoaded {
            content: concat3("[Could not load preview: ", detail.as_str(), "]"),
        },
    }
}

/// The report of a fetch of the releases.
pub fn releases_report(result: Result<Vec<Release>, String>) -> (e: WorkerEvent)
    ensures
        match result {
            Ok(releases) => e == WorkerEvent::ReleasesLoaded(releases),
            Err(detail) => e matches WorkerEvent::Error(m) && m@ == "Failed to fetch releases: "@
                + detail@,
        },
{
    match result {
        Ok(releases) => WorkerEvent::ReleasesLoaded(releases),
        Err(detail) => WorkerEvent::Error(concat2("Failed to fetch releases: ", detail.as_str())),
    }
}

/// The report of a repository search.
pub fn search_report(result: Result<Vec<SearchHit>, String>) -> (e: WorkerEvent)
    ensures
        match result {
            Ok(hits) => e == WorkerEvent::SearchResultsLoaded(hits),
            Err(detail) => e matches WorkerEvent::Error(m) && m@ == "Search failed: "@ + detail@,
        },
{
    match result {
        Ok(hits) => WorkerEvent::SearchResultsLoaded(hits),
        Err(detail) => WorkerEvent::Error(concat2("Search failed: ", detail.as_str())),
    }
}

/// The report when no client could be made for a download.
pub fn client_failed(detail: &str) -> (e: WorkerEvent)
    ensures
        e matches WorkerEvent::Error(m) && m@ == "Failed to initialize client: "@ + detail@,
{
    WorkerEvent::Error(concat2("Failed to initialize client: ", detail))
}

/// The report when no downloader could be made.
pub fn downloader_failed(detail: &str) -> (e: WorkerEvent)
    ensures
        e matches WorkerEvent::Error(m) && m@ == "Failed to create downloader: "@ + detail@,
{
    WorkerEvent::Error(concat2("Failed to create downloader: ", detail))
}

/// The report of one finished entry of a batch of `total`, after
/// `done_before` others.
pub fn progress_report(message: String, done_before: usize, total: usize) -> (e: WorkerEvent)
    requires
        done_before < usize::MAX,
    ensures
        e == (WorkerEvent::DownloadProgress {
            message,
            completed: (done_before + 1) as usize,
            total,
        }),
{
    WorkerEvent::DownloadProgress { message, completed: done_before + 1, total }
}

/// The report of a finished batch of `total` entries saved under `dest`:
/// the errors of the entries, or the one error that stopped the batch.
pub fn batch_finished(dest: String, total: usize, result: Result<Vec<String>, String>) -> (e:
    WorkerEvent)
    ensures
        e matches WorkerEvent::DownloadFinished { dest: d, count, errors } && d == dest && count
            == total && errors@ == (match result {
            Ok(errs) => errs@,
            Err(err) => seq![err],
        }),
{
    let errors = match result {
        Ok(errs) => errs,
        Err(err) => {
            let mut v: Vec<String> = Vec::new();
            v.push(err);
            v
        },
    };
    WorkerEvent::DownloadFinished { dest, count: total, errors }
}

/// The report that a release asset download starts.
pub fn asset_started(name: &str) -> (e: WorkerEvent)
    ensures
        e matches WorkerEvent::DownloadProgress { message, completed, total } && message@
            == "Downloading release asset: "@ + name@ && completed == 0 && total == 1,
{
    WorkerEvent::DownloadProgress {
        message: concat2("Downloading release asset: ", name),
        completed: 0,
        total: 1,
    }
}

/// How a release asset download ended. Paths are given as the debug
/// formatter writes them.
#[derive(Debug)]
pub enum AssetOutcome {
    /// The asset was saved as `target`.
    Written { target: String },
    /// It was fetched but could not be written into `dest`.
    WriteFailed { dest: String, detail: String },
    /// It could not be fetched.
    FetchFailed { dest: String, detail: String },
}

/// The report of a finished release asset download.
pub fn asset_finished(outcome: AssetOutcome) -> (e: WorkerEvent)
    ensures
        match outcome {
            AssetOutcome::Written { target } => e matches WorkerEvent::DownloadFinished {
                dest,
                count,
                errors,
            } && dest == target && count == 1 && errors@.len() == 0,
            AssetOutcome::WriteFailed { dest, detail } => e matches WorkerEvent::DownloadFinished {
                dest: d,
                count,
                errors,
            } && d == dest && count == 0 && errors@.len() == 1 && errors@[0]@
                == "Failed to write file: "@ + detail@,
            AssetOutcome::FetchFailed { dest, detail } => e matches WorkerEvent::DownloadFinished {
                dest: d,
                count,
                errors,
            } && d == dest && count == 0 && errors@.len() == 1 && errors@[0]@
                == "Failed to download asset: "@ + detail@,
        },
{
    match outcome {
        AssetOutcome::Written { target } => WorkerEvent::DownloadFinished {
            dest: target,
            count: 1,
            errors: Vec::new(),
        },
        AssetOutcome::WriteFailed { dest, detail } => {
            let mut errors: Vec<String> = Vec::new();
            errors.push(concat2("Failed to write file: ", detail.as_str()));
            WorkerEvent::DownloadFinished { dest, count: 0, errors }
        },
        AssetOutcome::FetchFailed { dest, detail } => {
            let mut errors: Vec<String> = Vec::new();
            errors.push(concat2("Failed to download asset: ", detail.as_str()));
            WorkerEvent::DownloadFinished { dest, count: 0, errors }
        },
    }
}

} // verus!
