use ghgrab_gui::jobs::{
    asset_finished, asset_started, batch_finished, client_failed, downloader_failed, folder_failed,
    job_gate, load_failed, preview_report, progress_report, releases_report, search_report,
    AssetOutcome, JobGate, LoadFailure,
};
use ghgrab_gui::model::{GuiCommand, WorkerEvent};

fn error_text(e: WorkerEvent) -> String {
    match e {
        WorkerEvent::Error(m) => m,
        other => panic!("unexpected {:?}", other),
    }
}

#[test]
fn requests_on_the_open_repository_need_one() {
    let nav = GuiCommand::NavigateTo { path: "src".to_string() };
    let preview = GuiCommand::FetchFilePreview { path: "a.rs".to_string() };
    assert!(matches!(job_gate(&nav, false), JobGate::Ignore));
    assert!(matches!(job_gate(&preview, false), JobGate::Ignore));
    match job_gate(&GuiCommand::FetchReleases, false) {
        JobGate::Refuse(e) => assert_eq!(error_text(e), "No repository currently loaded."),
        other => panic!("unexpected {:?}", other),
    }
    assert!(matches!(job_gate(&nav, true), JobGate::Run));
    assert!(matches!(job_gate(&GuiCommand::FetchReleases, true), JobGate::Run));
    let load = GuiCommand::LoadRepo { url: "x".to_string(), token: None };
    assert!(matches!(job_gate(&load, false), JobGate::Run));
    let search = GuiCommand::SearchRepositories { query: "q".to_string() };
    assert!(matches!(job_gate(&search, false), JobGate::Run));
}

#[test]
fn load_failures_name_their_step() {
    assert_eq!(error_text(load_failed(LoadFailure::InvalidUrl, "bad")), "Invalid repository URL: bad");
    assert_eq!(
        error_text(load_failed(LoadFailure::ClientSetup, "no tls")),
        "Failed to initialize GitHub client: no tls"
    );
    assert_eq!(
        error_text(load_failed(LoadFailure::Fetch, "404")),
        "Failed to fetch repository contents: 404"
    );
    assert_eq!(error_text(folder_failed("403")), "Failed to open folder: 403");
    assert_eq!(error_text(client_failed("x")), "Failed to initialize client: x");
    assert_eq!(error_text(downloader_failed("y")), "Failed to create downloader: y");
}

#[test]
fn preview_reports() {
    match preview_report(Ok("text".to_string())) {
        WorkerEvent::FilePreviewLoaded { content } => assert_eq!(content, "text"),
        other => panic!("unexpected {:?}", other),
    }
    match preview_report(Err("timeout".to_string())) {
        WorkerEvent::FilePreviewLoaded { content } => {
            assert_eq!(content, "[Could not load preview: timeout]")
        }
        other => panic!("unexpected {:?}", other),
    }
}

#[test]
fn release_and_search_reports() {
    assert!(matches!(releases_report(Ok(vec![])), WorkerEvent::ReleasesLoaded(r) if r.is_empty()));
    assert_eq!(error_text(releases_report(Err("e".to_string()))), "Failed to fetch releases: e");
    assert!(matches!(search_report(Ok(vec![])), WorkerEvent::SearchResultsLoaded(r) if r.is_empty()));
    assert_eq!(error_text(search_report(Err("rate".to_string()))), "Search failed: rate");
}

#[test]
fn batch_progress_and_end() {
    match progress_report("a.rs".to_string(), 2, 5) {
        WorkerEvent::DownloadProgress { message, completed, total } => {
            assert_eq!((message.as_str(), completed, total), ("a.rs", 3, 5))
        }
        other => panic!("unexpected {:?}", other),
    }
    match batch_finished("\"/d\"".to_string(), 4, Ok(vec!["x failed".to_string()])) {
        WorkerEvent::DownloadFinished { dest, count, errors } => {
            assert_eq!((dest.as_str(), count), ("\"/d\"", 4));
            assert_eq!(errors, vec!["x failed".to_string()]);
        }
        other => panic!("unexpected {:?}", other),
    }
    match batch_finished("\"/d\"".to_string(), 4, Err("disk full".to_string())) {
        WorkerEvent::DownloadFinished { count, errors, .. } => {
            assert_eq!(count, 4);
            assert_eq!(errors, vec!["disk full".to_string()]);
        }
        other => panic!("unexpected {:?}", other),
    }
}

#[test]
fn release_asset_reports() {
    match asset_started("tool.zip") {
        WorkerEvent::DownloadProgress { message, completed, total } => {
            assert_eq!((message.as_str(), completed, total), ("Downloading release asset: tool.zip", 0, 1))
        }
        other => panic!("unexpected {:?}", other),
    }
    match asset_finished(AssetOutcome::Written { target: "\"/d/tool.zip\"".to_string() }) {
        WorkerEvent::DownloadFinished { dest, count, errors } => {
            assert_eq!((dest.as_str(), count), ("\"/d/tool.zip\"", 1));
            assert!(errors.is_empty());
        }
        other => panic!("unexpected {:?}", other),
    }
    match asset_finished(AssetOutcome::WriteFailed { dest: "\"/d\"".to_string(), detail: "denied".to_string() }) {
        WorkerEvent::DownloadFinished { dest, count, errors } => {
            assert_eq!((dest.as_str(), count), ("\"/d\"", 0));
            assert_eq!(errors, vec!["Failed to write file: denied".to_string()]);
        }
        other => panic!("unexpected {:?}", other),
    }
    match asset_finished(AssetOutcome::FetchFailed { dest: "\"/d\"".to_string(), detail: "404".to_string() }) {
        WorkerEvent::DownloadFinished { count, errors, .. } => {
            assert_eq!(count, 0);
            assert_eq!(errors, vec!["Failed to download asset: 404".to_string()]);
        }
        other => panic!("unexpected {:?}", other),
    }
}
