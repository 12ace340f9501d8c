use ghgrab_gui::files::RepoEntry;
use ghgrab_gui::model::{
    AppTab, CliTokenReply, GuiCommand, Release, ReleaseAsset, RepoLocation, SearchHit, SizeLabel,
    WorkerEvent,
};
use ghgrab_gui::state::{AppState, LOG_LIMIT};
use ghgrab_gui::theme::ThemeMode;

fn entry(key: usize, name: &str, path: &str, is_dir: bool) -> RepoEntry {
    RepoEntry {
        key,
        name: name.to_string(),
        path: path.to_string(),
        is_dir,
        is_file: !is_dir,
        is_lfs: false,
        size: if is_dir { None } else { Some(10) },
    }
}

fn location() -> RepoLocation {
    RepoLocation {
        owner: "ratatui".to_string(),
        repo: "ratatui".to_string(),
        branch: "main".to_string(),
        host: "github.com".to_string(),
    }
}

fn loaded_state() -> AppState {
    let mut s = AppState::new(String::new());
    s.apply_event(WorkerEvent::RepoLoaded {
        location: location(),
        items: vec![
            entry(0, "main.rs", "main.rs", false),
            entry(1, "src", "src", true),
            entry(2, "logo.PNG", "logo.PNG", false),
            entry(3, "Docs", "Docs", true),
        ],
    });
    s
}

fn names(s: &AppState) -> Vec<String> {
    s.items.iter().map(|e| e.name.clone()).collect()
}

#[test]
fn startup_state() {
    let s = AppState::new("tok".to_string());
    assert_eq!(s.theme_mode, ThemeMode::GitHubDark);
    assert_eq!(s.repo_url_input, "https://github.com/ratatui/ratatui");
    assert_eq!(s.token_input, "tok");
    assert_eq!(s.concurrency, 4);
    assert_eq!(s.active_tab, AppTab::Browser);
    assert!(!s.is_busy && s.status.is_none() && s.items.is_empty());
}

#[test]
fn repo_loaded_sorts_and_resets() {
    let mut s = AppState::new(String::new());
    s.is_busy = true;
    s.current_path = "old".to_string();
    s.apply_event(WorkerEvent::RepoLoaded {
        location: location(),
        items: vec![entry(0, "b.txt", "b.txt", false), entry(1, "A", "A", true)],
    });
    assert!(!s.is_busy);
    assert_eq!(s.current_path, "");
    assert!(s.path_breadcrumbs.is_empty());
    assert_eq!(names(&s), vec!["A", "b.txt"]);
    let st = s.status.as_ref().unwrap();
    assert_eq!(st.text, "Repository loaded successfully");
    assert!(!st.is_error);
    assert_eq!(s.status_serial, 1);
    assert_eq!(s.current_location.as_ref().unwrap().repo, "ratatui");
}

#[test]
fn folder_loaded_sets_breadcrumbs() {
    let mut s = loaded_state();
    s.set_selected(0, true);
    s.apply_event(WorkerEvent::FolderLoaded {
        path: "src/bin".to_string(),
        items: vec![entry(0, "gui.rs", "src/bin/gui.rs", false)],
    });
    assert_eq!(s.current_path, "src/bin");
    assert_eq!(s.path_breadcrumbs, vec!["src".to_string(), "bin".to_string()]);
    assert_eq!(s.status.as_ref().unwrap().text, "Opened folder: /src/bin");
    assert_eq!(s.selected_count(), 1);
    assert!(s.selected_preview.is_none());
}

#[test]
fn folder_loaded_at_root_has_no_crumbs() {
    let mut s = loaded_state();
    s.apply_event(WorkerEvent::FolderLoaded { path: String::new(), items: vec![] });
    assert!(s.path_breadcrumbs.is_empty());
    assert_eq!(s.status.as_ref().unwrap().text, "Opened folder: /");
}

#[test]
fn releases_and_search_results_are_counted() {
    let mut s = loaded_state();
    s.apply_event(WorkerEvent::ReleasesLoaded(vec![
        Release { tag_name: "v1".to_string(), prerelease: false, draft: false, notes: None, assets: vec![] },
        Release { tag_name: "v2".to_string(), prerelease: true, draft: false, notes: None, assets: vec![] },
    ]));
    assert_eq!(s.status.as_ref().unwrap().text, "Loaded 2 release(s)");
    s.apply_event(WorkerEvent::SearchResultsLoaded(vec![]));
    assert_eq!(s.status.as_ref().unwrap().text, "Found 0 repositories");
    assert_eq!(s.status_serial, 3);
}

#[test]
fn preview_loaded_and_errors() {
    let mut s = loaded_state();
    s.preview_loading = true;
    s.apply_event(WorkerEvent::FilePreviewLoaded { content: "fn main() {}".to_string() });
    assert!(!s.preview_loading);
    assert_eq!(s.preview_content.as_deref(), Some("fn main() {}"));
    s.is_busy = true;
    s.preview_loading = true;
    s.apply_event(WorkerEvent::Error("Search failed: boom".to_string()));
    assert!(!s.is_busy && !s.preview_loading);
    let st = s.status.as_ref().unwrap();
    assert_eq!(st.text, "Search failed: boom");
    assert!(st.is_error);
}

#[test]
fn progress_log_is_capped() {
    let mut s = AppState::new(String::new());
    for k in 0..(LOG_LIMIT + 5) {
        s.apply_event(WorkerEvent::DownloadProgress {
            message: format!("file {}", k),
            completed: k + 1,
            total: 200,
        });
    }
    assert_eq!(s.download_logs.len(), LOG_LIMIT);
    assert_eq!(s.download_logs[0], "file 5");
    assert_eq!(s.download_logs[LOG_LIMIT - 1], format!("file {}", LOG_LIMIT + 4));
    let p = s.download_progress.as_ref().unwrap();
    assert_eq!((p.completed, p.total, p.message.as_str()), (LOG_LIMIT + 5, 200, "file 104"));
}

#[test]
fn download_finished_success_and_failure() {
    let mut s = AppState::new(String::new());
    s.is_busy = true;
    s.apply_event(WorkerEvent::DownloadProgress { message: "x".to_string(), completed: 1, total: 3 });
    s.apply_event(WorkerEvent::DownloadFinished {
        dest: "\"/tmp/out\"".to_string(),
        count: 3,
        errors: vec![],
    });
    assert!(!s.is_busy && s.download_progress.is_none());
    assert_eq!(s.status.as_ref().unwrap().text, "Successfully downloaded 3 item(s) to \"/tmp/out\"");
    assert_eq!(s.download_logs.last().unwrap(), "Success: 3 item(s) saved to \"/tmp/out\"");
    s.apply_event(WorkerEvent::DownloadFinished {
        dest: "\"/tmp/out\"".to_string(),
        count: 2,
        errors: vec!["a failed".to_string(), "b failed".to_string()],
    });
    let st = s.status.as_ref().unwrap();
    assert_eq!(st.text, "Download errors: a failed, b failed");
    assert!(st.is_error);
    assert_eq!(s.download_logs.last().unwrap(), "Errors: a failed, b failed");
    assert_eq!(s.download_logs.len(), 3);
}

#[test]
fn releases_tab_fetches_once_a_repo_is_loaded() {
    let mut s = AppState::new(String::new());
    assert!(s.on_tab_clicked(AppTab::Releases).is_none());
    assert_eq!(s.active_tab, AppTab::Releases);
    assert!(!s.is_busy);
    let mut s = loaded_state();
    assert!(matches!(s.on_tab_clicked(AppTab::Releases), Some(GuiCommand::FetchReleases)));
    assert!(s.is_busy);
    assert_eq!(s.busy_message, "Fetching repository releases...");
    assert!(s.on_tab_clicked(AppTab::Search).is_none());
}

#[test]
fn theme_switch_reports_change() {
    let mut s = AppState::new(String::new());
    assert!(!s.set_theme(ThemeMode::GitHubDark));
    assert!(s.set_theme(ThemeMode::Vaporwave));
    assert_eq!(s.theme_mode, ThemeMode::Vaporwave);
}

#[test]
fn load_repo_trims_address_and_token() {
    let mut s = AppState::new("  ghp_abc \n".to_string());
    s.repo_url_input = "  https://github.com/emilk/egui  ".to_string();
    match s.on_load_repo() {
        GuiCommand::LoadRepo { url, token } => {
            assert_eq!(url, "https://github.com/emilk/egui");
            assert_eq!(token.as_deref(), Some("ghp_abc"));
        }
        other => panic!("unexpected {:?}", other),
    }
    assert!(s.is_busy);
    assert_eq!(s.busy_message, "Fetching repository contents...");
}

#[test]
fn blank_token_is_not_sent() {
    let s = AppState::new(" \t ".to_string());
    assert!(s.token().is_none());
    let s = AppState::new(String::new());
    assert!(s.token().is_none());
}

#[test]
fn quick_picks_load_their_repository() {
    let picks = AppState::quick_picks();
    assert_eq!(picks.len(), 5);
    assert_eq!(picks[0], ("ratatui/ratatui", "https://github.com/ratatui/ratatui"));
    assert_eq!(picks[4], ("emilk/egui", "https://github.com/emilk/egui"));
    let mut s = AppState::new(String::new());
    match s.on_quick_pick("astral-sh/uv", "https://github.com/astral-sh/uv") {
        GuiCommand::LoadRepo { url, token } => {
            assert_eq!(url, "https://github.com/astral-sh/uv");
            assert!(token.is_none());
        }
        other => panic!("unexpected {:?}", other),
    }
    assert_eq!(s.repo_url_input, "https://github.com/astral-sh/uv");
    assert_eq!(s.busy_message, "Loading astral-sh/uv...");
}

#[test]
fn status_banner_shows_for_eight_seconds() {
    let mut s = loaded_state();
    let b = s.status_banner(0).unwrap();
    assert_eq!(b.text, "✓ Repository loaded successfully");
    assert!(!b.is_error);
    assert!(s.status_banner(7).is_some());
    assert!(s.status_banner(8).is_none());
    s.apply_event(WorkerEvent::Error("bad".to_string()));
    assert_eq!(s.status_banner(1).unwrap().text, "❌ bad");
    s.is_busy = true;
    assert!(s.status_banner(1).is_none());
    assert!(AppState::new(String::new()).status_banner(0).is_none());
}

#[test]
fn selection_operations() {
    let mut s = loaded_state();
    assert_eq!(s.selected_count(), 0);
    assert!(!s.can_download());
    assert_eq!(s.download_button_text(), "Select items to download");
    s.select_all();
    assert_eq!(s.selected_count(), 4);
    s.select_all();
    assert_eq!(s.selected_count(), 4);
    assert_eq!(s.download_button_text(), "⬇ Download Selected (4)");
    s.select_files_only();
    assert_eq!(s.selected_count(), 2);
    assert!(s.is_selected("main.rs") && s.is_selected("logo.PNG") && !s.is_selected("src"));
    s.set_selected(0, true); // row 0 is the folder "Docs"
    assert!(s.is_selected("Docs"));
    s.set_selected(0, false);
    assert!(!s.is_selected("Docs"));
    s.set_selected(0, false);
    assert_eq!(s.selected_count(), 2);
    s.clear_selection();
    assert_eq!(s.selected_count(), 0);
}

#[test]
fn download_selected_in_listing_order() {
    let mut s = loaded_state();
    assert_eq!(names(&s), vec!["Docs", "src", "logo.PNG", "main.rs"]);
    s.set_selected(3, true);
    s.set_selected(1, true);
    assert!(s.can_download());
    s.set_concurrency(6);
    s.token_input = "t".to_string();
    match s.on_download_selected() {
        GuiCommand::DownloadBatch { keys, token, jobs } => {
            assert_eq!(keys, vec![1, 0]);
            assert_eq!(token.as_deref(), Some("t"));
            assert_eq!(jobs, 6);
        }
        other => panic!("unexpected {:?}", other),
    }
    assert_eq!(s.busy_message, "Downloading 2 items...");
    assert!(!s.can_download());
}

#[test]
fn navigation_messages() {
    let mut s = loaded_state();
    assert!(!s.can_navigate_up());
    s.apply_event(WorkerEvent::FolderLoaded { path: "a/b/c".to_string(), items: vec![] });
    assert!(s.can_navigate_up());
    match s.on_navigate_up() {
        GuiCommand::NavigateTo { path } => assert_eq!(path, "a/b"),
        other => panic!("unexpected {:?}", other),
    }
    assert_eq!(s.busy_message, "Navigating to /a/b...");
    assert_eq!(s.breadcrumb_target(0), "a");
    assert_eq!(s.breadcrumb_target(1), "a/b");
    assert_eq!(s.breadcrumb_target(2), "a/b/c");
    match s.on_breadcrumb(1) {
        GuiCommand::NavigateTo { path } => assert_eq!(path, "a/b"),
        other => panic!("unexpected {:?}", other),
    }
    assert_eq!(s.busy_message, "Navigating to /a/b...");
    match s.on_navigate_root() {
        GuiCommand::NavigateTo { path } => assert_eq!(path, ""),
        other => panic!("unexpected {:?}", other),
    }
    assert_eq!(s.busy_message, "Navigating to root...");
    s.apply_event(WorkerEvent::FolderLoaded { path: "top".to_string(), items: vec![] });
    match s.on_navigate_up() {
        GuiCommand::NavigateTo { path } => assert_eq!(path, ""),
        other => panic!("unexpected {:?}", other),
    }
    assert_eq!(s.busy_message, "Navigating to root...");
}

#[test]
fn up_leads_where_the_previous_crumb_leads() {
    let mut s = loaded_state();
    s.apply_event(WorkerEvent::FolderLoaded { path: "x/y/z".to_string(), items: vec![] });
    let crumbs = s.path_breadcrumbs.len();
    let previous = s.breadcrumb_target(crumbs - 2);
    let last = s.breadcrumb_target(crumbs - 1);
    assert_eq!(last, "x/y/z");
    match s.on_navigate_up() {
        GuiCommand::NavigateTo { path } => assert_eq!(path, previous),
        other => panic!("unexpected {:?}", other),
    }
}

#[test]
fn filter_is_case_insensitive() {
    let mut s = loaded_state();
    assert_eq!(s.visible_items(), vec![0, 1, 2, 3]);
    s.filter_input = "MAIN".to_string();
    assert_eq!(s.visible_items(), vec![3]);
    s.filter_input = "o".to_string();
    assert_eq!(s.visible_items(), vec![0, 2]);
    s.filter_input = "zzz".to_string();
    assert!(s.visible_items().is_empty());
}

#[test]
fn clicking_a_folder_opens_it() {
    let mut s = loaded_state();
    match s.on_item_clicked(1, None) {
        Some(GuiCommand::NavigateTo { path }) => assert_eq!(path, "src"),
        other => panic!("unexpected {:?}", other),
    }
    assert_eq!(s.busy_message, "Opening /src...");
    assert!(s.selected_preview.is_none());
}

#[test]
fn clicking_a_binary_file_shows_a_notice() {
    let mut s = loaded_state();
    assert!(s.on_item_clicked(2, Some("10 B".to_string())).is_none());
    assert_eq!(s.selected_preview, Some(2));
    assert!(!s.preview_loading);
    assert_eq!(
        s.preview_content.as_deref(),
        Some("[Binary File: logo.PNG (10 B)]\nBinary files cannot be previewed in text mode.\nClick 'Download File' above to download this file.")
    );
    assert!(s.on_item_clicked(2, None).is_none());
    assert!(s.preview_content.as_deref().unwrap().starts_with("[Binary File: logo.PNG (unknown size)]"));
    assert!(s.is_active_preview(2));
    assert!(!s.is_active_preview(3));
}

#[test]
fn clicking_a_text_file_fetches_it() {
    let mut s = loaded_state();
    s.preview_content = Some("old".to_string());
    match s.on_item_clicked(3, None) {
        Some(GuiCommand::FetchFilePreview { path }) => assert_eq!(path, "main.rs"),
        other => panic!("unexpected {:?}", other),
    }
    assert!(s.preview_loading);
    assert!(s.preview_content.is_none());
    assert_eq!(s.selected_preview, Some(3));
    assert!(!s.is_busy);
}

#[test]
fn size_labels() {
    let mut e = entry(0, "f", "f", false);
    assert_eq!(AppState::size_label(&e), SizeLabel::Bytes(10));
    e.size = None;
    assert_eq!(AppState::size_label(&e), SizeLabel::Nothing);
    e.is_lfs = true;
    assert_eq!(AppState::size_label(&e), SizeLabel::Lfs);
    let d = entry(1, "d", "d", true);
    assert_eq!(AppState::size_label(&d), SizeLabel::Folder);
}

#[test]
fn single_downloads() {
    let mut s = loaded_state();
    match s.on_item_download(3) {
        GuiCommand::DownloadBatch { keys, token, jobs } => {
            assert_eq!(keys, vec![0]);
            assert!(token.is_none());
            assert_eq!(jobs, 1);
        }
        other => panic!("unexpected {:?}", other),
    }
    assert_eq!(s.busy_message, "Downloading main.rs...");
    let mut s = loaded_state();
    assert!(s.on_preview_download().is_none());
    assert!(!s.is_busy);
    s.on_item_clicked(2, None);
    match s.on_preview_download() {
        Some(GuiCommand::DownloadBatch { keys, jobs, .. }) => {
            assert_eq!(keys, vec![2]);
            assert_eq!(jobs, 1);
        }
        other => panic!("unexpected {:?}", other),
    }
    assert_eq!(s.busy_message, "Downloading logo.PNG...");
}

#[test]
fn copy_preview() {
    let mut s = loaded_state();
    assert!(s.on_copy_preview().is_none());
    s.on_item_clicked(3, None);
    assert!(s.on_copy_preview().is_none());
    s.apply_event(WorkerEvent::FilePreviewLoaded { content: "line".to_string() });
    assert_eq!(s.on_copy_preview().as_deref(), Some("line"));
    assert_eq!(s.status.as_ref().unwrap().text, "Copied code to clipboard!");
}

#[test]
fn release_asset_download() {
    let mut s = loaded_state();
    s.apply_event(WorkerEvent::ReleasesLoaded(vec![Release {
        tag_name: "v1".to_string(),
        prerelease: false,
        draft: false,
        notes: Some("First release.".to_string()),
        assets: vec![ReleaseAsset {
            name: "tool.tar.gz".to_string(),
            size: 2048,
            download_url: "https://example.com/tool.tar.gz".to_string(),
        }],
    }]));
    match s.on_release_asset_download(0, 0) {
        GuiCommand::DownloadReleaseAsset { name, download_url, token } => {
            assert_eq!(name, "tool.tar.gz");
            assert_eq!(download_url, "https://example.com/tool.tar.gz");
            assert!(token.is_none());
        }
        other => panic!("unexpected {:?}", other),
    }
    assert_eq!(s.busy_message, "Downloading release asset tool.tar.gz...");
    assert!(matches!(s.on_fetch_releases(), GuiCommand::FetchReleases));
    assert_eq!(s.busy_message, "Fetching repository releases...");
}

#[test]
fn search_requires_a_query() {
    let mut s = AppState::new(String::new());
    s.search_query_input = "   ".to_string();
    assert!(s.on_search().is_none());
    assert!(!s.is_busy);
    s.search_query_input = " tui ".to_string();
    match s.on_search() {
        Some(GuiCommand::SearchRepositories { query }) => assert_eq!(query, "tui"),
        other => panic!("unexpected {:?}", other),
    }
    assert_eq!(s.busy_message, "Searching for ' tui '...");
}

#[test]
fn loading_a_search_result() {
    let mut s = AppState::new(String::new());
    s.active_tab = AppTab::Search;
    s.apply_event(WorkerEvent::SearchResultsLoaded(vec![SearchHit {
        full_name: "emilk/egui".to_string(),
        html_url: "https://github.com/emilk/egui".to_string(),
        description: None,
        language: Some("Rust".to_string()),
        stargazers_count: 20000,
    }]));
    match s.on_search_result_load(0) {
        GuiCommand::LoadRepo { url, .. } => assert_eq!(url, "https://github.com/emilk/egui"),
        other => panic!("unexpected {:?}", other),
    }
    assert_eq!(s.active_tab, AppTab::Browser);
    assert_eq!(s.repo_url_input, "https://github.com/emilk/egui");
    assert_eq!(s.busy_message, "Loading https://github.com/emilk/egui...");
}

#[test]
fn token_visibility_and_cli_import() {
    let mut s = AppState::new("old".to_string());
    assert_eq!(s.show_token_label(), "👁 Show");
    s.toggle_show_token();
    assert!(s.show_token);
    assert_eq!(s.show_token_label(), "🙈 Hide");
    s.on_cli_token_reply(CliTokenReply::Succeeded("gho_new\n".to_string()));
    assert_eq!(s.token_input, "gho_new");
    assert_eq!(s.status.as_ref().unwrap().text, "Token imported from GitHub CLI!");
    let serial = s.status_serial;
    s.on_cli_token_reply(CliTokenReply::Succeeded("  \n".to_string()));
    assert_eq!(s.token_input, "gho_new");
    assert_eq!(s.status_serial, serial);
    s.on_cli_token_reply(CliTokenReply::Failed);
    let st = s.status.as_ref().unwrap();
    assert_eq!(st.text, "Failed to read token from gh CLI. Run `gh auth login` first.");
    assert!(st.is_error);
}

#[test]
fn startup_token_choice() {
    assert!(AppState::needs_cli_token(&None));
    assert!(AppState::needs_cli_token(&Some(String::new())));
    assert!(!AppState::needs_cli_token(&Some("x".to_string())));
    assert_eq!(AppState::initial_token(Some("cfg".to_string()), Some("cli".to_string())), "cfg");
    assert_eq!(AppState::initial_token(None, Some(" cli \n".to_string())), "cli");
    assert_eq!(AppState::initial_token(Some(String::new()), Some("  ".to_string())), "");
    assert_eq!(AppState::initial_token(None, None), "");
}

#[test]
fn clearing_the_log() {
    let mut s = AppState::new(String::new());
    s.apply_event(WorkerEvent::DownloadProgress { message: "m".to_string(), completed: 0, total: 1 });
    s.clear_logs();
    assert!(s.download_logs.is_empty());
}

#[test]
fn repository_web_address() {
    assert_eq!(location().web_url(), "https://github.com/ratatui/ratatui");
}

#[test]
fn streams_are_held_between_one_and_sixteen() {
    let mut s = AppState::new(String::new());
    s.set_concurrency(0);
    assert_eq!(s.concurrency, 1);
    s.set_concurrency(16);
    assert_eq!(s.concurrency, 16);
    s.set_concurrency(40);
    assert_eq!(s.concurrency, 16);
    s.set_concurrency(9);
    assert_eq!(s.concurrency, 9);
    match s.on_download_selected() {
        GuiCommand::DownloadBatch { jobs, .. } => assert_eq!(jobs, 9),
        other => panic!("unexpected {:?}", other),
    }
}
