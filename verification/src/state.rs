//! The interface's state and every decision it takes: what a click does to
//! the state and which request it sends to the worker, and what a report of
//! the worker does to the state.
use crate::files::{
    ext_text, is_binary_extension, is_binary_name, is_stable_sort_of, sort_items, RepoEntry,
};
use crate::model::{
    AppTab, CliTokenReply, DownloadProgress, GuiCommand, Release, SearchHit, SizeLabel,
    StatusMessage, WorkerEvent, RepoLocation,
};
use crate::paths::{
    breadcrumbs_for, breadcrumbs_of, crumb_target, join_strings, parent_of, parent_path, views,
};
use crate::text::{
    concat2, concat3, contains_str, decimal, decimal_string, file_extension,
    has_substring, join_with, lowercase_of, owned, str_eq, to_lowercase, trim, trimmed,
};
use crate::theme::ThemeMode;
use vstd::prelude::*;

verus! {

/// At most this many download messages are kept when a new one arrives.
pub const LOG_LIMIT: usize = 100;

/// The fewest parallel download streams.
pub const MIN_STREAMS: usize = 1;

/// The most parallel download streams.
pub const MAX_STREAMS: usize = 16;

/// The state of the interface. The text inputs, the theme and `show_token`
/// are edited by the widgets directly; everything else changes only through
/// the methods below.
pub struct AppState {
    pub theme_mode: ThemeMode,
    pub repo_url_input: String,
    pub token_input: String,
    pub show_token: bool,
    pub search_query_input: String,
    pub filter_input: String,
    pub concurrency: usize,
    pub current_location: Option<RepoLocation>,
    pub current_path: String,
    pub path_breadcrumbs: Vec<String>,
    pub items: Vec<RepoEntry>,
    /// The paths chosen for download, each once.
    pub selected_paths: Vec<String>,
    /// The listing row shown in the preview pane.
    pub selected_preview: Option<usize>,
    pub preview_content: Option<String>,
    pub preview_loading: bool,
    pub releases: Vec<Release>,
    pub search_results: Vec<SearchHit>,
    pub active_tab: AppTab,
    pub status: Option<StatusMessage>,
    /// Counts the status messages set, so that the caller can time each.
    pub status_serial: u64,
    pub is_busy: bool,
    pub busy_message: String,
    pub download_progress: Option<DownloadProgress>,
    pub download_logs: Vec<String>,
}

/// The chars of an optional string.
pub open spec fn opt_view(o: Option<String>) -> Option<Seq<char>> {
    match o {
        Some(s) => Some(s@),
        None => None,
    }
}

/// The token sent with a request: the token input without surrounding
/// whitespace, or none if nothing is left.
pub open spec fn token_of(input: Seq<char>) -> Option<Seq<char>> {
    if trimmed(input).len() == 0 {
        None
    } else {
        Some(trimmed(input))
    }
}

/// The serial after `s`, wrapping around.
pub open spec fn next_serial(s: u64) -> u64 {
    if s == u64::MAX {
        0
    } else {
        (s + 1) as u64
    }
}

/// The paths of the listing entries.
pub open spec fn item_paths(items: Seq<RepoEntry>) -> Set<Seq<char>> {
    Set::new(|p: Seq<char>| exists|i: int| 0 <= i < items.len() && #[trigger] items[i].path@ == p)
}

/// The paths of the listing entries that are files.
pub open spec fn file_paths(items: Seq<RepoEntry>) -> Set<Seq<char>> {
    Set::new(
        |p: Seq<char>|
            exists|i: int| 0 <= i < items.len() && items[i].is_file && #[trigger] items[i].path@ == p,
    )
}

/// The keys of the entries whose path is in `sel`, in listing order.
pub open spec fn keys_where_selected(items: Seq<RepoEntry>, sel: Set<Seq<char>>) -> Seq<usize>
    decreases items.len(),
{
    if items.len() == 0 {
        Seq::empty()
    } else {
        let rest = keys_where_selected(items.drop_last(), sel);
        if sel.contains(items.last().path@) {
            rest.push(items.last().key)
        } else {
            rest
        }
    }
}

/// Whether a name passes the listing filter: an empty filter passes all,
/// else the lowercase filter must occur in the lowercase name.
pub open spec fn passes_filter(name: Seq<char>, filter: Seq<char>) -> bool {
    lowercase_of(filter).len() == 0 || has_substring(lowercase_of(name), lowercase_of(filter))
}

/// The positions of the entries that pass the filter, in listing order.
pub open spec fn visible_indices(items: Seq<RepoEntry>, filter: Seq<char>) -> Seq<usize>
    decreases items.len(),
{
    if items.len() == 0 {
        Seq::empty()
    } else {
        let rest = visible_indices(items.drop_last(), filter);
        if passes_filter(items.last().name@, filter) {
            rest.push((items.len() - 1) as usize)
        } else {
            rest
        }
    }
}

/// The text shown in place of the preview of a binary file.
pub open spec fn binary_notice(name: Seq<char>, size_text: Option<Seq<char>>) -> Seq<char> {
    "[Binary File: "@ + name + " ("@ + (match size_text {
        Some(t) => t,
        None => "unknown size"@,
    }) + ")]\nBinary files cannot be previewed in text mode.\nClick 'Download File' above to download this file."@
}

/// `new` is `old` with the status message set to `text`.
pub open spec fn status_set(old: AppState, new: AppState, text: Seq<char>, is_error: bool) -> bool {
    &&& new.status matches Some(m) && m.text@ == text && m.is_error == is_error
    &&& new.status_serial == next_serial(old.status_serial)
}

/// `new` is `old` made busy with `message`, nothing else changed.
pub open spec fn became_busy(old: AppState, new: AppState, message: Seq<char>) -> bool {
    &&& new == (AppState { is_busy: true, busy_message: new.busy_message, ..old })
    &&& new.busy_message@ == message
}

/// `cmd` downloads the entry with `key` alone, on one stream, with the
/// token of `token_input`.
pub open spec fn single_download(cmd: GuiCommand, key: usize, token_input: Seq<char>) -> bool {
    cmd matches GuiCommand::DownloadBatch { keys, token, jobs } && keys@ == seq![key] && opt_view(
        token,
    ) == token_of(token_input) && jobs == 1
}

/// Where the filter lowercases to nothing, every row of the listing is shown.
pub proof fn lemma_empty_filter_shows_all(items: Seq<RepoEntry>, filter: Seq<char>)
    requires
        lowercase_of(filter).len() == 0,
    ensures
        visible_indices(items, filter) == Seq::new(items.len(), |i: int| i as usize),
    decreases items.len(),
{
    if items.len() > 0 {
        lemma_empty_filter_shows_all(items.drop_last(), filter);
        assert(visible_indices(items, filter) =~= Seq::new(items.len(), |i: int| i as usize));
    } else {
        assert(visible_indices(items, filter) =~= Seq::new(items.len(), |i: int| i as usize));
    }
}

/// The keys sent for download are those of the listing entries whose path is
/// selected, in listing order: the listing filtered by the selection, each
/// entry taken by its key. So the key of every selected entry is among them,
/// and each of them is the key of a selected entry.
pub proof fn lemma_selected_keys_exact(items: Seq<RepoEntry>, sel: Set<Seq<char>>)
    ensures
        keys_where_selected(items, sel) == items.filter(|e: RepoEntry| sel.contains(e.path@)).map_values(
            |e: RepoEntry| e.key,
        ),
        forall|i: int|
            0 <= i < items.len() && sel.contains(items[i].path@) ==> keys_where_selected(
                items,
                sel,
            ).contains(#[trigger] items[i].key),
        forall|k: int|
            #![trigger keys_where_selected(items, sel)[k]]
            0 <= k < keys_where_selected(items, sel).len() ==> exists|i: int|
                #![trigger items[i]]
                0 <= i < items.len() && sel.contains(items[i].path@) && keys_where_selected(
                    items,
                    sel,
                )[k] == items[i].key,
    decreases items.len(),
{
    let pred = |e: RepoEntry| sel.contains(e.path@);
    let key = |e: RepoEntry| e.key;
    let keys = keys_where_selected(items, sel);
    if items.len() == 0 {
        assert(items.filter(pred) =~= Seq::<RepoEntry>::empty()) by {
            reveal(Seq::filter);
        }
        assert(keys =~= items.filter(pred).map_values(key));
    } else {
        let front = items.drop_last();
        let last = items.last();
        lemma_selected_keys_exact(front, sel);
        let rest = keys_where_selected(front, sel);
        assert(front.push(last) =~= items);
        front.lemma_filter_push(last, pred);
        if pred(last) {
            assert(keys =~= rest.push(last.key));
            assert(front.push(last).filter(pred).map_values(key) =~= front.filter(pred).map_values(
                key,
            ).push(last.key));
        } else {
            assert(keys =~= rest);
        }
        assert forall|i: int|
            0 <= i < items.len() && sel.contains(items[i].path@) implies keys.contains(
            #[trigger] items[i].key,
        ) by {
            if i < items.len() - 1 {
                assert(front[i] == items[i]);
                let j = choose|j: int| 0 <= j < rest.len() && rest[j] == front[i].key;
                assert(keys[j] == items[i].key);
            } else {
                assert(keys[keys.len() - 1] == items[i].key);
            }
        }
        assert forall|k: int| #![trigger keys[k]] 0 <= k < keys.len() implies exists|i: int|
            #![trigger items[i]]
            0 <= i < items.len() && sel.contains(items[i].path@) && keys[k] == items[i].key by {
            if k < rest.len() {
                let i = choose|i: int|
                    #![trigger front[i]]
                    0 <= i < front.len() && sel.contains(front[i].path@) && rest[k] == front[i].key;
                assert(items[i] == front[i]);
            } else {
                assert(items[items.len() - 1] == last);
            }
        }
    }
}

/// Where every entry of the listing is selected, the keys of all of them are
/// sent, in listing order.
pub proof fn lemma_all_selected_keys(items: Seq<RepoEntry>, sel: Set<Seq<char>>)
    requires
        forall|i: int| 0 <= i < items.len() ==> sel.contains(#[trigger] items[i].path@),
    ensures
        keys_where_selected(items, sel) == items.map_values(|e: RepoEntry| e.key),
        keys_where_selected(items, sel).len() == items.len(),
    decreases items.len(),
{
    if items.len() > 0 {
        let front = items.drop_last();
        assert forall|i: int| 0 <= i < front.len() implies sel.contains(#[trigger] front[i].path@) by {
            assert(front[i] == items[i]);
        }
        lemma_all_selected_keys(front, sel);
        assert(sel.contains(items[items.len() - 1].path@));
    }
    assert(keys_where_selected(items, sel) =~= items.map_values(|e: RepoEntry| e.key));
}

/// The rows shown are exactly those whose entry name passes the filter: row
/// `i` is shown if and only if the lowercase filter is empty or occurs in the
/// lowercase name of entry `i`, whatever its path; each row is shown once,
/// in listing order.
pub proof fn lemma_visible_rows_exact(items: Seq<RepoEntry>, filter: Seq<char>)
    requires
        items.len() <= usize::MAX,
    ensures
        forall|k: int|
            0 <= k < visible_indices(items, filter).len() ==> #[trigger] visible_indices(
                items,
                filter,
            )[k] < items.len(),
        forall|a: int, b: int|
            0 <= a < b < visible_indices(items, filter).len() ==> #[trigger] visible_indices(
                items,
                filter,
            )[a] < #[trigger] visible_indices(items, filter)[b],
        forall|i: int|
            #![trigger items[i]]
            0 <= i < items.len() ==> (visible_indices(items, filter).contains(i as usize) <==> (
            lowercase_of(filter).len() == 0 || has_substring(
                lowercase_of(items[i].name@),
                lowercase_of(filter),
            ))),
    decreases items.len(),
{
    if items.len() > 0 {
        let front = items.drop_last();
        let n = items.len() - 1;
        lemma_visible_rows_exact(front, filter);
        let rest = visible_indices(front, filter);
        let rows = visible_indices(items, filter);
        assert(items.last() == items[n]);
        let pass_last = passes_filter(items[n].name@, filter);
        assert(rows == if pass_last { rest.push(n as usize) } else { rest });
        assert forall|k: int| 0 <= k < rows.len() implies #[trigger] rows[k] < items.len() by {
            if k < rest.len() {
                assert(rows[k] == rest[k]);
            }
        }
        assert forall|a: int, b: int| 0 <= a < b < rows.len() implies #[trigger] rows[a]
            < #[trigger] rows[b] by {
            assert(rows[a] == rest[a]);
            if b < rest.len() {
                assert(rows[b] == rest[b]);
            } else {
                assert(rest[a] < n);
            }
        }
        assert forall|i: int|
            #![trigger items[i]]
            0 <= i < items.len() implies (visible_indices(items, filter).contains(i as usize) <==> (
            lowercase_of(filter).len() == 0 || has_substring(
                lowercase_of(items[i].name@),
                lowercase_of(filter),
            ))) by {
            if i < n {
                assert(front[i] == items[i]);
                assert(rest.contains(i as usize) == passes_filter(items[i].name@, filter));
                if rows.contains(i as usize) {
                    let k = choose|k: int| 0 <= k < rows.len() && rows[k] == i as usize;
                    if k < rest.len() {
                        assert(rest[k] == i as usize);
                    } else {
                        assert((n as usize) as int == n);
                    }
                }
                if rest.contains(i as usize) {
                    let k = choose|k: int| 0 <= k < rest.len() && rest[k] == i as usize;
                    assert(rows[k] == i as usize);
                }
            } else {
                assert(i == n);
                if rows.contains(i as usize) {
                    let k = choose|k: int| 0 <= k < rows.len() && rows[k] == i as usize;
                    if k < rest.len() {
                        assert(rest[k] < n);
                        assert((i as usize) as int == i);
                    }
                }
                if pass_last {
                    assert(rows[rows.len() - 1] == i as usize);
                }
            }
        }
    }
}

/// Whether `v` holds `p`.
fn contains_path(v: &Vec<String>, p: &str) -> (r: bool)
    ensures
        r == views(v@).contains(p@),
{
    let mut i: usize = 0;
    while i < v.len()
        invariant
            i <= v@.len(),
            forall|j: int| 0 <= j < i ==> v@[j]@ != p@,
        decreases v@.len() - i,
    {
        if str_eq(v[i].as_str(), p) {
            assert(views(v@)[i as int] == p@);
            return true;
        }
        i = i + 1;
    }
    assert(!views(v@).contains(p@)) by {
        if views(v@).contains(p@) {
            let k = choose|k: int| 0 <= k < views(v@).len() && views(v@)[k] == p@;
            assert(v@[k]@ == p@);
        }
    }
    false
}

proof fn lemma_views_push(v: Seq<String>, s: String)
    ensures
        views(v.push(s)) == views(v).push(s@),
{
    assert(views(v.push(s)) =~= views(v).push(s@));
}

/// Adds `p` to the set held by `v`.
fn insert_path(v: &mut Vec<String>, p: &String)
    requires
        views(old(v)@).no_duplicates(),
    ensures
        views(final(v)@).no_duplicates(),
        views(final(v)@).to_set() == views(old(v)@).to_set().insert(p@),
{
    if !contains_path(v, p.as_str()) {
        let ghost before = views(v@);
        v.push(p.clone());
        proof {
            lemma_views_push(old(v)@, *p);
            assert(views(v@) == before.push(p@));
            assert forall|i: int, j: int|
                0 <= i < views(v@).len() && 0 <= j < views(v@).len() && i != j implies views(
                v@,
            )[i] != views(v@)[j] by {
                if i == before.len() as int {
                    assert(views(v@)[j] == before[j]);
                } else if j == before.len() as int {
                    assert(views(v@)[i] == before[i]);
                } else {
                    assert(views(v@)[i] == before[i]);
                    assert(views(v@)[j] == before[j]);
                }
            }
            assert(views(v@).to_set() =~= before.to_set().insert(p@)) by {
                assert forall|x: Seq<char>| views(v@).to_set().contains(x) implies before.to_set().insert(p@).contains(x) by {
                    let k = choose|k: int| 0 <= k < views(v@).len() && views(v@)[k] == x;
                    if k < before.len() {
                        assert(before[k] == x);
                    }
                }
                assert forall|x: Seq<char>| before.to_set().insert(p@).contains(x) implies views(v@).to_set().contains(x) by {
                    if x == p@ {
                        assert(views(v@)[before.len() as int] == x);
                    } else {
                        let k = choose|k: int| 0 <= k < before.len() && before[k] == x;
                        assert(views(v@)[k] == x);
                    }
                }
            }
        }
    } else {
        assert(views(v@).to_set() =~= views(v@).to_set().insert(p@));
    }
}

/// Takes `p` out of the set held by `v`.
fn remove_path(v: &mut Vec<String>, p: &str)
    requires
        views(old(v)@).no_duplicates(),
    ensures
        views(final(v)@).no_duplicates(),
        views(final(v)@).to_set() == views(old(v)@).to_set().remove(p@),
{
    let mut i: usize = 0;
    while i < v.len()
        invariant
            v@ == old(v)@,
            views(old(v)@).no_duplicates(),
            i <= v@.len(),
            forall|j: int| 0 <= j < i ==> v@[j]@ != p@,
        decreases v@.len() - i,
    {
        if str_eq(v[i].as_str(), p) {
            let ghost before = views(v@);
            v.remove(i);
            proof {
                assert(views(v@) =~= before.remove(i as int));
                assert forall|a: int, b: int|
                    0 <= a < views(v@).len() && 0 <= b < views(v@).len() && a != b implies views(
                    v@,
                )[a] != views(v@)[b] by {
                    let sa = if a < i { a } else { a + 1 };
                    let sb = if b < i { b } else { b + 1 };
                    assert(views(v@)[a] == before[sa]);
                    assert(views(v@)[b] == before[sb]);
                }
                assert(views(v@).to_set() =~= before.to_set().remove(p@)) by {
                    assert forall|x: Seq<char>| views(v@).to_set().contains(x) implies before.to_set().remove(p@).contains(x) by {
                        let k = choose|k: int| 0 <= k < views(v@).len() && views(v@)[k] == x;
                        let sk = if k < i { k } else { k + 1 };
                        assert(before[sk] == x);
                        assert(before[i as int] == p@);
                        assert(sk != i);
                    }
                    assert forall|x: Seq<char>| before.to_set().remove(p@).contains(x) implies views(v@).to_set().contains(x) by {
                        let k = choose|k: int| 0 <= k < before.len() && before[k] == x;
                        assert(k != i);
                        if k < i {
                            assert(views(v@)[k] == x);
                        } else {
                            assert(views(v@)[k - 1] == x);
                        }
                    }
                }
            }
            return;
        }
        i = i + 1;
    }
    assert(views(v@).to_set() =~= views(v@).to_set().remove(p@)) by {
        assert(!views(v@).to_set().contains(p@)) by {
            if views(v@).contains(p@) {
                let k = choose|k: int| 0 <= k < views(v@).len() && views(v@)[k] == p@;
                assert(v@[k]@ == p@);
            }
        }
    }
}

/// The paths of the first `i` entries (of the files among them, if
/// `files_only`).
pub open spec fn paths_before(items: Seq<RepoEntry>, i: int, files_only: bool) -> Set<Seq<char>> {
    Set::new(
        |p: Seq<char>|
            exists|j: int|
                0 <= j < i && (!files_only || items[j].is_file) && #[trigger] items[j].path@ == p,
    )
}

proof fn lemma_paths_before_step(items: Seq<RepoEntry>, i: int, files_only: bool)
    requires
        0 <= i < items.len(),
    ensures
        paths_before(items, i + 1, files_only) == (if !files_only || items[i].is_file {
            paths_before(items, i, files_only).insert(items[i].path@)
        } else {
            paths_before(items, i, files_only)
        }),
{
    let next = paths_before(items, i + 1, files_only);
    let prev = paths_before(items, i, files_only);
    let expected = if !files_only || items[i].is_file {
        prev.insert(items[i].path@)
    } else {
        prev
    };
    assert forall|p: Seq<char>| #[trigger] next.contains(p) implies expected.contains(p) by {
        let j = choose|j: int|
            0 <= j < i + 1 && (!files_only || items[j].is_file) && #[trigger] items[j].path@ == p;
        if j < i {
            assert(prev.contains(p));
        }
    }
    assert forall|p: Seq<char>| #[trigger] expected.contains(p) implies next.contains(p) by {
        if prev.contains(p) {
            let j = choose|j: int|
                0 <= j < i && (!files_only || items[j].is_file) && #[trigger] items[j].path@ == p;
            assert(0 <= j < i + 1 && items[j].path@ == p);
        } else {
            assert(items[i].path@ == p);
        }
    }
    assert(next =~= expected);
}

proof fn lemma_paths_before_all(items: Seq<RepoEntry>, files_only: bool)
    ensures
        paths_before(items, items.len() as int, files_only) == (if files_only {
            file_paths(items)
        } else {
            item_paths(items)
        }),
{
    let all = paths_before(items, items.len() as int, files_only);
    let expected = if files_only {
        file_paths(items)
    } else {
        item_paths(items)
    };
    assert forall|p: Seq<char>| #[trigger] all.contains(p) implies expected.contains(p) by {
        let j = choose|j: int|
            0 <= j < items.len() && (!files_only || items[j].is_file) && #[trigger] items[j].path@
                == p;
        assert(items[j].path@ == p);
    }
    assert forall|p: Seq<char>| #[trigger] expected.contains(p) implies all.contains(p) by {
        if files_only {
            let j = choose|j: int|
                0 <= j < items.len() && items[j].is_file && #[trigger] items[j].path@ == p;
            assert(items[j].path@ == p);
        } else {
            let j = choose|j: int| 0 <= j < items.len() && #[trigger] items[j].path@ == p;
            assert(items[j].path@ == p);
        }
    }
    assert(all =~= expected);
}

impl AppState {
    /// The state's own invariant: each selected path is held once, the
    /// previewed row is a row of the listing, and the number of parallel
    /// download streams lies between one and sixteen.
    pub open spec fn wf(self) -> bool {
        &&& views(self.selected_paths@).no_duplicates()
        &&& MIN_STREAMS <= self.concurrency <= MAX_STREAMS
        &&& self.selected_preview matches Some(i) ==> i < self.items@.len()
    }

    /// The set of selected paths.
    pub open spec fn selected_set(self) -> Set<Seq<char>> {
        views(self.selected_paths@).to_set()
    }

    /// The state at startup, with the given token in the token input.
    pub fn new(initial_token: String) -> (s: AppState)
        ensures
            s.wf(),
            s.theme_mode == ThemeMode::GitHubDark,
            s.repo_url_input@ == "https://github.com/ratatui/ratatui"@,
            s.token_input == initial_token,
            !s.show_token,
            s.search_query_input@.len() == 0,
            s.filter_input@.len() == 0,
            s.concurrency == 4,
            s.current_location is None,
            s.current_path@.len() == 0,
            s.path_breadcrumbs@.len() == 0,
            s.items@.len() == 0,
            s.selected_paths@.len() == 0,
            s.selected_preview is None,
            s.preview_content is None,
            !s.preview_loading,
            s.releases@.len() == 0,
            s.search_results@.len() == 0,
            s.active_tab == AppTab::Browser,
            s.status is None,
            s.status_serial == 0,
            !s.is_busy,
            s.busy_message@.len() == 0,
            s.download_progress is None,
            s.download_logs@.len() == 0,
    {
        let s = AppState {
            theme_mode: ThemeMode::GitHubDark,
            repo_url_input: owned("https://github.com/ratatui/ratatui"),
            token_input: initial_token,
            show_token: false,
            search_query_input: String::new(),
            filter_input: String::new(),
            concurrency: 4,
            current_location: None,
            current_path: String::new(),
            path_breadcrumbs: Vec::new(),
            items: Vec::new(),
            selected_paths: Vec::new(),
            selected_preview: None,
            preview_content: None,
            preview_loading: false,
            releases: Vec::new(),
            search_results: Vec::new(),
            active_tab: AppTab::Browser,
            status: None,
            status_serial: 0,
            is_busy: false,
            busy_message: String::new(),
            download_progress: None,
            download_logs: Vec::new(),
        };
        assert(views(s.selected_paths@) =~= Seq::<Seq<char>>::empty());
        s
    }

    /// Sets the status message.
    fn set_status(&mut self, text: String, is_error: bool)
        ensures
            *final(self) == (AppState {
                status: Some(StatusMessage { text, is_error }),
                status_serial: next_serial(old(self).status_serial),
                ..*old(self)
            }),
    {
        self.status = Some(StatusMessage { text, is_error });
        self.status_serial = if self.status_serial == u64::MAX {
            0
        } else {
            self.status_serial + 1
        };
    }

    /// Marks the interface busy with `message`.
    fn start_busy(&mut self, message: String)
        ensures
            *final(self) == (AppState { is_busy: true, busy_message: message, ..*old(self) }),
    {
        self.is_busy = true;
        self.busy_message = message;
    }

    /// The token to send: the token input trimmed, or none when that is
    /// empty.
    pub fn token(&self) -> (t: Option<String>)
        ensures
            opt_view(t) == token_of(self.token_input@),
    {
        let trimmed_input = trim(self.token_input.as_str());
        if trimmed_input.is_empty() {
            None
        } else {
            Some(owned(trimmed_input))
        }
    }

    /// Takes in one report of the background worker.
    pub fn apply_event(&mut self, event: WorkerEvent)
        requires
            old(self).wf(),
        ensures
            final(self).wf(),
            event is DownloadProgress ==> final(self).download_logs@.len() <= (if old(
                self,
            ).download_logs@.len() > LOG_LIMIT {
                old(self).download_logs@.len()
            } else {
                LOG_LIMIT as nat
            }),
            match event {
                WorkerEvent::RepoLoaded { location, items } => {
                    &&& *final(self) == (AppState {
                        is_busy: false,
                        current_location: Some(location),
                        current_path: final(self).current_path,
                        path_breadcrumbs: final(self).path_breadcrumbs,
                        items: final(self).items,
                        selected_paths: final(self).selected_paths,
                        selected_preview: None,
                        preview_content: None,
                        status: final(self).status,
                        status_serial: final(self).status_serial,
                        ..*old(self)
                    })
                    &&& final(self).current_path@.len() == 0
                    &&& final(self).path_breadcrumbs@.len() == 0
                    &&& is_stable_sort_of(final(self).items@, items@)
                    &&& final(self).selected_paths@.len() == 0
                    &&& status_set(*old(self), *final(self), "Repository loaded successfully"@, false)
                },
                WorkerEvent::FolderLoaded { path, items } => {
                    &&& *final(self) == (AppState {
                        is_busy: false,
                        current_path: path,
                        path_breadcrumbs: final(self).path_breadcrumbs,
                        items: final(self).items,
                        selected_preview: None,
                        preview_content: None,
                        status: final(self).status,
                        status_serial: final(self).status_serial,
                        ..*old(self)
                    })
                    &&& views(final(self).path_breadcrumbs@) == breadcrumbs_of(path@)
                    &&& is_stable_sort_of(final(self).items@, items@)
                    &&& status_set(*old(self), *final(self), "Opened folder: /"@ + path@, false)
                },
                WorkerEvent::FilePreviewLoaded { content } => {
                    *final(self) == (AppState {
                        preview_loading: false,
                        preview_content: Some(content),
                        ..*old(self)
                    })
                },
                WorkerEvent::ReleasesLoaded(releases) => {
                    &&& *final(self) == (AppState {
                        is_busy: false,
                        releases: releases,
                        status: final(self).status,
                        status_serial: final(self).status_serial,
                        ..*old(self)
                    })
                    &&& status_set(
                        *old(self),
                        *final(self),
                        "Loaded "@ + decimal(releases@.len()) + " release(s)"@,
                        false,
                    )
                },
                WorkerEvent::SearchResultsLoaded(results) => {
                    &&& *final(self) == (AppState {
                        is_busy: false,
                        search_results: results,
                        status: final(self).status,
                        status_serial: final(self).status_serial,
                        ..*old(self)
                    })
                    &&& status_set(
                        *old(self),
                        *final(self),
                        "Found "@ + decimal(results@.len()) + " repositories"@,
                        false,
                    )
                },
                WorkerEvent::DownloadProgress { message, completed, total } => {
                    let pushed = old(self).download_logs@.push(message);
                    &&& *final(self) == (AppState {
                        download_progress: Some(DownloadProgress { completed, total, message }),
                        download_logs: final(self).download_logs,
                        ..*old(self)
                    })
                    &&& final(self).download_logs@ == (if pushed.len() > LOG_LIMIT {
                        pushed.drop_first()
                    } else {
                        pushed
                    })
                },
                WorkerEvent::DownloadFinished { dest, count, errors } => {
                    &&& *final(self) == (AppState {
                        is_busy: false,
                        download_progress: None,
                        download_logs: final(self).download_logs,
                        status: final(self).status,
                        status_serial: final(self).status_serial,
                        ..*old(self)
                    })
                    &&& final(self).download_logs@.len() == old(self).download_logs@.len() + 1
                    &&& final(self).download_logs@.drop_last() == old(self).download_logs@
                    &&& if errors@.len() == 0 {
                        &&& status_set(
                            *old(self),
                            *final(self),
                            "Successfully downloaded "@ + decimal(count as nat) + " item(s) to "@
                                + dest@,
                            false,
                        )
                        &&& final(self).download_logs@.last()@ == "Success: "@ + decimal(
                            count as nat,
                        ) + " item(s) saved to "@ + dest@
                    } else {
                        &&& status_set(
                            *old(self),
                            *final(self),
                            "Download errors: "@ + join_with(views(errors@), ", "@),
                            true,
                        )
                        &&& final(self).download_logs@.last()@ == "Errors: "@ + join_with(
                            views(errors@),
                            ", "@,
                        )
                    }
                },
                WorkerEvent::Error(err) => {
                    *final(self) == (AppState {
                        is_busy: false,
                        preview_loading: false,
                        status: Some(StatusMessage { text: err, is_error: true }),
                        status_serial: next_serial(old(self).status_serial),
                        ..*old(self)
                    })
                },
            },
    {
        match event {
            WorkerEvent::RepoLoaded { location, items } => {
                let mut items = items;
                sort_items(&mut items);
                self.is_busy = false;
                self.current_location = Some(location);
                self.current_path = String::new();
                self.path_breadcrumbs = Vec::new();
                self.items = items;
                self.selected_paths = Vec::new();
                self.selected_preview = None;
                self.preview_content = None;
                self.set_status(owned("Repository loaded successfully"), false);
                assert(views(self.selected_paths@) =~= Seq::<Seq<char>>::empty());
            },
            WorkerEvent::FolderLoaded { path, items } => {
                let mut items = items;
                sort_items(&mut items);
                let crumbs = breadcrumbs_for(path.as_str());
                let message = concat2("Opened folder: /", path.as_str());
                self.is_busy = false;
                self.current_path = path;
                self.path_breadcrumbs = crumbs;
                self.items = items;
                self.selected_preview = None;
                self.preview_content = None;
                self.set_status(message, false);
            },
            WorkerEvent::FilePreviewLoaded { content } => {
                self.preview_loading = false;
                self.preview_content = Some(content);
            },
            WorkerEvent::ReleasesLoaded(releases) => {
                let count = releases.len();
                let message = concat3("Loaded ", decimal_string(count as u64).as_str(), " release(s)");
                self.is_busy = false;
                self.releases = releases;
                self.set_status(message, false);
            },
            WorkerEvent::SearchResultsLoaded(results) => {
                let count = results.len();
                let message = concat3(
                    "Found ",
                    decimal_string(count as u64).as_str(),
                    " repositories",
                );
                self.is_busy = false;
                self.search_results = results;
                self.set_status(message, false);
            },
            WorkerEvent::DownloadProgress { message, completed, total } => {
                self.download_progress = Some(
                    DownloadProgress { completed, total, message: message.clone() },
                );
                self.download_logs.push(message);
                if self.download_logs.len() > LOG_LIMIT {
                    self.download_logs.remove(0);
                }
            },
            WorkerEvent::DownloadFinished { dest, count, errors } => {
                self.is_busy = false;
                self.download_progress = None;
                let count_text = decimal_string(count as u64);
                if errors.len() == 0 {
                    let mut status = concat3(
                        "Successfully downloaded ",
                        count_text.as_str(),
                        " item(s) to ",
                    );
                    status.append(dest.as_str());
                    let mut log = concat3("Success: ", count_text.as_str(), " item(s) saved to ");
                    log.append(dest.as_str());
                    self.set_status(status, false);
                    self.download_logs.push(log);
                } else {
                    let joined = join_strings(&errors, ", ");
                    let status = concat2("Download errors: ", joined.as_str());
                    let log = concat2("Errors: ", joined.as_str());
                    self.set_status(status, true);
                    self.download_logs.push(log);
                }
            },
            WorkerEvent::Error(err) => {
                self.is_busy = false;
                self.preview_loading = false;
                self.set_status(err, true);
            },
        }
    }

    // -----------------------------------------------------------------------
    // Top bar
    // -----------------------------------------------------------------------

    /// A click on a tab. Opening the releases tab of a loaded repository
    /// whose releases are not fetched yet fetches them.
    pub fn on_tab_clicked(&mut self, tab: AppTab) -> (cmd: Option<GuiCommand>)
        requires
            old(self).wf(),
        ensures
            final(self).wf(),
            ({
                let fetch = tab == AppTab::Releases && old(self).releases@.len() == 0
                    && old(self).current_location is Some;
                &&& fetch ==> cmd == Some(GuiCommand::FetchReleases) && became_busy(
                    AppState { active_tab: tab, ..*old(self) },
                    *final(self),
                    "Fetching repository releases..."@,
                )
                &&& !fetch ==> cmd is None && *final(self) == (AppState {
                    active_tab: tab,
                    ..*old(self)
                })
            }),
    {
        self.active_tab = tab;
        if tab == AppTab::Releases && self.releases.len() == 0 && self.current_location.is_some() {
            self.start_busy(owned("Fetching repository releases..."));
            Some(GuiCommand::FetchReleases)
        } else {
            None
        }
    }

    /// A switch of the theme; whether it changed.
    pub fn set_theme(&mut self, mode: ThemeMode) -> (changed: bool)
        requires
            old(self).wf(),
        ensures
            final(self).wf(),
            *final(self) == (AppState { theme_mode: mode, ..*old(self) }),
            changed == (mode != old(self).theme_mode),
    {
        let changed = mode != self.theme_mode;
        self.theme_mode = mode;
        changed
    }

    /// "Load Repo" (or Enter in the address field): loads the trimmed
    /// address with the token.
    pub fn on_load_repo(&mut self) -> (cmd: GuiCommand)
        requires
            old(self).wf(),
        ensures
            final(self).wf(),
            became_busy(*old(self), *final(self), "Fetching repository contents..."@),
            cmd matches GuiCommand::LoadRepo { url, token } && url@ == trimmed(
                old(self).repo_url_input@,
            ) && opt_view(token) == token_of(old(self).token_input@),
    {
        let token = self.token();
        let url = owned(trim(self.repo_url_input.as_str()));
        self.start_busy(owned("Fetching repository contents..."));
        GuiCommand::LoadRepo { url, token }
    }

    /// The quick picks: a label and the address of each repository.
    pub fn quick_picks() -> (picks: Vec<(&'static str, &'static str)>)
        ensures
            picks@.len() == 5,
            picks@[0].0@ == "ratatui/ratatui"@ && picks@[0].1@ == "https://github.com/ratatui/ratatui"@,
            picks@[1].0@ == "tokio-rs/tokio"@ && picks@[1].1@ == "https://github.com/tokio-rs/tokio"@,
            picks@[2].0@ == "rust-lang/rust"@ && picks@[2].1@ == "https://github.com/rust-lang/rust"@,
            picks@[3].0@ == "astral-sh/uv"@ && picks@[3].1@ == "https://github.com/astral-sh/uv"@,
            picks@[4].0@ == "emilk/egui"@ && picks@[4].1@ == "https://github.com/emilk/egui"@,
    {
        let mut picks: Vec<(&'static str, &'static str)> = Vec::new();
        picks.push(("ratatui/ratatui", "https://github.com/ratatui/ratatui"));
        picks.push(("tokio-rs/tokio", "https://github.com/tokio-rs/tokio"));
        picks.push(("rust-lang/rust", "https://github.com/rust-lang/rust"));
        picks.push(("astral-sh/uv", "https://github.com/astral-sh/uv"));
        picks.push(("emilk/egui", "https://github.com/emilk/egui"));
        picks
    }

    /// A click on a quick pick: puts its address in the address field and
    /// loads it.
    pub fn on_quick_pick(&mut self, name: &str, url: &str) -> (cmd: GuiCommand)
        requires
            old(self).wf(),
        ensures
            final(self).wf(),
            final(self).repo_url_input@ == url@,
            became_busy(
                AppState { repo_url_input: final(self).repo_url_input, ..*old(self) },
                *final(self),
                "Loading "@ + name@ + "..."@,
            ),
            cmd matches GuiCommand::LoadRepo { url: u, token } && u@ == url@ && opt_view(token)
                == token_of(old(self).token_input@),
    {
        self.repo_url_input = owned(url);
        let token = self.token();
        self.start_busy(concat3("Loading ", name, "..."));
        GuiCommand::LoadRepo { url: owned(url), token }
    }

    /// The status line of the top bar, `elapsed_secs` after the status was
    /// set: nothing while busy or after eight seconds, else the message with
    /// a mark for failure or success, and whether it reports a failure.
    pub fn status_banner(&self, elapsed_secs: u64) -> (banner: Option<StatusMessage>)
        ensures
            match banner {
                Some(b) => {
                    &&& !self.is_busy
                    &&& elapsed_secs < 8
                    &&& self.status matches Some(m)
                    &&& b.is_error == m.is_error
                    &&& b.text@ == (if m.is_error {
                        "❌ "@
                    } else {
                        "✓ "@
                    }) + m.text@
                },
                None => self.is_busy || elapsed_secs >= 8 || self.status is None,
            },
    {
        if self.is_busy || elapsed_secs >= 8 {
            return None;
        }
        match &self.status {
            Some(m) => {
                let icon = if m.is_error {
                    "❌ "
                } else {
                    "✓ "
                };
                Some(StatusMessage { text: concat2(icon, m.text.as_str()), is_error: m.is_error })
            },
            None => None,
        }
    }

    // -----------------------------------------------------------------------
    // Selection for download
    // -----------------------------------------------------------------------

    /// How many paths are selected.
    pub fn selected_count(&self) -> (n: usize)
        requires
            self.wf(),
        ensures
            n == self.selected_set().len(),
    {
        proof {
            views(self.selected_paths@).unique_seq_to_set();
        }
        self.selected_paths.len()
    }

    /// Whether `path` is selected.
    pub fn is_selected(&self, path: &str) -> (r: bool)
        ensures
            r == self.selected_set().contains(path@),
    {
        contains_path(&self.selected_paths, path)
    }

    /// "Select All": adds every entry of the listing to the selection.
    pub fn select_all(&mut self)
        requires
            old(self).wf(),
        ensures
            final(self).wf(),
            *final(self) == (AppState { selected_paths: final(self).selected_paths, ..*old(self) }),
            final(self).selected_set() == old(self).selected_set() + item_paths(old(self).items@),
    {
        let ghost start = self.selected_set();
        let mut i: usize = 0;
        while i < self.items.len()
            invariant
                self.wf(),
                *self == (AppState { selected_paths: self.selected_paths, ..*old(self) }),
                i <= self.items@.len(),
                self.selected_set() == start + paths_before(self.items@, i as int, false),
            decreases self.items@.len() - i,
        {
            insert_path(&mut self.selected_paths, &self.items[i].path);
            proof {
                lemma_paths_before_step(self.items@, i as int, false);
                assert(self.selected_set() =~= start + paths_before(self.items@, i + 1, false));
            }
            i = i + 1;
        }
        proof {
            lemma_paths_before_all(self.items@, false);
        }
        assert(self.selected_set() =~= start + item_paths(old(self).items@));
    }

    /// "Clear": empties the selection.
    pub fn clear_selection(&mut self)
        requires
            old(self).wf(),
        ensures
            final(self).wf(),
            *final(self) == (AppState { selected_paths: final(self).selected_paths, ..*old(self) }),
            final(self).selected_paths@.len() == 0,
            final(self).selected_set() == Set::<Seq<char>>::empty(),
    {
        self.selected_paths = Vec::new();
        assert(views(self.selected_paths@) =~= Seq::<Seq<char>>::empty());
        assert(self.selected_set() =~= Set::<Seq<char>>::empty());
    }

    /// "Files Only": selects exactly the files of the listing.
    pub fn select_files_only(&mut self)
        requires
            old(self).wf(),
        ensures
            final(self).wf(),
            *final(self) == (AppState { selected_paths: final(self).selected_paths, ..*old(self) }),
            final(self).selected_set() == file_paths(old(self).items@),
    {
        self.clear_selection();
        let mut i: usize = 0;
        proof {
            assert(paths_before(self.items@, 0, true) =~= Set::<Seq<char>>::empty());
        }
        while i < self.items.len()
            invariant
                self.wf(),
                *self == (AppState { selected_paths: self.selected_paths, ..*old(self) }),
                i <= self.items@.len(),
                self.selected_set() == paths_before(self.items@, i as int, true),
            decreases self.items@.len() - i,
        {
            if self.items[i].is_file {
                insert_path(&mut self.selected_paths, &self.items[i].path);
            }
            proof {
                lemma_paths_before_step(self.items@, i as int, true);
            }
            i = i + 1;
        }
        proof {
            lemma_paths_before_all(self.items@, true);
        }
    }

    /// The check box of row `idx`: selects or unselects its path.
    pub fn set_selected(&mut self, idx: usize, checked: bool)
        requires
            old(self).wf(),
            idx < old(self).items@.len(),
        ensures
            final(self).wf(),
            *final(self) == (AppState { selected_paths: final(self).selected_paths, ..*old(self) }),
            final(self).selected_set() == (if checked {
                old(self).selected_set().insert(old(self).items@[idx as int].path@)
            } else {
                old(self).selected_set().remove(old(self).items@[idx as int].path@)
            }),
    {
        if checked {
            insert_path(&mut self.selected_paths, &self.items[idx].path);
        } else {
            remove_path(&mut self.selected_paths, self.items[idx].path.as_str());
        }
    }

    /// The streams slider: sets the number of parallel download streams,
    /// held between one and sixteen.
    pub fn set_concurrency(&mut self, streams: usize)
        requires
            old(self).wf(),
        ensures
            final(self).wf(),
            *final(self) == (AppState {
                concurrency: if streams < MIN_STREAMS {
                    MIN_STREAMS
                } else if streams > MAX_STREAMS {
                    MAX_STREAMS
                } else {
                    streams
                },
                ..*old(self)
            }),
    {
        self.concurrency = if streams < MIN_STREAMS {
            MIN_STREAMS
        } else if streams > MAX_STREAMS {
            MAX_STREAMS
        } else {
            streams
        };
    }

    /// The keys of the selected entries of the listing, in listing order.
    pub fn selected_keys(&self) -> (keys: Vec<usize>)
        requires
            self.wf(),
        ensures
            keys@ == keys_where_selected(self.items@, self.selected_set()),
            keys@ == self.items@.filter(|e: RepoEntry| self.selected_set().contains(e.path@)).map_values(
                |e: RepoEntry| e.key,
            ),
    {
        let mut keys: Vec<usize> = Vec::new();
        let mut i: usize = 0;
        while i < self.items.len()
            invariant
                i <= self.items@.len(),
                keys@ == keys_where_selected(self.items@.take(i as int), self.selected_set()),
            decreases self.items@.len() - i,
        {
            proof {
                assert(self.items@.take(i + 1).drop_last() =~= self.items@.take(i as int));
            }
            if contains_path(&self.selected_paths, self.items[i].path.as_str()) {
                keys.push(self.items[i].key);
            }
            i = i + 1;
        }
        assert(self.items@.take(self.items@.len() as int) =~= self.items@);
        proof {
            lemma_selected_keys_exact(self.items@, self.selected_set());
        }
        keys
    }

    /// Whether the download button is enabled: something is selected and
    /// nothing is running.
    pub fn can_download(&self) -> (r: bool)
        requires
            self.wf(),
        ensures
            r == (self.selected_set().len() > 0 && !self.is_busy),
    {
        self.selected_count() > 0 && !self.is_busy
    }

    /// The label of the download button.
    pub fn download_button_text(&self) -> (text: String)
        requires
            self.wf(),
        ensures
            text@ == (if self.selected_set().len() == 0 {
                "Select items to download"@
            } else {
                "⬇ Download Selected ("@ + decimal(self.selected_set().len()) + ")"@
            }),
    {
        let n = self.selected_count();
        if n == 0 {
            owned("Select items to download")
        } else {
            concat3("⬇ Download Selected (", decimal_string(n as u64).as_str(), ")")
        }
    }

    /// The download button: downloads the selected entries of the listing
    /// with the chosen number of parallel streams.
    pub fn on_download_selected(&mut self) -> (cmd: GuiCommand)
        requires
            old(self).wf(),
        ensures
            final(self).wf(),
            cmd matches GuiCommand::DownloadBatch { jobs, .. } && MIN_STREAMS <= jobs <= MAX_STREAMS,
            cmd matches GuiCommand::DownloadBatch { keys, token, jobs } && keys@
                == keys_where_selected(old(self).items@, old(self).selected_set()) && opt_view(
                token,
            ) == token_of(old(self).token_input@) && jobs == old(self).concurrency && became_busy(
                *old(self),
                *final(self),
                "Downloading "@ + decimal(keys@.len()) + " items..."@,
            ),
    {
        let keys = self.selected_keys();
        let token = self.token();
        self.start_busy(concat3("Downloading ", decimal_string(keys.len() as u64).as_str(), " items..."));
        GuiCommand::DownloadBatch { keys, token, jobs: self.concurrency }
    }

    // -----------------------------------------------------------------------
    // File browser
    // -----------------------------------------------------------------------

    /// "Up": opens the folder above the current one.
    pub fn on_navigate_up(&mut self) -> (cmd: GuiCommand)
        requires
            old(self).wf(),
        ensures
            final(self).wf(),
            ({
                let parent = parent_of(old(self).current_path@);
                &&& cmd matches GuiCommand::NavigateTo { path } && path@ == parent
                &&& became_busy(
                    *old(self),
                    *final(self),
                    if parent.len() == 0 {
                        "Navigating to root..."@
                    } else {
                        "Navigating to /"@ + parent + "..."@
                    },
                )
            }),
    {
        let parent = parent_path(self.current_path.as_str());
        let message = if parent.as_str().is_empty() {
            owned("Navigating to root...")
        } else {
            concat3("Navigating to /", parent.as_str(), "...")
        };
        self.start_busy(message);
        GuiCommand::NavigateTo { path: parent }
    }

    /// Whether "Up" is enabled: only below the root.
    pub fn can_navigate_up(&self) -> (r: bool)
        ensures
            r == (self.current_path@.len() > 0),
    {
        !self.current_path.as_str().is_empty()
    }

    /// "root": opens the top folder of the repository.
    pub fn on_navigate_root(&mut self) -> (cmd: GuiCommand)
        requires
            old(self).wf(),
        ensures
            final(self).wf(),
            cmd matches GuiCommand::NavigateTo { path } && path@.len() == 0,
            became_busy(*old(self), *final(self), "Navigating to root..."@),
    {
        self.start_busy(owned("Navigating to root..."));
        GuiCommand::NavigateTo { path: String::new() }
    }

    /// The folder that breadcrumb `idx` leads to.
    pub fn breadcrumb_target(&self, idx: usize) -> (target: String)
        requires
            idx < self.path_breadcrumbs@.len(),
        ensures
            target@ == crumb_target(views(self.path_breadcrumbs@), idx as int),
    {
        let n = self.path_breadcrumbs.len();
        let mut prefix: Vec<String> = Vec::new();
        let mut k: usize = 0;
        while k <= idx
            invariant
                n == self.path_breadcrumbs@.len(),
                idx < n,
                k <= idx + 1,
                views(prefix@) == views(self.path_breadcrumbs@).take(k as int),
            decreases idx + 1 - k,
        {
            let seg = self.path_breadcrumbs[k].clone();
            proof {
                assert(views(prefix@.push(seg)) =~= views(prefix@).push(seg@));
                assert(views(self.path_breadcrumbs@).take(k + 1) =~= views(
                    self.path_breadcrumbs@,
                ).take(k as int).push(seg@));
            }
            prefix.push(seg);
            k = k + 1;
        }
        proof {
            reveal_strlit("/");
            assert("/"@ =~= seq!['/']);
        }
        join_strings(&prefix, "/")
    }

    /// A click on breadcrumb `idx`: opens the folder it leads to.
    pub fn on_breadcrumb(&mut self, idx: usize) -> (cmd: GuiCommand)
        requires
            old(self).wf(),
            idx < old(self).path_breadcrumbs@.len(),
        ensures
            final(self).wf(),
            ({
                let target = crumb_target(views(old(self).path_breadcrumbs@), idx as int);
                &&& cmd matches GuiCommand::NavigateTo { path } && path@ == target
                &&& became_busy(*old(self), *final(self), "Navigating to /"@ + target + "..."@)
            }),
    {
        let target = self.breadcrumb_target(idx);
        self.start_busy(concat3("Navigating to /", target.as_str(), "..."));
        GuiCommand::NavigateTo { path: target }
    }

    /// The rows of the listing that pass the filter, in listing order.
    pub fn visible_items(&self) -> (rows: Vec<usize>)
        ensures
            rows@ == visible_indices(self.items@, self.filter_input@),
            forall|a: int, b: int| 0 <= a < b < rows@.len() ==> rows@[a] < rows@[b],
            forall|i: int|
                #![trigger self.items@[i]]
                0 <= i < self.items@.len() ==> (rows@.contains(i as usize) <==> (lowercase_of(
                    self.filter_input@,
                ).len() == 0 || has_substring(
                    lowercase_of(self.items@[i].name@),
                    lowercase_of(self.filter_input@),
                ))),
    {
        let filter = to_lowercase(self.filter_input.as_str());
        let mut rows: Vec<usize> = Vec::new();
        let mut i: usize = 0;
        while i < self.items.len()
            invariant
                filter@ == lowercase_of(self.filter_input@),
                i <= self.items@.len(),
                rows@ == visible_indices(self.items@.take(i as int), self.filter_input@),
            decreases self.items@.len() - i,
        {
            proof {
                assert(self.items@.take(i + 1).drop_last() =~= self.items@.take(i as int));
            }
            let pass = if filter.as_str().is_empty() {
                true
            } else {
                let name = to_lowercase(self.items[i].name.as_str());
                contains_str(name.as_str(), filter.as_str())
            };
            if pass {
                rows.push(i);
            }
            i = i + 1;
        }
        assert(self.items@.take(self.items@.len() as int) =~= self.items@);
        proof {
            lemma_visible_rows_exact(self.items@, self.filter_input@);
        }
        rows
    }

    /// Whether row `idx` is the one in the preview pane.
    pub fn is_active_preview(&self, idx: usize) -> (r: bool)
        requires
            self.wf(),
            idx < self.items@.len(),
        ensures
            r == (self.selected_preview matches Some(j) && self.items@[j as int].path@
                == self.items@[idx as int].path@),
    {
        match self.selected_preview {
            Some(j) => str_eq(self.items[j].path.as_str(), self.items[idx].path.as_str()),
            None => false,
        }
    }

    /// A click on the name of row `idx`: a folder is opened; a file is shown
    /// in the preview pane, a binary one as a notice naming its size
    /// (`size_text`, the size in a human unit, where known), any other one
    /// fetched.
    pub fn on_item_clicked(&mut self, idx: usize, size_text: Option<String>) -> (cmd: Option<GuiCommand>)
        requires
            old(self).wf(),
            idx < old(self).items@.len(),
        ensures
            final(self).wf(),
            ({
                let item = old(self).items@[idx as int];
                if item.is_dir {
                    &&& cmd matches Some(GuiCommand::NavigateTo { path }) && path@ == item.path@
                    &&& became_busy(*old(self), *final(self), "Opening /"@ + item.path@ + "..."@)
                } else if is_binary_name(lowercase_of(ext_text(item.name@))) {
                    &&& cmd is None
                    &&& *final(self) == (AppState {
                        selected_preview: Some(idx),
                        preview_loading: false,
                        preview_content: final(self).preview_content,
                        ..*old(self)
                    })
                    &&& opt_view(final(self).preview_content) == Some(
                        binary_notice(item.name@, opt_view(size_text)),
                    )
                } else {
                    &&& cmd matches Some(GuiCommand::FetchFilePreview { path }) && path@ == item.path@
                    &&& *final(self) == (AppState {
                        selected_preview: Some(idx),
                        preview_loading: true,
                        preview_content: None,
                        ..*old(self)
                    })
                }
            }),
    {
        if self.items[idx].is_dir {
            let path = self.items[idx].path.clone();
            self.start_busy(concat3("Opening /", path.as_str(), "..."));
            return Some(GuiCommand::NavigateTo { path });
        }
        self.selected_preview = Some(idx);
        proof {
            reveal_strlit("");
            assert(""@ =~= Seq::<char>::empty());
        }
        let ext = match file_extension(self.items[idx].name.as_str()) {
            Some(e) => e,
            None => "",
        };
        assert(ext@ == ext_text(self.items@[idx as int].name@));
        if is_binary_extension(ext) {
            let mut notice = concat3("[Binary File: ", self.items[idx].name.as_str(), " (");
            match &size_text {
                Some(t) => notice.append(t.as_str()),
                None => notice.append("unknown size"),
            }
            notice.append(
                ")]\nBinary files cannot be previewed in text mode.\nClick 'Download File' above to download this file.",
            );
            self.preview_loading = false;
            self.preview_content = Some(notice);
            None
        } else {
            self.preview_loading = true;
            self.preview_content = None;
            Some(GuiCommand::FetchFilePreview { path: self.items[idx].path.clone() })
        }
    }

    /// How the size column of a row reads: the size where known, else
    /// "folder" for folders and "LFS" for Git LFS files.
    pub fn size_label(entry: &RepoEntry) -> (label: SizeLabel)
        ensures
            label == (match entry.size {
                Some(n) => SizeLabel::Bytes(n),
                None => if entry.is_dir {
                    SizeLabel::Folder
                } else if entry.is_lfs {
                    SizeLabel::Lfs
                } else {
                    SizeLabel::Nothing
                },
            }),
    {
        match entry.size {
            Some(n) => SizeLabel::Bytes(n),
            None => if entry.is_dir {
                SizeLabel::Folder
            } else if entry.is_lfs {
                SizeLabel::Lfs
            } else {
                SizeLabel::Nothing
            },
        }
    }

    /// The download button of row `idx`: downloads that entry alone.
    pub fn on_item_download(&mut self, idx: usize) -> (cmd: GuiCommand)
        requires
            old(self).wf(),
            idx < old(self).items@.len(),
        ensures
            final(self).wf(),
            single_download(cmd, old(self).items@[idx as int].key, old(self).token_input@),
            became_busy(
                *old(self),
                *final(self),
                "Downloading "@ + old(self).items@[idx as int].name@ + "..."@,
            ),
    {
        let token = self.token();
        let mut keys: Vec<usize> = Vec::new();
        keys.push(self.items[idx].key);
        let message = concat3("Downloading ", self.items[idx].name.as_str(), "...");
        self.start_busy(message);
        assert(keys@ =~= seq![old(self).items@[idx as int].key]);
        GuiCommand::DownloadBatch { keys, token, jobs: 1 }
    }

    /// "Download File" of the preview pane: downloads the previewed entry.
    pub fn on_preview_download(&mut self) -> (cmd: Option<GuiCommand>)
        requires
            old(self).wf(),
        ensures
            final(self).wf(),
            match old(self).selected_preview {
                Some(i) => {
                    &&& cmd matches Some(c) && single_download(
                        c,
                        old(self).items@[i as int].key,
                        old(self).token_input@,
                    )
                    &&& became_busy(
                        *old(self),
                        *final(self),
                        "Downloading "@ + old(self).items@[i as int].name@ + "..."@,
                    )
                },
                None => cmd is None && *final(self) == *old(self),
            },
    {
        match self.selected_preview {
            Some(i) => Some(self.on_item_download(i)),
            None => None,
        }
    }

    /// "Copy" of the preview pane: the text to put on the clipboard, and a
    /// status message saying so. There is nothing to copy while no file is
    /// shown.
    pub fn on_copy_preview(&mut self) -> (copied: Option<String>)
        requires
            old(self).wf(),
        ensures
            final(self).wf(),
            match (old(self).selected_preview, old(self).preview_content) {
                (Some(_), Some(content)) => {
                    &&& copied == Some(content)
                    &&& *final(self) == (AppState {
                        status: final(self).status,
                        status_serial: final(self).status_serial,
                        ..*old(self)
                    })
                    &&& status_set(*old(self), *final(self), "Copied code to clipboard!"@, false)
                },
                _ => copied is None && *final(self) == *old(self),
            },
    {
        if self.selected_preview.is_none() {
            return None;
        }
        match &self.preview_content {
            Some(content) => {
                let copied = content.clone();
                self.set_status(owned("Copied code to clipboard!"), false);
                Some(copied)
            },
            None => None,
        }
    }

    // -----------------------------------------------------------------------
    // Releases and search
    // -----------------------------------------------------------------------

    /// "Refresh" or "Fetch Releases Now": fetches the releases.
    pub fn on_fetch_releases(&mut self) -> (cmd: GuiCommand)
        requires
            old(self).wf(),
        ensures
            final(self).wf(),
            cmd == GuiCommand::FetchReleases,
            became_busy(*old(self), *final(self), "Fetching repository releases..."@),
    {
        self.start_busy(owned("Fetching repository releases..."));
        GuiCommand::FetchReleases
    }

    /// "Download Asset" of asset `asset` of release `release`.
    pub fn on_release_asset_download(&mut self, release: usize, asset: usize) -> (cmd: GuiCommand)
        requires
            old(self).wf(),
            release < old(self).releases@.len(),
            asset < old(self).releases@[release as int].assets@.len(),
        ensures
            final(self).wf(),
            ({
                let a = old(self).releases@[release as int].assets@[asset as int];
                &&& cmd matches GuiCommand::DownloadReleaseAsset { name, download_url, token } && name@
                    == a.name@ && download_url@ == a.download_url@ && opt_view(token) == token_of(
                    old(self).token_input@,
                )
                &&& became_busy(
                    *old(self),
                    *final(self),
                    "Downloading release asset "@ + a.name@ + "..."@,
                )
            }),
    {
        let token = self.token();
        let name = self.releases[release].assets[asset].name.clone();
        let download_url = self.releases[release].assets[asset].download_url.clone();
        self.start_busy(concat3("Downloading release asset ", name.as_str(), "..."));
        GuiCommand::DownloadReleaseAsset { name, download_url, token }
    }

    /// "Search" (or Enter in the search field): searches for the trimmed
    /// query, unless nothing is left of it.
    pub fn on_search(&mut self) -> (cmd: Option<GuiCommand>)
        requires
            old(self).wf(),
        ensures
            final(self).wf(),
            if trimmed(old(self).search_query_input@).len() == 0 {
                cmd is None && *final(self) == *old(self)
            } else {
                &&& cmd matches Some(GuiCommand::SearchRepositories { query }) && query@ == trimmed(
                    old(self).search_query_input@,
                )
                &&& became_busy(
                    *old(self),
                    *final(self),
                    "Searching for '"@ + old(self).search_query_input@ + "'..."@,
                )
            },
    {
        let query = trim(self.search_query_input.as_str());
        if query.is_empty() {
            return None;
        }
        let query = owned(query);
        let message = concat3("Searching for '", self.search_query_input.as_str(), "'...");
        self.start_busy(message);
        Some(GuiCommand::SearchRepositories { query })
    }

    /// "Load Repo" of search result `idx`: loads that repository in the
    /// file browser.
    pub fn on_search_result_load(&mut self, idx: usize) -> (cmd: GuiCommand)
        requires
            old(self).wf(),
            idx < old(self).search_results@.len(),
        ensures
            final(self).wf(),
            ({
                let url = old(self).search_results@[idx as int].html_url@;
                &&& cmd matches GuiCommand::LoadRepo { url: u, token } && u@ == url && opt_view(token)
                    == token_of(old(self).token_input@)
                &&& final(self).repo_url_input@ == url
                &&& became_busy(
                    AppState {
                        repo_url_input: final(self).repo_url_input,
                        active_tab: AppTab::Browser,
                        ..*old(self)
                    },
                    *final(self),
                    "Loading "@ + url + "..."@,
                )
            }),
    {
        let url = self.search_results[idx].html_url.clone();
        self.repo_url_input = url.clone();
        self.active_tab = AppTab::Browser;
        let token = self.token();
        self.start_busy(concat3("Loading ", url.as_str(), "..."));
        GuiCommand::LoadRepo { url, token }
    }

    // -----------------------------------------------------------------------
    // Settings
    // -----------------------------------------------------------------------

    /// The show/hide button of the token field.
    pub fn toggle_show_token(&mut self)
        requires
            old(self).wf(),
        ensures
            final(self).wf(),
            *final(self) == (AppState { show_token: !old(self).show_token, ..*old(self) }),
    {
        self.show_token = !self.show_token;
    }

    /// The label of the show/hide button of the token field.
    pub fn show_token_label(&self) -> (label: &'static str)
        ensures
            label@ == (if self.show_token {
                "🙈 Hide"@
            } else {
                "👁 Show"@
            }),
    {
        if self.show_token {
            "🙈 Hide"
        } else {
            "👁 Show"
        }
    }

    /// What "Import from gh" does with the reply of the GitHub command-line
    /// tool: a token it printed replaces the token input; a failure is
    /// reported.
    pub fn on_cli_token_reply(&mut self, reply: CliTokenReply)
        requires
            old(self).wf(),
        ensures
            final(self).wf(),
            match reply {
                CliTokenReply::Failed => {
                    &&& *final(self) == (AppState {
                        status: final(self).status,
                        status_serial: final(self).status_serial,
                        ..*old(self)
                    })
                    &&& status_set(
                        *old(self),
                        *final(self),
                        "Failed to read token from gh CLI. Run `gh auth login` first."@,
                        true,
                    )
                },
                CliTokenReply::Succeeded(out) => if trimmed(out@).len() == 0 {
                    *final(self) == *old(self)
                } else {
                    &&& *final(self) == (AppState {
                        token_input: final(self).token_input,
                        status: final(self).status,
                        status_serial: final(self).status_serial,
                        ..*old(self)
                    })
                    &&& final(self).token_input@ == trimmed(out@)
                    &&& status_set(*old(self), *final(self), "Token imported from GitHub CLI!"@, false)
                },
            },
    {
        match reply {
            CliTokenReply::Failed => {
                self.set_status(
                    owned("Failed to read token from gh CLI. Run `gh auth login` first."),
                    true,
                );
            },
            CliTokenReply::Succeeded(out) => {
                let token = trim(out.as_str());
                if !token.is_empty() {
                    self.token_input = owned(token);
                    self.set_status(owned("Token imported from GitHub CLI!"), false);
                }
            },
        }
    }

    /// "Clear Log": forgets the download messages.
    pub fn clear_logs(&mut self)
        requires
            old(self).wf(),
        ensures
            final(self).wf(),
            *final(self) == (AppState { download_logs: final(self).download_logs, ..*old(self) }),
            final(self).download_logs@.len() == 0,
    {
        self.download_logs = Vec::new();
    }

    // -----------------------------------------------------------------------
    // Startup
    // -----------------------------------------------------------------------

    /// Whether the GitHub command-line tool is asked for a token at startup:
    /// only when the configuration holds none, or an empty one.
    pub fn needs_cli_token(config_token: &Option<String>) -> (r: bool)
        ensures
            r == (match config_token {
                Some(t) => t@.len() == 0,
                None => true,
            }),
    {
        match config_token {
            Some(t) => t.as_str().is_empty(),
            None => true,
        }
    }

    /// The token the interface starts with: the configured one; if there is
    /// none, what the command-line tool printed (`cli_output`, where it ran
    /// and succeeded), trimmed, if anything is left of it.
    pub fn initial_token(config_token: Option<String>, cli_output: Option<String>) -> (token: String)
        ensures
            ({
                let configured = match config_token {
                    Some(t) => t@,
                    None => Seq::empty(),
                };
                token@ == (if configured.len() == 0 && cli_output is Some && trimmed(
                    cli_output->0@,
                ).len() > 0 {
                    trimmed(cli_output->0@)
                } else {
                    configured
                })
            }),
    {
        let configured = match config_token {
            Some(t) => t,
            None => String::new(),
        };
        if configured.as_str().is_empty() {
            if let Some(out) = cli_output {
                let token = trim(out.as_str());
                if !token.is_empty() {
                    return owned(token);
                }
            }
        }
        configured
    }
}

} // verus!
