use cluster_dash::browse::DocEntry;
use cluster_dash::browse::SearchSummary;
use cluster_dash::browse::search_request_body;
use cluster_dash::json::JsonValue;
use cluster_dash::json::to_compact;
use cluster_dash::scope::ScopeEntry;
use cluster_dash::scope::ScopeKind;
use cluster_dash::state::Action;
use cluster_dash::state::AppState;
use cluster_dash::state::ClusterHealth;
use cluster_dash::state::FetchSource;
use cluster_dash::state::Focus;
use cluster_dash::state::InputMode;
use cluster_dash::state::KeyInput;
use cluster_dash::state::fetch_error_line;
use cluster_dash::state::join_error_lines;
use cluster_dash::view::query_line;
use cluster_dash::view::status_summary;

fn fresh() -> AppState {
    AppState::new("http://localhost:9200".to_string())
}

fn index(name: &str) -> ScopeEntry {
    ScopeEntry::Index {
        name: name.to_string(),
        health: "green".to_string(),
        docs_count: "1".to_string(),
    }
}

fn doc(id: &str) -> DocEntry {
    DocEntry { id: id.to_string(), source: JsonValue::Null }
}

fn summary(total: Option<u64>) -> SearchSummary {
    SearchSummary { total, took: Some(3), shards_failed: Some(0), timed_out: Some(false) }
}

#[test]
fn failing_health_fetch_does_not_block_indices() {
    let mut s = fresh();
    let mut errs: Vec<String> = Vec::new();
    errs.push(fetch_error_line(FetchSource::Health, "connection refused"));
    s.replace_scope(ScopeKind::Indices, vec![index("logs"), index("metrics")]);
    s.set_refresh_errors(errs);

    let message = s.last_error.clone().expect("an error summary");
    assert!(message.contains("connection refused"));
    assert!(message.contains("health: "));
    assert_eq!(s.indices.entries.len(), 2);
    assert_eq!(s.indices.selected, Some(0));
}

#[test]
fn clean_pass_clears_the_error_summary() {
    let mut s = fresh();
    s.last_error = Some("old".to_string());
    s.set_refresh_errors(Vec::new());
    assert_eq!(s.last_error, None);
}

#[test]
fn error_lines_join_with_a_separator() {
    let errs = vec![
        fetch_error_line(FetchSource::Health, "a"),
        fetch_error_line(FetchSource::Docs, "b"),
    ];
    assert_eq!(join_error_lines(&errs), "health: a | docs: b");
}

#[test]
fn lone_docs_failure_replaces_the_summary() {
    let mut s = fresh();
    s.set_docs_error("shard storm");
    assert_eq!(s.last_error, Some("docs: shard storm".to_string()));
}

#[test]
fn empty_data_stream_scope_yields_empty_state_without_error() {
    let mut s = fresh();
    s.replace_scope(ScopeKind::Indices, vec![index("logs")]);
    s.set_scope_kind(ScopeKind::DataStreams);
    assert_eq!(s.filtered_scope_indices(), Vec::<usize>::new());
    s.ensure_scope_selection_visible();
    assert_eq!(s.scope_selected(), None);
    // With nothing selected the document fetch is skipped and the state
    // cleared, which is displayable rather than an error.
    assert_eq!(s.selected_scope_name(), None);
    s.clear_docs();
    assert!(s.documents.is_empty());
    assert_eq!(s.docs_total, None);
    assert_eq!(s.last_error, None);
}

#[test]
fn fetched_documents_replace_the_list_and_clamp_selection() {
    let mut s = fresh();
    s.docs_selected = Some(5);
    s.apply_docs_result(vec![doc("a"), doc("b")], summary(Some(2)));
    assert_eq!(s.docs_selected, Some(1));
    assert_eq!(s.docs_total, Some(2));
    s.apply_docs_result(Vec::new(), summary(None));
    assert_eq!(s.docs_selected, None);
}

#[test]
fn health_report_lands_in_state() {
    let mut s = fresh();
    s.apply_health(ClusterHealth { cluster_name: "dev".to_string(), status: "yellow".to_string() });
    let h = s.health.clone().expect("health");
    assert_eq!(h.cluster_name, "dev");
    assert_eq!(h.status, "yellow");
}

#[test]
fn query_editing_touches_only_the_buffer() {
    let mut s = fresh();
    assert_eq!(s.handle_key(KeyInput::Char('/')), Action::Idle);
    assert_eq!(s.input_mode, InputMode::Query);
    s.handle_key(KeyInput::Char('h'));
    s.handle_key(KeyInput::Char('i'));
    assert_eq!(s.query_edit, "hi");
    assert_eq!(s.query, "");
    s.handle_key(KeyInput::Backspace);
    assert_eq!(s.query_edit, "h");
    assert_eq!(s.handle_key(KeyInput::Esc), Action::Idle);
    assert_eq!(s.input_mode, InputMode::Normal);
    assert_eq!(s.query, "");
}

#[test]
fn query_commit_trims_and_resets_paging() {
    let mut s = fresh();
    s.docs_from = 10;
    s.docs_total = Some(50);
    s.handle_key(KeyInput::Char('/'));
    for c in "  hello  ".chars() {
        s.handle_key(KeyInput::Char(c));
    }
    assert_eq!(s.handle_key(KeyInput::Enter), Action::FetchDocs);
    assert_eq!(s.query, "hello");
    assert_eq!(s.input_mode, InputMode::Normal);
    assert_eq!(s.docs_from, 0);
    assert_eq!(s.docs_total, None);
}

#[test]
fn query_edit_seeds_from_the_committed_value() {
    let mut s = fresh();
    s.query = "prior".to_string();
    s.handle_key(KeyInput::Char('/'));
    assert_eq!(s.query_edit, "prior");
    let spans = query_line(&s);
    assert_eq!(spans[0].text, "Query*");
    assert_eq!(spans[2].text, "prior");
}

#[test]
fn filter_edits_touch_only_the_buffer_until_commit() {
    let mut s = fresh();
    s.replace_scope(ScopeKind::Indices, vec![index("alpha"), index("beta")]);
    s.handle_key(KeyInput::Ctrl('f'));
    assert_eq!(s.input_mode, InputMode::ScopeFilter);
    for c in "beta x".chars() {
        s.handle_key(KeyInput::Char(c));
    }
    // Typing and backspace change the edit buffer alone.
    assert_eq!(s.scope_filter_edit, "beta x");
    assert_eq!(s.scope_filter, "");
    s.handle_key(KeyInput::Backspace);
    s.handle_key(KeyInput::Backspace);
    assert_eq!(s.scope_filter_edit, "beta");
    assert_eq!(s.scope_filter, "");
    let act = s.handle_key(KeyInput::Enter);
    assert_eq!(s.scope_filter, "beta");
    assert_eq!(s.input_mode, InputMode::Normal);
    // The old selection (alpha) left the filtered view, so the selection
    // moved and a document fetch is due.
    assert_eq!(act, Action::FetchDocs);
    assert_eq!(s.scope_selected(), Some(1));
}

#[test]
fn filter_commit_trims_the_buffer() {
    let mut s = fresh();
    s.replace_scope(ScopeKind::Indices, vec![index("alpha")]);
    s.handle_key(KeyInput::Ctrl('f'));
    for c in "  alp  ".chars() {
        s.handle_key(KeyInput::Char(c));
    }
    s.handle_key(KeyInput::Enter);
    assert_eq!(s.scope_filter, "alp");
}

#[test]
fn filter_cancel_discards_only_the_buffer() {
    let mut s = fresh();
    s.replace_scope(ScopeKind::Indices, vec![index("alpha")]);
    s.scope_filter = "alp".to_string();
    s.handle_key(KeyInput::Ctrl('f'));
    assert_eq!(s.scope_filter_edit, "alp");
    s.handle_key(KeyInput::Char('z'));
    assert_eq!(s.scope_filter_edit, "alpz");
    assert_eq!(s.scope_filter, "alp");
    let act = s.handle_key(KeyInput::Esc);
    // The committed filter stands untouched; only the buffer is gone.
    assert_eq!(act, Action::Idle);
    assert_eq!(s.scope_filter, "alp");
    assert_eq!(s.scope_filter_edit, "");
    assert_eq!(s.input_mode, InputMode::Normal);
    assert_eq!(s.scope_selected(), Some(0));
}

#[test]
fn selection_move_on_empty_view_clears_and_resets_paging() {
    let mut s = fresh();
    s.scope_filter = "nothing-matches".to_string();
    s.replace_scope(ScopeKind::Indices, vec![index("alpha")]);
    s.docs_from = 10;
    s.docs_total = Some(40);
    s.docs_selected = Some(1);
    s.select_next_scope_item();
    assert_eq!(s.scope_selected(), None);
    assert_eq!(s.docs_from, 0);
    assert_eq!(s.docs_total, None);
    assert_eq!(s.docs_selected, None);
}

#[test]
fn scope_selection_wraps_both_ways() {
    let mut s = fresh();
    s.replace_scope(ScopeKind::Indices, vec![index("a"), index("b"), index("c")]);
    assert_eq!(s.scope_selected(), Some(0));
    s.select_next_scope_item();
    assert_eq!(s.scope_selected(), Some(1));
    s.select_next_scope_item();
    s.select_next_scope_item();
    assert_eq!(s.scope_selected(), Some(0));
    s.select_prev_scope_item();
    assert_eq!(s.scope_selected(), Some(2));
}

#[test]
fn document_selection_wraps_both_ways() {
    let mut s = fresh();
    s.documents = vec![doc("a"), doc("b")];
    s.select_next_doc();
    assert_eq!(s.docs_selected, Some(0));
    s.select_next_doc();
    assert_eq!(s.docs_selected, Some(1));
    s.select_next_doc();
    assert_eq!(s.docs_selected, Some(0));
    s.select_prev_doc();
    assert_eq!(s.docs_selected, Some(1));
}

#[test]
fn switching_kind_resets_paging_but_keeps_query() {
    let mut s = fresh();
    s.query = "kept".to_string();
    s.docs_from = 15;
    s.docs_total = Some(99);
    s.set_scope_kind(ScopeKind::Aliases);
    assert_eq!(s.scope_kind, ScopeKind::Aliases);
    assert_eq!(s.docs_from, 0);
    assert_eq!(s.docs_total, None);
    assert_eq!(s.query, "kept");
    // Switching to the kind already active changes nothing.
    s.docs_from = 5;
    s.set_scope_kind(ScopeKind::Aliases);
    assert_eq!(s.docs_from, 5);
}

#[test]
fn normal_mode_commands_map_to_actions() {
    let mut s = fresh();
    assert_eq!(s.handle_key(KeyInput::Char('q')), Action::Quit);
    assert_eq!(s.handle_key(KeyInput::Char('r')), Action::RefreshAll);
    assert_eq!(s.handle_key(KeyInput::Char('d')), Action::FetchDocs);
    assert_eq!(s.handle_key(KeyInput::Tab), Action::Idle);
    assert_eq!(s.focus, Focus::Results);
    assert_eq!(s.handle_key(KeyInput::Enter), Action::Idle);
    assert!(s.show_doc_drawer);
    assert_eq!(s.handle_key(KeyInput::Esc), Action::Idle);
    assert!(!s.show_doc_drawer);
}

#[test]
fn paging_keys_move_the_cursor_and_refetch() {
    let mut s = fresh();
    s.docs_total = Some(20);
    assert_eq!(s.handle_key(KeyInput::Char('n')), Action::FetchDocs);
    assert_eq!(s.docs_from, 5);
    assert_eq!(s.handle_key(KeyInput::Char('p')), Action::FetchDocs);
    assert_eq!(s.docs_from, 0);
}

#[test]
fn blank_query_asks_for_everything() {
    let body = search_request_body("   ");
    assert_eq!(to_compact(&body), "{\"query\":{\"match_all\":{}}}");
}

#[test]
fn nonblank_query_is_a_query_string_with_and_terms() {
    let body = search_request_body(" status:active open ");
    assert_eq!(
        to_compact(&body),
        "{\"query\":{\"query_string\":{\"query\":\"status:active open\",\"default_operator\":\"AND\"}}}"
    );
}

#[test]
fn status_line_reports_failures_and_errors() {
    let mut s = fresh();
    let (text, alert) = status_summary(&s);
    assert_eq!(text, "status: hits - | took -");
    assert!(!alert);

    s.docs_total = Some(12);
    s.search_took_ms = Some(34);
    s.search_shards_failed = Some(2);
    s.search_timed_out = Some(true);
    s.last_error = Some("docs: boom".to_string());
    let (text, alert) = status_summary(&s);
    assert_eq!(text, "status: hits 12 | took 34ms | shard_fail 2 | timeout | error");
    assert!(alert);
}
