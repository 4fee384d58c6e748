use cluster_dash::browse::result_id_width;
use cluster_dash::browse::results_title;
use cluster_dash::state::AppState;

fn fresh() -> AppState {
    AppState::new("http://localhost:9200".to_string())
}

#[test]
fn next_then_prev_restores_offset() {
    let mut s = fresh();
    s.docs_total = Some(12);
    assert_eq!(s.docs_from, 0);
    s.next_docs_page();
    assert_eq!(s.docs_from, 5);
    s.prev_docs_page();
    assert_eq!(s.docs_from, 0);
}

#[test]
fn next_page_is_noop_at_the_end() {
    let mut s = fresh();
    s.docs_total = Some(12);
    s.docs_from = 10;
    s.next_docs_page();
    assert_eq!(s.docs_from, 10);
}

#[test]
fn next_page_advances_optimistically_without_total() {
    let mut s = fresh();
    assert_eq!(s.docs_total, None);
    s.next_docs_page();
    assert_eq!(s.docs_from, 5);
    s.next_docs_page();
    assert_eq!(s.docs_from, 10);
}

#[test]
fn prev_page_clamps_at_zero() {
    let mut s = fresh();
    s.docs_from = 3;
    s.docs_size = 5;
    s.prev_docs_page();
    assert_eq!(s.docs_from, 0);
    s.prev_docs_page();
    assert_eq!(s.docs_from, 0);
}

#[test]
fn reset_forgets_cursor_total_and_selection() {
    let mut s = fresh();
    s.docs_from = 10;
    s.docs_total = Some(40);
    s.docs_selected = Some(2);
    s.reset_docs_paging();
    assert_eq!(s.docs_from, 0);
    assert_eq!(s.docs_total, None);
    assert_eq!(s.docs_selected, None);
}

#[test]
fn title_shows_page_position_when_total_known() {
    assert_eq!(results_title(0, 5, Some(12)), "Results (page 1/3, total 12)");
    assert_eq!(results_title(5, 5, Some(12)), "Results (page 2/3, total 12)");
    assert_eq!(results_title(10, 5, Some(10)), "Results (page 3/2, total 10)");
}

#[test]
fn title_shows_zero_results_plainly() {
    assert_eq!(results_title(0, 5, Some(0)), "Results (0)");
}

#[test]
fn title_shows_offset_when_total_unknown() {
    assert_eq!(results_title(5, 5, None), "Results (from 5, size 5)");
    assert_eq!(results_title(0, 5, None), "Results (from 0, size 5)");
}

#[test]
fn id_width_tracks_a_third_of_the_table() {
    assert_eq!(result_id_width(60), 20);
    assert_eq!(result_id_width(10), 12);
    assert_eq!(result_id_width(300), 28);
}
