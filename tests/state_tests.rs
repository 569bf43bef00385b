use std::collections::HashSet;

use ccsessionctl::session::Session;
use ccsessionctl::state::{DialogAction, SortField, UiState, View};

const DAY: i64 = 86_400_000;

fn session(id: &str, project: &str, size: u64, modified: i64) -> Session {
    Session::new(
        id.to_string(),
        project.to_string(),
        format!("-home-{}", project),
        format!("/tmp/{}.jsonl", id),
        size,
        modified,
        false,
    )
}

fn three_by_date() -> UiState {
    // T1 > T2 > T3, stored out of order.
    let t1 = 3_000_000;
    let t2 = 2_000_000;
    let t3 = 1_000_000;
    UiState::new(vec![session("b", "p", 10, t2), session("c", "p", 30, t3), session("a", "q", 20, t1)])
}

#[test]
fn default_sort_is_newest_first_and_reversible() {
    let mut st = three_by_date();
    assert_eq!(st.sort_field, SortField::Date);
    st.apply_filters();
    st.apply_sort();
    assert_eq!(st.filtered_indices, vec![2, 0, 1]);
    st.toggle_sort_direction();
    assert!(st.sort_reversed);
    assert_eq!(st.filtered_indices, vec![1, 0, 2]);
    assert_eq!(st.status_message.as_deref(), Some("Sort: Date \u{2191}"));
}

#[test]
fn sort_by_size_project_and_name() {
    let mut st = three_by_date();
    st.cycle_sort_field();
    assert_eq!(st.sort_field, SortField::Size);
    assert_eq!(st.filtered_indices, vec![1, 2, 0]);
    assert_eq!(st.status_message.as_deref(), Some("Sort: Size \u{2193}"));
    st.cycle_sort_field();
    assert_eq!(st.sort_field, SortField::Project);
    assert_eq!(st.filtered_indices, vec![1, 0, 2]);
    st.sessions[0].summary = Some("zebra".to_string());
    st.sessions[1].first_message = Some("apple".to_string());
    st.cycle_sort_field();
    assert_eq!(st.sort_field, SortField::Name);
    assert_eq!(st.filtered_indices, vec![2, 1, 0]);
    st.cycle_sort_field();
    assert_eq!(st.sort_field, SortField::Date);
}

#[test]
fn sort_keeps_membership() {
    let mut st = three_by_date();
    st.filter.project = Some("p".to_string());
    st.apply_filters();
    let mut before = st.filtered_indices.clone();
    st.cycle_sort_field();
    let mut after = st.filtered_indices.clone();
    before.sort();
    after.sort();
    assert_eq!(before, after);
    assert_eq!(before, vec![0, 1]);
}

#[test]
fn query_matches_search_content() {
    let mut a = session("a", "p", 1, 0);
    a.search_content = Some("hello foo bar".to_string());
    let mut b = session("b", "p", 1, 0);
    b.search_content = Some("hello bar".to_string());
    let mut st = UiState::new(vec![a, b]);
    st.filter.query = "foo".to_string();
    st.apply_filters();
    assert_eq!(st.filtered_indices, vec![0]);
    st.filter.query = "FOO".to_string();
    st.apply_filters();
    assert_eq!(st.filtered_indices, vec![0]);
}

#[test]
fn query_falls_back_to_metadata_when_unscanned() {
    let mut a = session("abc-id", "Alpha", 1, 0);
    a.summary = Some("Refactor Parser".to_string());
    let b = session("xyz", "Beta", 1, 0);
    let mut st = UiState::new(vec![a, b]);
    st.filter.query = "parser".to_string();
    st.apply_filters();
    assert_eq!(st.filtered_indices, vec![0]);
    st.filter.query = "beta".to_string();
    st.apply_filters();
    assert_eq!(st.filtered_indices, vec![1]);
}

#[test]
fn age_filter_at_fixed_time() {
    let now = 100 * DAY;
    let old = session("old", "p", 1, now - 40 * DAY);
    let fresh = session("new", "p", 1, now - 2 * DAY);
    let edge = session("edge", "p", 1, now - 30 * DAY + 1);
    let mut st = UiState::new(vec![old, fresh, edge]);
    st.filter.age_days = Some(30);
    st.apply_filters_at(now);
    assert_eq!(st.filtered_indices, vec![0]);
    let older = st.sessions_older_than(now, 30);
    assert_eq!(older, [0usize].into_iter().collect::<HashSet<usize>>());
}

#[test]
fn filters_clamp_cursor_and_reset_scroll() {
    let mut st = three_by_date();
    st.cursor_bottom();
    assert_eq!(st.cursor, 2);
    st.scroll_offset = 1;
    st.filter.project = Some("q".to_string());
    st.apply_filters();
    assert_eq!(st.filtered_indices, vec![2]);
    assert_eq!(st.cursor, 0);
    assert_eq!(st.scroll_offset, 0);
    st.filter.project = Some("none".to_string());
    st.apply_filters();
    assert!(st.filtered_indices.is_empty());
    assert_eq!(st.cursor, 0);
    assert!(st.current_session().is_none());
}

#[test]
fn cursor_moves_saturate() {
    let mut st = three_by_date();
    st.cursor_up();
    assert_eq!(st.cursor, 0);
    st.cursor_down();
    st.cursor_down();
    st.cursor_down();
    assert_eq!(st.cursor, 2);
    st.page_up(10);
    assert_eq!(st.cursor, 0);
    st.page_down(10);
    assert_eq!(st.cursor, 2);
    st.cursor_top();
    assert_eq!(st.cursor, 0);
    assert_eq!(st.current_session_index(), Some(0));
    assert_eq!(st.current_session().unwrap().id, "b");
}

#[test]
fn scroll_follows_cursor() {
    let sessions: Vec<Session> = (0..30).map(|i| session(&format!("s{}", i), "p", 1, i)).collect();
    let mut st = UiState::new(sessions);
    st.page_down(25);
    assert_eq!(st.cursor, 25);
    assert_eq!(st.scroll_offset, 6);
    st.set_visible_height(5);
    assert_eq!(st.scroll_offset, 21);
    st.cursor_top();
    assert_eq!(st.scroll_offset, 0);
}

#[test]
fn selection_toggle_all_and_clear() {
    let mut st = three_by_date();
    st.toggle_selection();
    assert!(st.is_selected(0));
    st.toggle_selection();
    assert!(!st.is_selected(0));
    st.filter.project = Some("p".to_string());
    st.apply_filters();
    st.select_all();
    assert!(st.is_selected(0) && st.is_selected(1) && !st.is_selected(2));
    st.filter.project = None;
    st.apply_filters();
    assert!(st.is_selected(1));
    let picked: Vec<&str> = st.get_selected_sessions().iter().map(|s| s.id.as_str()).collect();
    assert_eq!(picked, vec!["b", "c"]);
    st.clear_selection();
    assert!(st.selected.is_empty());
}

#[test]
fn removal_then_filter_drops_index() {
    let mut st = three_by_date();
    st.select_all();
    let gone: HashSet<usize> = [2usize].into_iter().collect();
    st.remove_sessions(&gone);
    st.apply_filters();
    assert_eq!(st.sessions.len(), 2);
    assert!(!st.filtered_indices.contains(&2));
    assert!(!st.selected.contains(&2));
    assert!(st.selected.is_empty());
    assert_eq!(st.projects, vec!["p"]);
}

#[test]
fn removal_of_several_keeps_order() {
    let mut st = three_by_date();
    let gone: HashSet<usize> = [0usize, 2, 9].into_iter().collect();
    st.remove_sessions(&gone);
    assert_eq!(st.sessions.len(), 1);
    assert_eq!(st.sessions[0].id, "c");
    assert_eq!(st.filtered_indices, vec![0]);
}

#[test]
fn project_filter_cycles_through_all() {
    let mut st = three_by_date();
    assert_eq!(st.current_project_filter(), "All");
    st.cycle_project_filter();
    assert_eq!(st.current_project_filter(), "p");
    assert_eq!(st.filtered_indices, vec![0, 1]);
    st.cycle_project_filter();
    assert_eq!(st.current_project_filter(), "q");
    assert_eq!(st.filtered_indices, vec![2]);
    st.cycle_project_filter();
    assert_eq!(st.current_project_filter(), "All");
    assert!(st.filter.project.is_none());
    assert_eq!(st.filtered_indices.len(), 3);
}

#[test]
fn dialogs_and_status() {
    let mut st = three_by_date();
    st.show_confirm("Delete?".to_string(), DialogAction::DeleteOlderThan(30));
    assert_eq!(st.view, View::Confirm);
    assert_eq!(st.dialog_action, Some(DialogAction::DeleteOlderThan(30)));
    st.clear_dialog();
    assert_eq!(st.view, View::List);
    assert!(st.dialog_message.is_none());
    st.set_status("hi".to_string());
    assert_eq!(st.status_message.as_deref(), Some("hi"));
    st.clear_status();
    assert!(st.status_message.is_none());
    assert_eq!(SortField::Name.next(), SortField::Date);
    assert_eq!(SortField::Project.as_str(), "Project");
}

#[test]
fn preview_search_wraps_around() {
    let mut st = three_by_date();
    st.preview_lines = vec![
        "alpha".to_string(),
        "Beta match".to_string(),
        "gamma".to_string(),
        "MATCH again".to_string(),
    ];
    st.preview_scroll = 2;
    st.preview_search = "match".to_string();
    st.update_preview_search();
    assert_eq!(st.preview_matches, vec![1, 3]);
    assert_eq!(st.preview_scroll, 1);
    st.next_preview_match();
    assert_eq!(st.preview_scroll, 3);
    st.next_preview_match();
    assert_eq!(st.preview_scroll, 1);
    st.prev_preview_match();
    assert_eq!(st.preview_scroll, 3);
    st.preview_search = "zzz".to_string();
    st.update_preview_search();
    assert!(st.preview_matches.is_empty());
    assert_eq!(st.preview_scroll, 3);
    st.next_preview_match();
    assert_eq!(st.preview_scroll, 3);
    st.clear_preview_search();
    assert!(st.preview_search.is_empty() && !st.preview_search_active);
}

#[test]
fn action_targets_prefer_selection() {
    let mut st = three_by_date();
    st.cursor_down();
    let only_current: HashSet<usize> = [1usize].into_iter().collect();
    assert_eq!(st.action_targets(), only_current);
    st.selected.insert(2);
    st.selected.insert(0);
    st.selected.insert(7);
    let chosen: HashSet<usize> = [0usize, 2].into_iter().collect();
    assert_eq!(st.action_targets(), chosen);
}

#[test]
fn reapplying_filters_changes_nothing() {
    let mut st = three_by_date();
    st.filter.project = Some("p".to_string());
    st.apply_filters_at(0);
    st.cursor_down();
    let first = st.filtered_indices.clone();
    let cursor = st.cursor;
    st.apply_filters_at(0);
    assert_eq!(st.filtered_indices, first);
    assert_eq!(st.cursor, cursor);
}

#[test]
fn removal_keeps_project_filter() {
    let mut st = three_by_date();
    st.cycle_project_filter();
    st.cycle_project_filter();
    assert_eq!(st.current_project_filter(), "q");
    let gone: HashSet<usize> = [2usize].into_iter().collect();
    st.remove_sessions(&gone);
    assert_eq!(st.filter.project.as_deref(), Some("q"));
    assert_eq!(st.current_project_filter(), "q");
    assert_eq!(st.project_filter_index, 0);
    assert!(st.filtered_indices.is_empty());
    st.cycle_project_filter();
    assert_eq!(st.current_project_filter(), "p");
    assert_eq!(st.filtered_indices, vec![0, 1]);
}

#[test]
fn removal_relocates_surviving_project_filter() {
    let mut st = UiState::new(vec![
        session("a", "alpha", 1, 0),
        session("b", "beta", 1, 0),
        session("c", "gamma", 1, 0),
    ]);
    st.cycle_project_filter();
    st.cycle_project_filter();
    assert_eq!(st.current_project_filter(), "beta");
    let gone: HashSet<usize> = [0usize].into_iter().collect();
    st.remove_sessions(&gone);
    assert_eq!(st.project_filter_index, 1);
    assert_eq!(st.current_project_filter(), "beta");
    assert_eq!(st.filter.project.as_deref(), Some("beta"));
    assert_eq!(st.filtered_indices, vec![0]);
}

#[test]
fn refiltering_after_sort_restores_collection_order() {
    let mut st = three_by_date();
    st.apply_filters_at(0);
    st.apply_sort();
    assert_eq!(st.filtered_indices, vec![2, 0, 1]);
    st.apply_filters_at(0);
    assert_eq!(st.filtered_indices, vec![0, 1, 2]);
}
