use cluster_dash::scope::ScopeCollection;
use cluster_dash::scope::ScopeEntry;
use cluster_dash::scope::ScopeKind;
use cluster_dash::scope::filter_indices_by;
use cluster_dash::scope::scope_tab_index;
use cluster_dash::scope::scope_title;

fn index(name: &str) -> ScopeEntry {
    ScopeEntry::Index {
        name: name.to_string(),
        health: "green".to_string(),
        docs_count: "1".to_string(),
    }
}

#[test]
fn empty_filter_keeps_full_collection_in_order() {
    let entries = vec![index("beta"), index("alpha"), index("gamma")];
    assert_eq!(filter_indices_by(&entries, ""), vec![0, 1, 2]);
}

#[test]
fn filter_matches_case_insensitive_substring() {
    let entries = vec![index("Logs-2024"), index("metrics"), index("LOGS-old")];
    assert_eq!(filter_indices_by(&entries, "logs"), vec![0, 2]);
}

#[test]
fn filter_with_no_match_yields_empty_view() {
    let entries = vec![index("alpha"), index("beta")];
    assert_eq!(filter_indices_by(&entries, "zzz"), Vec::<usize>::new());
}

#[test]
fn uppercase_entry_matches_lowercase_needle() {
    // Exercises Unicode case folding: an identity-preserving fold would
    // leave "LOGS" without the substring "logs".
    let entries = vec![index("LOGS")];
    assert_eq!(filter_indices_by(&entries, "logs"), vec![0]);
}

#[test]
fn replacement_preserves_selection_by_key() {
    let mut col = ScopeCollection {
        entries: vec![index("a"), index("b"), index("c")],
        selected: Some(1),
    };
    col.replace_entries(vec![index("c"), index("b")]);
    assert_eq!(col.selected, Some(1));
    match &col.entries[1] {
        ScopeEntry::Index { name, .. } => assert_eq!(name, "b"),
        _ => panic!("expected an index entry"),
    }
}

#[test]
fn replacement_falls_back_to_first_when_key_is_gone() {
    let mut col = ScopeCollection {
        entries: vec![index("a")],
        selected: Some(0),
    };
    col.replace_entries(vec![index("x"), index("y")]);
    assert_eq!(col.selected, Some(0));
}

#[test]
fn replacement_clears_selection_when_collection_empties() {
    let mut col = ScopeCollection {
        entries: vec![index("a")],
        selected: Some(0),
    };
    col.replace_entries(Vec::new());
    assert_eq!(col.selected, None);
}

#[test]
fn replacement_without_prior_selection_selects_first() {
    let mut col = ScopeCollection {
        entries: Vec::new(),
        selected: None,
    };
    col.replace_entries(vec![index("a"), index("b")]);
    assert_eq!(col.selected, Some(0));
}

#[test]
fn scope_tabs_are_ordered() {
    assert_eq!(scope_tab_index(ScopeKind::Indices), 0);
    assert_eq!(scope_tab_index(ScopeKind::Aliases), 1);
    assert_eq!(scope_tab_index(ScopeKind::DataStreams), 2);
}

#[test]
fn scope_titles_name_each_kind() {
    assert_eq!(scope_title(ScopeKind::Indices), "Indices");
    assert_eq!(scope_title(ScopeKind::Aliases), "Aliases");
    assert_eq!(scope_title(ScopeKind::DataStreams), "DataStreams");
}
