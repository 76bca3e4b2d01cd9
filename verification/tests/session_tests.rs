use deepboot::batch::ActionOutcome;
use deepboot::filter::SortBy;
use deepboot::models::{Action, StartupEntry, StartupSource};
use deepboot::session::{parse_sort_by, App, Mode};

fn entry(name: &str, source: StartupSource, enabled: bool) -> StartupEntry {
    StartupEntry::new(name.to_string(), format!("{}.exe", name), source, enabled)
}

#[test]
fn selection_survives_view_change() {
    let entries = vec![
        entry("alpha", StartupSource::RegistryRun, true),
        entry("beta", StartupSource::Service, false),
    ];
    let mut app = App::new(entries, SortBy::Name);
    // move the cursor to "beta" (view is name-sorted) and mark it
    app.next();
    app.toggle_selection().unwrap();
    assert_eq!(app.selected_indices, vec![1]);
    // narrow the view so "beta" (disabled) drops out
    app.filter = app.filter.clone().enabled_only();
    app.apply_filter();
    assert_eq!(app.filtered_entries.len(), 1);
    assert_eq!(app.filtered_entries[0].name, "alpha");
    assert_eq!(app.selected_indices, vec![1]);
    // clear the filter: the selection still points at "beta"
    app.filter.clear();
    app.apply_filter();
    assert_eq!(app.filtered_entries.len(), 2);
    assert_eq!(app.selected_indices, vec![1]);
    assert_eq!(app.all_entries[app.selected_indices[0]].name, "beta");
}

#[test]
fn toggle_twice_unmarks() {
    let entries = vec![entry("only", StartupSource::RegistryRun, true)];
    let mut app = App::new(entries, SortBy::Name);
    app.toggle_selection().unwrap();
    assert_eq!(app.selected_indices, vec![0]);
    app.toggle_selection().unwrap();
    assert!(app.selected_indices.is_empty());
}

#[test]
fn disable_scenario_end_to_end() {
    let entries = vec![
        entry("Foo", StartupSource::RegistryRun, true),
        entry("Bar", StartupSource::Service, true),
    ];
    let mut app = App::new(entries, SortBy::Name);
    // name order shows Bar first; move the cursor to Foo
    assert_eq!(app.filtered_entries[0].name, "Bar");
    app.next();
    assert_eq!(app.filtered_entries[app.selected_index].name, "Foo");
    app.request_action(Action::Disable).unwrap();
    assert_eq!(app.mode, Mode::PendingConfirmation);
    assert_eq!(
        app.message.as_deref(),
        Some("Press 'y' to disable 'Foo' or 'n' to cancel")
    );
    let outcomes: Vec<ActionOutcome> = vec![Ok(())];
    let result = app.confirm_pending(&outcomes);
    assert_eq!(result.total, 1);
    assert_eq!(result.success, 1);
    assert_eq!(result.failed, 0);
    assert_eq!(app.mode, Mode::Browsing);
    assert!(app.pending_action.is_none());
    let foo = app.all_entries.iter().find(|e| e.name == "Foo").unwrap();
    assert!(!foo.enabled);
    let bar = app.all_entries.iter().find(|e| e.name == "Bar").unwrap();
    assert!(bar.enabled);
    assert_eq!(
        app.message.as_deref(),
        Some("Batch operation completed: 1 successful, 0 failed out of 1 total (100.0% success rate)")
    );
}

#[test]
fn remove_scenario_drops_only_successes() {
    let entries = vec![
        entry("a", StartupSource::RegistryRun, true),
        entry("b", StartupSource::RegistryRun, true),
        entry("c", StartupSource::RegistryRun, true),
    ];
    let mut app = App::new(entries, SortBy::Name);
    // mark a and c by cursor
    app.toggle_selection().unwrap();
    app.next();
    app.next();
    app.toggle_selection().unwrap();
    assert_eq!(app.selected_indices, vec![0, 2]);
    app.request_action(Action::Remove).unwrap();
    assert_eq!(
        app.message.as_deref(),
        Some("Press 'y' to remove 2 selected entries or 'n' to cancel")
    );
    // the backend removes a but fails on c
    let outcomes: Vec<ActionOutcome> = vec![
        Ok(()),
        Err(deepboot::models::ActionFailure {
            kind: deepboot::models::ErrorKind::PermissionDenied,
            message: "access is denied".to_string(),
        }),
    ];
    let result = app.confirm_pending(&outcomes);
    assert_eq!(result.total, 2);
    assert_eq!(result.success, 1);
    assert_eq!(result.failed, 1);
    assert_eq!(result.errors, vec!["c: access is denied".to_string()]);
    let names: Vec<&str> = app.all_entries.iter().map(|e| e.name.as_str()).collect();
    assert_eq!(names, vec!["b", "c"]);
    assert!(app.selected_indices.is_empty());
}

#[test]
fn enable_confirmation_mutates_nothing() {
    let entries = vec![entry("x", StartupSource::RegistryRun, true)];
    let mut app = App::new(entries, SortBy::Name);
    app.request_action(Action::Enable).unwrap();
    let result = app.confirm_pending(&vec![]);
    assert_eq!(result.failed, 1);
    assert_eq!(result.success, 0);
    assert!(app.all_entries[0].enabled);
}

#[test]
fn cancel_discards_pending() {
    let entries = vec![entry("x", StartupSource::RegistryRun, true)];
    let mut app = App::new(entries, SortBy::Name);
    app.request_action(Action::Remove).unwrap();
    assert_eq!(app.mode, Mode::PendingConfirmation);
    app.cancel_pending();
    assert_eq!(app.mode, Mode::Browsing);
    assert!(app.pending_action.is_none());
    assert_eq!(app.all_entries.len(), 1);
}

#[test]
fn cursor_wraps_both_ways() {
    let entries = vec![
        entry("a", StartupSource::RegistryRun, true),
        entry("b", StartupSource::RegistryRun, true),
    ];
    let mut app = App::new(entries, SortBy::Name);
    assert_eq!(app.selected_index, 0);
    app.next();
    assert_eq!(app.selected_index, 1);
    app.next();
    assert_eq!(app.selected_index, 0);
    app.previous();
    assert_eq!(app.selected_index, 1);
}

#[test]
fn search_narrows_per_keystroke_and_cancel_restores() {
    let entries = vec![
        entry("Alpha", StartupSource::RegistryRun, true),
        entry("Beta", StartupSource::RegistryRun, true),
    ];
    let mut app = App::new(entries, SortBy::Name);
    app.begin_search();
    assert_eq!(app.mode, Mode::Searching);
    app.search_push('b');
    assert_eq!(app.filtered_entries.len(), 1);
    assert_eq!(app.filtered_entries[0].name, "Beta");
    app.search_backspace();
    assert_eq!(app.filtered_entries.len(), 2);
    app.search_push('a');
    app.search_push('l');
    assert_eq!(app.filtered_entries.len(), 1);
    assert_eq!(app.filtered_entries[0].name, "Alpha");
    app.search_cancel();
    assert_eq!(app.mode, Mode::Browsing);
    assert_eq!(app.filtered_entries.len(), 2);
    assert!(app.search_term.is_empty());
}

#[test]
fn search_confirm_keeps_narrowed_view() {
    let entries = vec![
        entry("Alpha", StartupSource::RegistryRun, true),
        entry("Beta", StartupSource::RegistryRun, true),
    ];
    let mut app = App::new(entries, SortBy::Name);
    app.begin_search();
    app.search_push('b');
    app.search_confirm();
    assert_eq!(app.mode, Mode::Browsing);
    assert_eq!(app.filtered_entries.len(), 1);
    assert_eq!(app.filtered_entries[0].name, "Beta");
}

#[test]
fn stats_and_help_views_toggle() {
    let entries = vec![entry("x", StartupSource::RegistryRun, true)];
    let mut app = App::new(entries, SortBy::Name);
    app.toggle_stats();
    assert_eq!(app.mode, Mode::ViewingStats);
    app.toggle_stats();
    assert_eq!(app.mode, Mode::Browsing);
    app.toggle_help();
    assert_eq!(app.mode, Mode::ViewingHelp);
    app.toggle_help();
    assert_eq!(app.mode, Mode::Browsing);
}

#[test]
fn set_sort_reorders_view() {
    let entries = vec![
        entry("b", StartupSource::RegistryRun, false),
        entry("a", StartupSource::RegistryRun, true),
    ];
    let mut app = App::new(entries, SortBy::Name);
    assert_eq!(app.filtered_entries[0].name, "a");
    app.set_sort(SortBy::Status);
    assert_eq!(app.sort_by, SortBy::Status);
    assert_eq!(app.filtered_entries[0].name, "a");
    assert!(app.filtered_entries[0].enabled);
}

#[test]
fn sort_key_words_parse() {
    assert_eq!(parse_sort_by("name"), SortBy::Name);
    assert_eq!(parse_sort_by("source"), SortBy::Source);
    assert_eq!(parse_sort_by("status"), SortBy::Status);
    assert_eq!(parse_sort_by("command"), SortBy::Command);
    assert_eq!(parse_sort_by("anything else"), SortBy::Name);
}

#[test]
fn unresolved_positions_fail_closed() {
    let entries = vec![entry("real", StartupSource::RegistryRun, true)];
    let mut app = App::new(entries, SortBy::Name);
    // a view that the authoritative collection cannot explain must raise
    // Unresolved, never act on a guessed index
    app.filtered_entries = vec![entry("ghost", StartupSource::Service, true)];
    let err = app.toggle_selection().unwrap_err();
    assert_eq!(err.kind, deepboot::models::ErrorKind::Unresolved);
    assert!(app.selected_indices.is_empty());
    let err = app.get_original_index(0).unwrap_err();
    assert_eq!(err.kind, deepboot::models::ErrorKind::Unresolved);
}

#[test]
fn empty_collection_session_is_inert() {
    let mut app = App::new(vec![], SortBy::Name);
    assert!(app.filtered_entries.is_empty());
    app.next();
    app.previous();
    assert_eq!(app.selected_index, 0);
    assert!(app.get_selected_entry().is_none());
    app.request_action(Action::Disable).unwrap();
    assert_eq!(app.mode, Mode::Browsing);
    assert!(app.pending_action.is_none());
}
