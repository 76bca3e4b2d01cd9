use deepboot::filter::{sort_entries, Filter, SortBy};
use deepboot::models::{StartupEntry, StartupSource};

fn entry(name: &str, command: &str, source: StartupSource, enabled: bool) -> StartupEntry {
    StartupEntry::new(name.to_string(), command.to_string(), source, enabled)
}

#[test]
fn apply_returns_subset_of_input() {
    let entries = vec![
        entry("alpha", "a.exe", StartupSource::RegistryRun, true),
        entry("beta", "b.exe", StartupSource::Service, false),
        entry("gamma", "c.exe", StartupSource::TaskScheduler, true),
    ];
    let filter = Filter::new().with_search("a".to_string());
    let out = filter.apply(&entries);
    assert!(out.len() <= entries.len());
    for e in &out {
        assert!(entries.iter().any(|o| o.name == e.name && o.command == e.command));
    }
}

#[test]
fn search_is_case_insensitive() {
    let entries = vec![entry("chrome.exe", "run", StartupSource::RegistryRun, true)];
    let filter = Filter::new().with_search("CHROME".to_string());
    let out = filter.apply(&entries);
    assert_eq!(out.len(), 1);
    assert_eq!(out[0].name, "chrome.exe");
}

#[test]
fn search_matches_command_and_description() {
    let by_command = entry("x", "C:\\Tools\\Widget.exe", StartupSource::RegistryRun, true);
    let with_desc =
        entry("y", "z", StartupSource::Service, true).with_description("The Widget Service".to_string());
    let without_desc = entry("w", "v", StartupSource::Service, true);
    let entries = vec![by_command, with_desc, without_desc];
    let out = Filter::new().with_search("widget".to_string()).apply(&entries);
    assert_eq!(out.len(), 2);
    assert_eq!(out[0].name, "x");
    assert_eq!(out[1].name, "y");
}

#[test]
fn enabled_then_disabled_clears_enabled() {
    let filter = Filter::new().enabled_only().disabled_only();
    assert!(filter.enabled_only.is_none());
    assert_eq!(filter.disabled_only, Some(true));
}

#[test]
fn disabled_then_enabled_clears_disabled() {
    let filter = Filter::new().disabled_only().enabled_only();
    assert!(filter.disabled_only.is_none());
    assert_eq!(filter.enabled_only, Some(true));
}

#[test]
fn enabled_only_filters_status() {
    let entries = vec![
        entry("on", "a", StartupSource::RegistryRun, true),
        entry("off", "b", StartupSource::RegistryRun, false),
    ];
    let on = Filter::new().enabled_only().apply(&entries);
    assert_eq!(on.len(), 1);
    assert_eq!(on[0].name, "on");
    let off = Filter::new().disabled_only().apply(&entries);
    assert_eq!(off.len(), 1);
    assert_eq!(off[0].name, "off");
}

#[test]
fn source_filter_restricts() {
    let entries = vec![
        entry("t", "a", StartupSource::TaskScheduler, true),
        entry("r", "b", StartupSource::RegistryRun, true),
        entry("s", "c", StartupSource::Service, true),
    ];
    let out = Filter::new()
        .with_source(vec![StartupSource::Service, StartupSource::RegistryRun])
        .apply(&entries);
    assert_eq!(out.len(), 2);
    assert_eq!(out[0].name, "r");
    assert_eq!(out[1].name, "s");
}

#[test]
fn clear_restores_everything() {
    let entries = vec![
        entry("on", "a", StartupSource::RegistryRun, true),
        entry("off", "b", StartupSource::RegistryRun, false),
    ];
    let mut filter = Filter::new().enabled_only().with_search("zzz".to_string());
    filter.clear();
    let out = filter.apply(&entries);
    assert_eq!(out.len(), 2);
}

#[test]
fn sort_by_name_is_stable_and_idempotent() {
    let mut entries = vec![
        entry("b", "1", StartupSource::RegistryRun, true),
        entry("a", "2", StartupSource::RegistryRun, true),
        entry("a2", "3", StartupSource::RegistryRun, true),
    ];
    sort_entries(&mut entries, SortBy::Name);
    let names: Vec<&str> = entries.iter().map(|e| e.name.as_str()).collect();
    assert_eq!(names, vec!["a", "a2", "b"]);
    let before: Vec<String> = entries.iter().map(|e| e.command.clone()).collect();
    sort_entries(&mut entries, SortBy::Name);
    let after: Vec<String> = entries.iter().map(|e| e.command.clone()).collect();
    assert_eq!(before, after);
}

#[test]
fn sort_equal_keys_keep_original_order() {
    let mut entries = vec![
        entry("same", "first", StartupSource::RegistryRun, true),
        entry("aaa", "other", StartupSource::RegistryRun, true),
        entry("same", "second", StartupSource::RegistryRun, true),
    ];
    sort_entries(&mut entries, SortBy::Name);
    assert_eq!(entries[0].name, "aaa");
    assert_eq!(entries[1].command, "first");
    assert_eq!(entries[2].command, "second");
}

#[test]
fn sort_by_source_groups_by_label() {
    let mut entries = vec![
        entry("t", "1", StartupSource::TaskScheduler, true),
        entry("s", "2", StartupSource::Service, true),
        entry("r", "3", StartupSource::RegistryRun, true),
        entry("w", "4", StartupSource::RegistryWow6432Node, true),
    ];
    sort_entries(&mut entries, SortBy::Source);
    let names: Vec<&str> = entries.iter().map(|e| e.name.as_str()).collect();
    // labels order lexically: Registry (Run) < Registry (WoW6432Node) <
    // Service < Task Scheduler
    assert_eq!(names, vec!["r", "w", "s", "t"]);
}

#[test]
fn sort_by_status_puts_enabled_first() {
    let mut entries = vec![
        entry("off", "1", StartupSource::RegistryRun, false),
        entry("on", "2", StartupSource::RegistryRun, true),
    ];
    sort_entries(&mut entries, SortBy::Status);
    assert_eq!(entries[0].name, "on");
    assert_eq!(entries[1].name, "off");
}

#[test]
fn sort_by_command_orders_lexically() {
    let mut entries = vec![
        entry("x", "zzz", StartupSource::RegistryRun, true),
        entry("y", "aaa", StartupSource::RegistryRun, true),
    ];
    sort_entries(&mut entries, SortBy::Command);
    assert_eq!(entries[0].command, "aaa");
}

#[test]
fn source_labels_read_as_shown() {
    assert_eq!(StartupSource::TaskScheduler.label(), "Task Scheduler");
    assert_eq!(StartupSource::RegistryRun.label(), "Registry (Run)");
    assert_eq!(StartupSource::RegistryRunOnce.label(), "Registry (RunOnce)");
    assert_eq!(StartupSource::RegistryRunServices.label(), "Registry (RunServices)");
    assert_eq!(StartupSource::RegistryWow6432Node.label(), "Registry (WoW6432Node)");
    assert_eq!(StartupSource::Service.label(), "Service");
}
