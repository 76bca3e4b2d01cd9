use deepboot::filter::SortBy;
use deepboot::models::{StartupEntry, StartupSource};
use deepboot::session::App;
use deepboot::whitelist::{WhitelistConfig, WhitelistManager};

fn manager(config: WhitelistConfig) -> WhitelistManager {
    WhitelistManager::from_config(config, "whitelist.json".to_string())
}

fn entry(name: &str, command: &str, source: StartupSource) -> StartupEntry {
    StartupEntry::new(name.to_string(), command.to_string(), source, true)
}

#[test]
fn default_config_trusts_system_processes() {
    let config = WhitelistConfig::default();
    assert_eq!(config.safe_processes.len(), 8);
    assert!(config.safe_processes.contains(&"explorer.exe".to_string()));
    assert!(config.safe_processes.contains(&"svchost.exe".to_string()));
    assert!(config.safe_services.is_empty());
    assert!(config.safe_tasks.is_empty());
}

#[test]
fn extract_process_name_takes_the_quoted_file_name() {
    assert_eq!(
        WhitelistManager::extract_process_name("\"C:\\Apps\\Tool.exe\""),
        Some("tool.exe".to_string())
    );
    assert_eq!(
        WhitelistManager::extract_process_name("C:\\Tools\\Notepad.exe /arg"),
        Some("notepad.exe".to_string())
    );
    assert_eq!(
        WhitelistManager::extract_process_name("runner.exe"),
        Some("runner.exe".to_string())
    );
    assert_eq!(WhitelistManager::extract_process_name(""), None);
    assert_eq!(WhitelistManager::extract_process_name("   "), None);
    assert_eq!(WhitelistManager::extract_process_name("C:\\dir\\"), None);
}

#[test]
fn system_process_is_exempt_by_command() {
    let wm = manager(WhitelistConfig::default());
    let exempt = entry(
        "Host Process",
        "C:\\Windows\\System32\\svchost.exe -k netsvcs",
        StartupSource::RegistryRun,
    );
    let ordinary = entry("Updater", "C:\\Apps\\updater.exe", StartupSource::RegistryRun);
    assert!(wm.is_whitelisted(&exempt));
    assert!(!wm.is_whitelisted(&ordinary));
}

#[test]
fn service_exemption_round_trip() {
    let mut wm = manager(WhitelistConfig {
        safe_processes: vec![],
        safe_services: vec![],
        safe_tasks: vec![],
    });
    let svc = entry("My Service", "C:\\svc.exe", StartupSource::Service)
        .with_description("Service: MySvc".to_string());
    assert!(!wm.is_whitelisted(&svc));
    wm.add_to_whitelist(&svc).unwrap();
    assert!(wm.get_config().safe_services.contains(&"mysvc".to_string()));
    assert!(wm.is_whitelisted(&svc));
    wm.remove_from_whitelist(&svc).unwrap();
    assert!(!wm.is_whitelisted(&svc));
}

#[test]
fn task_exemption_uses_the_task_name() {
    let mut wm = manager(WhitelistConfig {
        safe_processes: vec![],
        safe_services: vec![],
        safe_tasks: vec![],
    });
    let task = entry("Updater Task", "C:\\u.exe", StartupSource::TaskScheduler);
    wm.add_to_whitelist(&task).unwrap();
    assert!(wm.get_config().safe_tasks.contains(&"updater task".to_string()));
    assert!(wm.is_whitelisted(&task));
    // the same name under a registry source is keyed by process instead
    let lookalike = entry("Updater Task", "C:\\u.exe", StartupSource::RegistryRun);
    assert!(!wm.is_whitelisted(&lookalike));
    wm.remove_from_whitelist(&task).unwrap();
    assert!(!wm.is_whitelisted(&task));
}

#[test]
fn exempted_entry_never_reappears_in_the_session() {
    let mut config = WhitelistConfig::default();
    config.safe_processes.push("evil.exe".to_string());
    let wm = manager(config);
    let scanned = vec![
        entry("Evil", "C:\\evil.exe", StartupSource::RegistryRun),
        entry("Fine", "C:\\fine.exe", StartupSource::RegistryRun),
    ];
    // ingest: the exempted entry is dropped from the working collection
    let working = wm.filter_whitelisted(scanned);
    assert_eq!(working.len(), 1);
    assert_eq!(working[0].name, "Fine");
    // no filter change brings it back: it is gone, not hidden
    let mut app = App::new(working, SortBy::Name);
    app.begin_search();
    app.search_push('e');
    app.search_cancel();
    app.filter.clear();
    app.apply_filter();
    assert!(app.all_entries.iter().all(|e| e.name != "Evil"));
    assert!(app.filtered_entries.iter().all(|e| e.name != "Evil"));
}

#[test]
fn exemption_applies_at_ingest_only_by_identity_not_position() {
    let wm = manager(WhitelistConfig::default());
    let scanned = vec![
        entry("A", "C:\\a.exe", StartupSource::RegistryRun),
        entry("Shell", "C:\\Windows\\explorer.exe", StartupSource::RegistryRun),
        entry("B", "C:\\b.exe", StartupSource::RegistryRun),
    ];
    let working = wm.filter_whitelisted(scanned);
    let names: Vec<&str> = working.iter().map(|e| e.name.as_str()).collect();
    assert_eq!(names, vec!["A", "B"]);
}
