use deepboot::backup::BackupManager;
use deepboot::export::Exporter;
use deepboot::logger::ActionLogger;
use deepboot::models::{StartupEntry, StartupSource};
use deepboot::services::ServicesScanner;
use deepboot::stats::ScanStatistics;

fn entry(name: &str, command: &str, source: StartupSource, enabled: bool) -> StartupEntry {
    StartupEntry::new(name.to_string(), command.to_string(), source, enabled)
}

#[test]
fn stats_count_by_status_and_source() {
    let entries = vec![
        entry("a", "1", StartupSource::RegistryRun, true),
        entry("b", "2", StartupSource::Service, false),
        entry("c", "3", StartupSource::RegistryRun, true),
    ];
    let stats = ScanStatistics::from_entries(&entries);
    assert_eq!(stats.total_entries, 3);
    assert_eq!(stats.enabled_count, 2);
    assert_eq!(stats.disabled_count, 1);
    assert_eq!(
        stats.by_source,
        vec![("Registry (Run)".to_string(), 2), ("Service".to_string(), 1)]
    );
    assert_eq!(
        stats.by_status,
        vec![("Enabled".to_string(), 2), ("Disabled".to_string(), 1)]
    );
}

#[test]
fn stats_summary_reads_as_shown() {
    let entries = vec![
        entry("a", "1", StartupSource::RegistryRun, true),
        entry("b", "2", StartupSource::Service, false),
    ];
    let stats = ScanStatistics::from_entries(&entries);
    assert_eq!(
        stats.get_summary(),
        "Total Entries: 2\n  Enabled: 1 (50.0%)\n  Disabled: 1 (50.0%)\n\nBy Source:\n  Registry (Run): 1 (50.0%)\n  Service: 1 (50.0%)\n"
    );
}

#[test]
fn stats_of_nothing() {
    let stats = ScanStatistics::from_entries(&vec![]);
    assert_eq!(stats.total_entries, 0);
    assert_eq!(
        stats.get_summary(),
        "Total Entries: 0\n  Enabled: 0 (0.0%)\n  Disabled: 0 (0.0%)\n\nBy Source:\n"
    );
}

#[test]
fn action_log_lines_read_as_shown() {
    assert_eq!(
        ActionLogger::action_line("2024-01-02 03:04:05", "Disable", "Foo", true, None),
        "[2024-01-02 03:04:05] Disable - Entry: 'Foo' - Status: SUCCESS\n"
    );
    assert_eq!(
        ActionLogger::action_line("2024-01-02 03:04:05", "Remove", "Bar", false, Some("denied")),
        "[2024-01-02 03:04:05] Remove - Entry: 'Bar' - Status: FAILED - Error: denied\n"
    );
    assert_eq!(
        ActionLogger::scan_line("2024-01-02 03:04:05", "Registry", 17),
        "[2024-01-02 03:04:05] SCAN - Source: Registry - Found: 17 entries\n"
    );
    assert_eq!(
        ActionLogger::batch_line("2024-01-02 03:04:05", "Disable", 3, 2),
        "[2024-01-02 03:04:05] BATCH Disable - Total: 3 - Successful: 2 - Failed: 1\n"
    );
}

#[test]
fn markdown_report_reads_as_shown() {
    let entries = vec![
        entry("Foo", "C:\\foo.exe", StartupSource::RegistryRun, true),
        entry("Bar", "C:\\bar.exe", StartupSource::Service, false),
    ];
    let report = Exporter::markdown_content(&entries, "2024-01-02 03:04:05");
    let expected = "# DeepBoot Scan Report\n\n\
        Generated: 2024-01-02 03:04:05\n\n\
        Total Entries: 2\n\n\
        ## Startup Entries\n\n\
        | Name | Command | Source | Enabled | Description |\n\
        |------|---------|--------|---------|-------------|\n\
        | Foo | C:\\foo.exe | Registry (Run) | Yes |  |\n\
        | Bar | C:\\bar.exe | Service | No |  |\n";
    assert_eq!(report, expected);
}

#[test]
fn export_record_fields_in_column_order() {
    let e = entry("Foo", "C:\\foo.exe", StartupSource::TaskScheduler, true)
        .with_description("daily".to_string());
    let fields = Exporter::record_fields(&e);
    assert_eq!(
        fields,
        vec![
            "Foo".to_string(),
            "C:\\foo.exe".to_string(),
            "Task Scheduler".to_string(),
            "true".to_string(),
            "daily".to_string(),
        ]
    );
}

#[test]
fn entry_paths_name_the_registration() {
    let run = entry("X", "c", StartupSource::RegistryRun, true);
    assert_eq!(
        BackupManager::get_entry_path(&run),
        "HKCU\\Software\\Microsoft\\Windows\\CurrentVersion\\Run"
    );
    let wow = entry("X", "c", StartupSource::RegistryWow6432Node, true);
    assert_eq!(
        BackupManager::get_entry_path(&wow),
        "HKLM\\Software\\Wow6432Node\\Microsoft\\Windows\\CurrentVersion\\Run"
    );
    let task = entry("Nightly", "c", StartupSource::TaskScheduler, true);
    assert_eq!(BackupManager::get_entry_path(&task), "TaskScheduler:Nightly");
    let svc = entry("S", "c", StartupSource::Service, true)
        .with_description("Service: MySvc".to_string());
    assert_eq!(BackupManager::get_entry_path(&svc), "Service: MySvc");
    let anon = entry("S", "c", StartupSource::Service, true);
    assert_eq!(BackupManager::get_entry_path(&anon), "Unknown Service");
}

#[test]
fn snapshots_capture_every_entry() {
    let entries = vec![
        entry("Foo", "c", StartupSource::RegistryRun, true),
        entry("Bar", "d", StartupSource::TaskScheduler, false),
    ];
    let backup = BackupManager::build_backup(&entries, "2024-01-02T03:04:05".to_string());
    assert_eq!(backup.timestamp, "2024-01-02T03:04:05");
    assert_eq!(backup.entries.len(), 2);
    assert_eq!(backup.entries[0].entry.name, "Foo");
    assert_eq!(backup.entries[1].original_path, "TaskScheduler:Bar");
    assert_eq!(backup.entries[1].backup_timestamp, "2024-01-02T03:04:05");
    let manager = BackupManager::from_dir("backups".to_string());
    assert_eq!(manager.dir(), "backups");
    assert!(manager.restore_backup(&backup).is_ok());
}

#[test]
fn backup_file_names_follow_the_rule() {
    assert!(BackupManager::is_backup_file_name("backup_20240102.json"));
    assert!(!BackupManager::is_backup_file_name("export_20240102.json"));
    assert!(!BackupManager::is_backup_file_name("backup_20240102.csv"));
}

#[test]
fn system_services_are_screened() {
    assert!(ServicesScanner::is_system_service("BITS"));
    assert!(ServicesScanner::is_system_service("wuauserv"));
    assert!(!ServicesScanner::is_system_service("MyCustomService"));
    // the screen is exact, not case folded
    assert!(!ServicesScanner::is_system_service("bits"));
}

#[test]
fn service_description_round_trips() {
    let desc = ServicesScanner::service_description("MySvc");
    assert_eq!(desc, "Service: MySvc");
    let e = entry("S", "c", StartupSource::Service, true).with_description(desc);
    assert_eq!(ServicesScanner::backend_service_name(&e).unwrap(), "MySvc");
    let bad = entry("S", "c", StartupSource::Service, true);
    let err = ServicesScanner::backend_service_name(&bad).unwrap_err();
    assert_eq!(err.kind, deepboot::models::ErrorKind::NotFound);
    assert_eq!(err.message, "Invalid service entry");
}

#[test]
fn service_removal_is_refused() {
    let e = entry("S", "c", StartupSource::Service, true);
    let err = ServicesScanner::remove_service(&e).unwrap_err();
    assert_eq!(err.kind, deepboot::models::ErrorKind::NotSupported);
    assert_eq!(err.message, "Service removal is not implemented for safety reasons");
}

#[test]
fn default_app_config() {
    let config = deepboot::config::AppConfig::default();
    assert!(config.auto_backup);
    assert!(!config.show_whitelisted);
    assert_eq!(config.default_sort, "name");
    assert_eq!(config.log_level, "info");
    assert!(config.auto_export.is_none());
    let mut manager =
        deepboot::config::ConfigManager::from_config(config, "config.json".to_string());
    assert_eq!(manager.path(), "config.json");
    manager.get_mut().show_whitelisted = true;
    assert!(manager.get().show_whitelisted);
}

#[test]
fn sc_query_output_parses_into_pairs() {
    let output = "\r\nSERVICE_NAME: MySvc\r\nDISPLAY_NAME: My Service\r\n\r\n\
        SERVICE_NAME: Other\r\nTYPE: 10 WIN32_OWN_PROCESS\r\nDISPLAY_NAME: Other Service\r\n";
    let lines: Vec<String> = output.split('\n').map(String::from).collect();
    let pairs = ServicesScanner::parse_sc_query(&lines);
    assert_eq!(
        pairs,
        vec![
            ("MySvc".to_string(), "My Service".to_string()),
            ("Other".to_string(), "Other Service".to_string()),
        ]
    );
}

#[test]
fn sc_display_line_without_open_service_is_dropped() {
    let lines: Vec<String> = vec!["DISPLAY_NAME: Orphan".to_string()];
    assert!(ServicesScanner::parse_sc_query(&lines).is_empty());
}

#[test]
fn sc_qc_output_yields_the_binary_path() {
    let output = "[SC] QueryServiceConfig SUCCESS\r\n\r\n\
        SERVICE_NAME: MySvc\r\n        TYPE               : 10  WIN32_OWN_PROCESS\r\n\
        BINARY_PATH_NAME   : C\r\n        START_TYPE         : 2   AUTO_START\r\n";
    let lines: Vec<String> = output.split('\n').map(String::from).collect();
    // the value runs to the line's second colon, as the field is read
    assert_eq!(ServicesScanner::parse_binary_path(&lines), Some("C".to_string()));
    let none: Vec<String> = vec!["TYPE: 10".to_string()];
    assert_eq!(ServicesScanner::parse_binary_path(&none), None);
    assert!(ServicesScanner::sc_config_indicates_enabled(output));
    assert!(!ServicesScanner::sc_config_indicates_enabled("START_TYPE : 4 DISABLED"));
}
