//! Point-in-time snapshots of the authoritative collection. The engine
//! builds the snapshot value and knows where each entry came from; writing
//! and reading snapshot files, and the clock, belong to the host.
use vstd::prelude::*;
use vstd::string::StringExecFns;
use crate::models::{ActionFailure, StartupEntry, StartupSource};

verus! {

/// One snapshotted entry, with where it was registered and when it was
/// captured.
#[derive(Debug)]
pub struct BackupEntry {
    pub entry: StartupEntry,
    pub original_path: String,
    pub backup_timestamp: String,
}

/// One snapshot of the whole collection.
#[derive(Debug)]
pub struct Backup {
    pub timestamp: String,
    pub entries: Vec<BackupEntry>,
}

/// Where an entry's registration lives, as the snapshot records it: the
/// registry key for registry sources, the task name for scheduled tasks,
/// and the description (which carries the service identifier) for
/// services.
pub open spec fn entry_path_view(e: StartupEntry) -> Seq<char> {
    match e.source {
        StartupSource::TaskScheduler => "TaskScheduler:"@ + e.name@,
        StartupSource::RegistryRun => "HKCU\\Software\\Microsoft\\Windows\\CurrentVersion\\Run"@,
        StartupSource::RegistryRunOnce => "HKCU\\Software\\Microsoft\\Windows\\CurrentVersion\\RunOnce"@,
        StartupSource::RegistryRunServices => "HKLM\\Software\\Microsoft\\Windows\\CurrentVersion\\RunServices"@,
        StartupSource::RegistryWow6432Node => "HKLM\\Software\\Wow6432Node\\Microsoft\\Windows\\CurrentVersion\\Run"@,
        StartupSource::Service => match e.description {
            Some(d) => d@,
            None => "Unknown Service"@,
        },
    }
}

/// The naming rule for snapshot files in the backup directory.
pub open spec fn is_backup_name(n: Seq<char>) -> bool {
    crate::text::has_prefix(n, "backup_"@) && crate::text::has_suffix(n, ".json"@)
}

/// Builds and restores snapshots; the engine side holds the directory the
/// host keeps them in and the snapshot values themselves.
pub struct BackupManager {
    backup_dir: String,
}

impl BackupManager {
    /// The directory snapshots are kept in.
    pub closed spec fn spec_dir(&self) -> Seq<char> {
        self.backup_dir@
    }

    /// A manager over the host-provided snapshot directory.
    pub fn from_dir(backup_dir: String) -> (r: Self)
        ensures
            r.spec_dir() == backup_dir@,
    {
        BackupManager { backup_dir }
    }

    /// The directory snapshots are kept in.
    pub fn dir(&self) -> (r: &str)
        ensures
            r@ == self.spec_dir(),
    {
        self.backup_dir.as_str()
    }

    /// Where an entry's registration lives, as the snapshot records it.
    pub fn get_entry_path(entry: &StartupEntry) -> (r: String)
        ensures
            r@ == entry_path_view(*entry),
    {
        match entry.source {
            StartupSource::TaskScheduler => {
                let mut s = String::new();
                s.append("TaskScheduler:");
                s.append(entry.name.as_str());
                s
            },
            StartupSource::RegistryRun => String::from_str(
                "HKCU\\Software\\Microsoft\\Windows\\CurrentVersion\\Run",
            ),
            StartupSource::RegistryRunOnce => String::from_str(
                "HKCU\\Software\\Microsoft\\Windows\\CurrentVersion\\RunOnce",
            ),
            StartupSource::RegistryRunServices => String::from_str(
                "HKLM\\Software\\Microsoft\\Windows\\CurrentVersion\\RunServices",
            ),
            StartupSource::RegistryWow6432Node => String::from_str(
                "HKLM\\Software\\Wow6432Node\\Microsoft\\Windows\\CurrentVersion\\Run",
            ),
            StartupSource::Service => match &entry.description {
                Some(d) => d.clone(),
                None => String::from_str("Unknown Service"),
            },
        }
    }

    /// Builds the snapshot of a collection, stamped with the host's
    /// clock: each entry is captured with the path of its registration.
    pub fn build_backup(entries: &Vec<StartupEntry>, timestamp: String) -> (r: Backup)
        ensures
            r.timestamp@ == timestamp@,
            r.entries@.len() == entries@.len(),
            forall|j: int|
                0 <= j < entries@.len() ==> {
                    &&& (#[trigger] r.entries@[j]).entry == entries@[j]
                    &&& r.entries@[j].original_path@ == entry_path_view(entries@[j])
                    &&& r.entries@[j].backup_timestamp@ == timestamp@
                },
    {
        let mut captured: Vec<BackupEntry> = Vec::new();
        let mut i: usize = 0;
        while i < entries.len()
            invariant
                i <= entries.len(),
                captured@.len() == i,
                forall|j: int|
                    0 <= j < i ==> {
                        &&& (#[trigger] captured@[j]).entry == entries@[j]
                        &&& captured@[j].original_path@ == entry_path_view(entries@[j])
                        &&& captured@[j].backup_timestamp@ == timestamp@
                    },
            decreases entries.len() - i,
        {
            captured.push(
                BackupEntry {
                    entry: entries[i].clone(),
                    original_path: Self::get_entry_path(&entries[i]),
                    backup_timestamp: timestamp.clone(),
                },
            );
            i += 1;
        }
        Backup { timestamp, entries: captured }
    }

    /// Restoring re-registers what the snapshot holds; no per-source
    /// writer exists yet, so the call records its intent and succeeds
    /// without touching the system.
    pub fn restore_backup(&self, _backup: &Backup) -> (r: Result<(), ActionFailure>)
        ensures
            r is Ok,
    {
        Ok(())
    }

    /// Whether a file name in the backup directory names a snapshot.
    pub fn is_backup_file_name(name: &str) -> (r: bool)
        ensures
            r == is_backup_name(name@),
    {
        crate::text::starts_with_str(name, "backup_") && crate::text::ends_with_str(name, ".json")
    }
}

} // verus!
