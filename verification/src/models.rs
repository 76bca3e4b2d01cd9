//! The unified entry model: one autostart registration, its source
//! classification, the mutating actions, and the engine's error kinds.
use vstd::prelude::*;
use vstd::string::StringExecFns;

verus! {

/// Where an autostart registration lives. A closed set: adding a source
/// means adding a backend that can scan and mutate it.
#[derive(Debug, Clone, Copy, PartialEq, Eq, Structural)]
pub enum StartupSource {
    TaskScheduler,
    RegistryRun,
    RegistryRunOnce,
    RegistryRunServices,
    RegistryWow6432Node,
    Service,
}

/// The human-readable label of a source; also the key the engine sorts
/// and aggregates by.
pub open spec fn source_label(s: StartupSource) -> Seq<char> {
    match s {
        StartupSource::TaskScheduler => "Task Scheduler"@,
        StartupSource::RegistryRun => "Registry (Run)"@,
        StartupSource::RegistryRunOnce => "Registry (RunOnce)"@,
        StartupSource::RegistryRunServices => "Registry (RunServices)"@,
        StartupSource::RegistryWow6432Node => "Registry (WoW6432Node)"@,
        StartupSource::Service => "Service"@,
    }
}

impl StartupSource {
    /// The human-readable label shown to the operator.
    pub fn label(&self) -> (r: String)
        ensures
            r@ == source_label(*self),
    {
        match self {
            StartupSource::TaskScheduler => String::from_str("Task Scheduler"),
            StartupSource::RegistryRun => String::from_str("Registry (Run)"),
            StartupSource::RegistryRunOnce => String::from_str("Registry (RunOnce)"),
            StartupSource::RegistryRunServices => String::from_str("Registry (RunServices)"),
            StartupSource::RegistryWow6432Node => String::from_str("Registry (WoW6432Node)"),
            StartupSource::Service => String::from_str("Service"),
        }
    }
}

/// One autostart registration, normalised across all sources.
///
/// The triple `(name, source, command)` is the engine's working notion of
/// identity: it re-locates an entry in the authoritative collection after
/// a derived view has been narrowed or reordered.
#[derive(Debug)]
pub struct StartupEntry {
    pub name: String,
    pub command: String,
    pub source: StartupSource,
    pub enabled: bool,
    pub description: Option<String>,
}

impl Clone for StartupEntry {
    fn clone(&self) -> (r: Self)
        ensures
            r == *self,
    {
        StartupEntry {
            name: self.name.clone(),
            command: self.command.clone(),
            source: self.source,
            enabled: self.enabled,
            description: match &self.description {
                Some(d) => Some(d.clone()),
                None => None,
            },
        }
    }
}

/// Identity of two entries: equal name, source and command.
pub open spec fn same_identity(a: StartupEntry, b: StartupEntry) -> bool {
    a.name@ == b.name@ && a.source == b.source && a.command@ == b.command@
}

impl StartupEntry {
    pub fn new(name: String, command: String, source: StartupSource, enabled: bool) -> (r: Self)
        ensures
            r.name == name,
            r.command == command,
            r.source == source,
            r.enabled == enabled,
            r.description is None,
    {
        StartupEntry { name, command, source, enabled, description: None }
    }

    pub fn with_description(self, description: String) -> (r: Self)
        ensures
            r.name == self.name,
            r.command == self.command,
            r.source == self.source,
            r.enabled == self.enabled,
            r.description == Some(description),
    {
        StartupEntry { description: Some(description), ..self }
    }

    /// Whether `other` is the same registration under the engine's
    /// identity notion.
    pub fn is_same_identity(&self, other: &StartupEntry) -> (r: bool)
        ensures
            r == same_identity(*self, *other),
    {
        self.name == other.name && self.source == other.source && self.command == other.command
    }
}

/// A mutating operation over one or more entries.
#[derive(Debug, Clone, Copy, PartialEq, Eq, Structural)]
pub enum Action {
    Disable,
    Remove,
    Enable,
}

/// The human-readable label of an action.
pub open spec fn action_label(a: Action) -> Seq<char> {
    match a {
        Action::Disable => "Disable"@,
        Action::Remove => "Remove"@,
        Action::Enable => "Enable"@,
    }
}

impl Action {
    /// The human-readable label shown to the operator.
    pub fn label(&self) -> (r: String)
        ensures
            r@ == action_label(*self),
    {
        match self {
            Action::Disable => String::from_str("Disable"),
            Action::Remove => String::from_str("Remove"),
            Action::Enable => String::from_str("Enable"),
        }
    }
}

/// Why an action attempt failed.
#[derive(Debug, Clone, Copy, PartialEq, Eq, Structural)]
pub enum ErrorKind {
    /// The backend could not reach its subsystem.
    BackendUnavailable,
    /// The entry was no longer present when the action was attempted.
    NotFound,
    /// The operation is not offered for this entry or action.
    NotSupported,
    /// Insufficient privilege.
    PermissionDenied,
    /// A view position could not be resolved to an authoritative entry.
    Unresolved,
}

/// One failed action attempt: its kind and a human-readable message.
#[derive(Debug)]
pub struct ActionFailure {
    pub kind: ErrorKind,
    pub message: String,
}

impl Clone for ActionFailure {
    fn clone(&self) -> (r: Self)
        ensures
            r == *self,
    {
        ActionFailure { kind: self.kind, message: self.message.clone() }
    }
}

} // verus!
