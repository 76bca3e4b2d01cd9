//! Action dispatch: the engine's decision of which backend primitive an
//! action on an entry requires. The engine holds no knowledge of registry
//! paths or process invocation; the host performs the chosen call and
//! reports its outcome back as a plain value.
use vstd::prelude::*;
use vstd::string::StringExecFns;
use crate::models::{Action, ActionFailure, ErrorKind, StartupEntry, StartupSource};

verus! {

/// The backend family a source is served by.
#[derive(Debug, Clone, Copy, PartialEq, Eq, Structural)]
pub enum BackendKind {
    TaskScheduler,
    Registry,
    Service,
}

/// The backend that owns entries of source `s`.
pub open spec fn backend_of(s: StartupSource) -> BackendKind {
    match s {
        StartupSource::TaskScheduler => BackendKind::TaskScheduler,
        StartupSource::Service => BackendKind::Service,
        _ => BackendKind::Registry,
    }
}

/// One backend call the engine has decided on: which backend family must
/// perform which action.
#[derive(Debug, Clone, Copy, PartialEq, Eq, Structural)]
pub struct BackendRequest {
    pub backend: BackendKind,
    pub action: Action,
}

/// The failure every `Enable` request is answered with: enabling is
/// declared but intentionally not offered, and must fail explicitly
/// rather than be skipped silently.
pub fn enable_rejected() -> (f: ActionFailure)
    ensures
        f.kind == ErrorKind::NotSupported,
        f.message@ == "Enable action not yet implemented"@,
{
    ActionFailure {
        kind: ErrorKind::NotSupported,
        message: String::from_str("Enable action not yet implemented"),
    }
}

/// Decides how to carry out `action` on `entry`: `Enable` is always
/// rejected with a `NotSupported` failure; `Disable` and `Remove` resolve
/// to a request against the backend that owns the entry's source.
pub fn handle_action(entry: &StartupEntry, action: Action) -> (r: Result<
    BackendRequest,
    ActionFailure,
>)
    ensures
        action == Action::Enable ==> (r matches Err(f) && f.kind == ErrorKind::NotSupported
            && f.message@ == "Enable action not yet implemented"@),
        action != Action::Enable ==> r == Ok::<BackendRequest, ActionFailure>(
            BackendRequest { backend: backend_of(entry.source), action },
        ),
{
    match action {
        Action::Enable => Err(enable_rejected()),
        _ => {
            let backend = match entry.source {
                StartupSource::TaskScheduler => BackendKind::TaskScheduler,
                StartupSource::Service => BackendKind::Service,
                _ => BackendKind::Registry,
            };
            Ok(BackendRequest { backend, action })
        },
    }
}

} // verus!
