use vstd::prelude::*;

verus! {

/// Errors surfaced by the handler service and the snapshot codec.
///
/// Supervisor-level errors are returned to the caller as explicit failures;
/// they never crash the daemon.  `ActionFailure` and `IoFailure` carry the
/// message produced where the failure happened.
#[derive(Debug)]
pub enum HandlerServiceError {
    NotRegistered,
    AlreadyRegistered,
    AlreadyRunning,
    NotRunning,
    UnknownHandlerType,
    MappingCorrupt,
    ActionFailure(String),
    IoFailure(String),
}

} // verus!
