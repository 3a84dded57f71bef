use vstd::prelude::*;

verus! {

/// Failures reported by the command surface.
#[derive(Debug, Clone, PartialEq, Eq)]
pub enum PortError {
    /// No session is open under this identifier.
    NotFound(String),
    /// A session is already open under this identifier.
    AlreadyOpen(String),
    /// The shared registry could not be locked.
    LockError(String),
    /// The device could not be opened: identifier and cause.
    OpenError(String, String),
    /// The handle could not be duplicated for a reader: identifier and cause.
    CloneError(String, String),
    /// The device refused a write: identifier and cause.
    WriteError(String, String),
    /// A reader stopped on a device fault.
    IoError(String),
    /// A cancellation signal could not be delivered.
    SendError(String),
}

/// Notifications for the host application, addressed by identifier.
#[derive(Debug, Clone, PartialEq, Eq)]
pub enum Notice {
    /// The device behind this identifier was lost.
    Disconnected(String),
}

} // verus!
