//! The reasons for which a characteristic operation is refused.

use vstd::prelude::*;

verus! {

/// Why a read or a write was refused.
#[derive(Clone, Copy, Debug, PartialEq, Eq, Structural)]
pub enum ReqError {
    /// A write does not fit the value it addresses.
    InvalidLength,
    /// An offset lies past the end of the value.
    InvalidOffset,
    /// A state byte other than the two a client may write.
    InvalidValue,
    /// The requested state cannot be entered from the current one.
    InvalidTransition,
    /// The operation is gated and no authorization is in force.
    NotAuthorized,
    /// The network control channel reported a failure.
    ExternalOperationFailed,
}

} // verus!
