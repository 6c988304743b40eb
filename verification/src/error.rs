use vstd::prelude::*;
use crate::connection::state::TcpState;

verus! {

/// Every fallible operation of the library reports one of these kinds.
#[derive(Clone, Copy, Debug, PartialEq, Eq, Structural)]
pub enum TcpError {
    /// The underlying transmission capability failed.
    Io,
    /// Decode was attempted on insufficient or structurally invalid bytes.
    InvalidPacket,
    /// An operation was attempted in a state that forbids it, such as a
    /// send before the connection is established, or a handshake timeout.
    ConnectionError,
    /// Reserved for stricter transition validation; no current path raises it.
    InvalidStateTransition { from: TcpState, to: TcpState },
    /// A checksum was requested across differing address families.
    AddressFamilyMismatch,
    /// The operation is a known unimplemented variant, such as the IPv6
    /// checksum.
    Unsupported,
}

} // verus!
