use vstd::prelude::*;

verus! {

/// The connection states this scope models: Closed is initial, Established
/// is terminal; no closing states exist here.
#[derive(Clone, Copy, Debug, PartialEq, Eq, Structural)]
pub enum TcpState {
    Closed,
    SynSent,
    Established,
}

} // verus!
