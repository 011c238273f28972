//! Port-allocation decisions.
//!
//! Two cooperating local servers each need a free TCP port. The surrounding
//! binary obtains ephemeral ports from the operating system and probes
//! candidates by binding; the functions here make every numeric decision:
//! offsetting an ephemeral base toward a stable neighborhood without
//! wraparound, bounding the retries, falling back to a plain ephemeral port,
//! and refusing a pair whose two ports collide.

use vstd::prelude::*;

verus! {

/// How many offset probes are attempted before falling back to a plain
/// ephemeral port.
pub const MAX_PORT_ATTEMPTS: u16 = 20;

/// What the driver should do next while searching for a port.
#[derive(PartialEq, Eq, Structural, Clone, Copy, Debug)]
pub enum PortAction {
    /// Try to bind this exact port; on success it is the allocated port.
    TryCandidate(u16),
    /// The candidate would not fit in a port number: fetch a fresh ephemeral
    /// base and try again.
    Skip,
    /// All attempts are spent: keep the ephemeral base itself as the port.
    UseEphemeral,
}

/// The candidate port obtained by offsetting an ephemeral base, computed
/// without wraparound: none when the sum does not fit in a port number.
pub open spec fn spec_port_candidate(base: u16, offset: u16) -> Option<u16> {
    if base + offset <= u16::MAX {
        Some((base + offset) as u16)
    } else {
        None
    }
}

/// The decision taken on one probe: with attempts left and a representable
/// candidate, probe it; with attempts left and an overflowing candidate,
/// fetch a fresh base; with none left, keep the ephemeral base.
pub open spec fn spec_port_action(attempts_left: u16, base: u16, offset: u16) -> PortAction {
    if attempts_left == 0 {
        PortAction::UseEphemeral
    } else {
        match spec_port_candidate(base, offset) {
            Some(c) => PortAction::TryCandidate(c),
            None => PortAction::Skip,
        }
    }
}

/// Offsets an ephemeral base in 32-bit arithmetic so that the sum cannot
/// wrap around, and rejects a sum that is not a valid port number.
pub fn port_candidate(base: u16, offset: u16) -> (r: Option<u16>)
    ensures
        r == spec_port_candidate(base, offset),
{
    let sum: u32 = base as u32 + offset as u32;
    if sum <= u16::MAX as u32 {
        Some(sum as u16)
    } else {
        None
    }
}

/// Decides what the driver does with one fresh ephemeral base.
pub fn port_action(attempts_left: u16, base: u16, offset: u16) -> (r: PortAction)
    ensures
        r == spec_port_action(attempts_left, base, offset),
{
    if attempts_left == 0 {
        PortAction::UseEphemeral
    } else {
        match port_candidate(base, offset) {
            Some(c) => PortAction::TryCandidate(c),
            None => PortAction::Skip,
        }
    }
}

/// Two distinct ports, one for the backend's RPC endpoint and one for the UI
/// server.
#[derive(PartialEq, Eq, Structural, Clone, Copy, Debug)]
pub struct PortPair {
    pub rpc: u16,
    pub ui: u16,
}

impl PortPair {
    /// A pair is well formed exactly when its two ports differ.
    pub open spec fn wf(self) -> bool {
        self.rpc != self.ui
    }
}

/// Accepts two allocated ports as a pair only when they differ, so that the
/// two servers can never be told to share one port. The driver retries the
/// second allocation as long as this returns `None`.
pub fn make_port_pair(rpc: u16, ui: u16) -> (r: Option<PortPair>)
    ensures
        r is Some <==> rpc != ui,
        r matches Some(p) ==> p.rpc == rpc && p.ui == ui && p.wf(),
{
    if rpc != ui {
        Some(PortPair { rpc, ui })
    } else {
        None
    }
}

} // verus!
