//! The startup sequence as a state machine.
//!
//! The driver must verify that the backend executable and the entry HTML
//! file exist before it allocates ports, spawns the backend, or starts the
//! listener. The machine here makes that ordering checkable: the driver
//! feeds each observation in as an event and is allowed to bind ports only
//! in the state the machine grants it. A failed check aborts the machine,
//! and an aborted machine never again reaches a state that permits binding
//! a port or serving.

use vstd::prelude::*;

verus! {

/// The verdict on the files the launcher needs at its root directory.
#[derive(PartialEq, Eq, Structural, Clone, Copy, Debug)]
pub enum StartupCheck {
    /// Both the backend executable and the entry HTML file exist.
    Proceed,
    /// The backend executable is missing: fatal.
    MissingBackend,
    /// The entry HTML file is missing: fatal.
    MissingIndex,
}

/// Decides whether startup may continue, from the existence of the backend
/// executable and of the entry HTML file. A missing backend is reported
/// first.
pub fn startup_decision(backend_present: bool, index_present: bool) -> (r: StartupCheck)
    ensures
        !backend_present ==> r == StartupCheck::MissingBackend,
        backend_present && !index_present ==> r == StartupCheck::MissingIndex,
        backend_present && index_present ==> r == StartupCheck::Proceed,
{
    if !backend_present {
        StartupCheck::MissingBackend
    } else if !index_present {
        StartupCheck::MissingIndex
    } else {
        StartupCheck::Proceed
    }
}

/// Where the launcher stands in its startup sequence.
#[derive(PartialEq, Eq, Structural, Clone, Copy, Debug)]
pub enum LaunchState {
    /// Nothing observed yet: nothing may be bound or spawned.
    Init,
    /// Both required files exist: ports may now be allocated.
    Verified,
    /// Two distinct ports are held: the backend may be spawned and the
    /// listener started.
    Serving,
    /// Startup failed: nothing may be bound, spawned or served, ever.
    Aborted,
}

/// An observation the driver feeds into the machine.
#[derive(PartialEq, Eq, Structural, Clone, Copy, Debug)]
pub enum LaunchEvent {
    /// The existence checks on the two required files completed.
    FilesChecked { backend_present: bool, index_present: bool },
    /// Port allocation completed with these two values.
    PortsReady { rpc: u16, ui: u16 },
}

/// Whether a state permits binding ports (probing included).
pub open spec fn spec_may_bind_ports(s: LaunchState) -> bool {
    s == LaunchState::Verified
}

/// Whether a state permits spawning the backend and serving requests.
pub open spec fn spec_may_serve(s: LaunchState) -> bool {
    s == LaunchState::Serving
}

/// One step of the startup machine: the file checks must pass before ports
/// are allocated, the two ports must differ, and any unexpected or failed
/// observation aborts.
pub open spec fn spec_launch_step(s: LaunchState, e: LaunchEvent) -> LaunchState {
    match (s, e) {
        (
            LaunchState::Init,
            LaunchEvent::FilesChecked { backend_present, index_present },
        ) => if backend_present && index_present {
            LaunchState::Verified
        } else {
            LaunchState::Aborted
        },
        (LaunchState::Verified, LaunchEvent::PortsReady { rpc, ui }) => if rpc != ui {
            LaunchState::Serving
        } else {
            LaunchState::Aborted
        },
        _ => LaunchState::Aborted,
    }
}

/// The state after feeding a whole sequence of events, first event first.
pub open spec fn spec_launch_run(s: LaunchState, events: Seq<LaunchEvent>) -> LaunchState
    decreases events.len(),
{
    if events.len() == 0 {
        s
    } else {
        spec_launch_run(spec_launch_step(s, events[0]), events.drop_first())
    }
}

/// Advances the startup machine by one observation.
pub fn launch_step(s: LaunchState, e: LaunchEvent) -> (r: LaunchState)
    ensures
        r == spec_launch_step(s, e),
{
    match (s, e) {
        (
            LaunchState::Init,
            LaunchEvent::FilesChecked { backend_present, index_present },
        ) => if backend_present && index_present {
            LaunchState::Verified
        } else {
            LaunchState::Aborted
        },
        (LaunchState::Verified, LaunchEvent::PortsReady { rpc, ui }) => if rpc != ui {
            LaunchState::Serving
        } else {
            LaunchState::Aborted
        },
        _ => LaunchState::Aborted,
    }
}

/// An aborted machine stays aborted, whatever else is observed.
pub proof fn lemma_aborted_is_absorbing(events: Seq<LaunchEvent>)
    ensures
        spec_launch_run(LaunchState::Aborted, events) == LaunchState::Aborted,
    decreases events.len(),
{
    if events.len() > 0 {
        lemma_aborted_is_absorbing(events.drop_first());
    }
}

/// A missing backend executable aborts startup before any port is bound and
/// before anything is served: when the first observation reports the backend
/// absent, then after every prefix of the observations — however the run
/// goes on — the machine is in a state that permits neither binding a port
/// nor serving.
pub proof fn lemma_missing_backend_binds_nothing(events: Seq<LaunchEvent>)
    requires
        events.len() > 0,
        events[0] matches LaunchEvent::FilesChecked { backend_present, .. } && !backend_present,
    ensures
        forall|k: int|
            0 <= k <= events.len() ==> {
                &&& !spec_may_bind_ports(#[trigger] spec_launch_run(LaunchState::Init, events.take(k)))
                &&& !spec_may_serve(spec_launch_run(LaunchState::Init, events.take(k)))
            },
{
    assert forall|k: int| 0 <= k <= events.len() implies {
        &&& !spec_may_bind_ports(#[trigger] spec_launch_run(LaunchState::Init, events.take(k)))
        &&& !spec_may_serve(spec_launch_run(LaunchState::Init, events.take(k)))
    } by {
        if k == 0 {
            assert(events.take(0).len() == 0);
        } else {
            let p = events.take(k);
            assert(p.len() > 0);
            assert(p[0] == events[0]);
            assert(spec_launch_step(LaunchState::Init, p[0]) == LaunchState::Aborted);
            lemma_aborted_is_absorbing(p.drop_first());
        }
    }
}

} // verus!
