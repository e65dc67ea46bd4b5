//! Lifecycle of the process pair, as an explicit state machine: create the
//! shared region, fork once, run the capture role in the parent and the
//! render role in the child, and terminate both together. The surrounding
//! program performs each returned action (create, fork, run, reap, exit)
//! and feeds the outcome back as the next event; the machine only decides.

use vstd::prelude::*;

verus! {

/// The role a process takes after the fork point.
#[derive(Clone, Copy, PartialEq, Eq, Debug)]
pub enum Role {
    Capture,
    Render,
}

/// Phase of the pair's lifecycle, as one process sees it.
#[derive(Clone, Copy, PartialEq, Eq, Debug)]
pub enum Phase {
    Uninitialized,
    RegionCreated,
    Forked(Role),
    ParentRunning,
    ChildRunning,
    Terminated,
}

/// Outcomes the surrounding program reports to the machine.
#[derive(Clone, Copy, PartialEq, Eq, Debug)]
pub enum LifecycleEvent {
    /// The backing store was created, zero-initialized and mapped.
    RegionReady,
    /// Creating or mapping the backing store failed: fatal, before forking.
    RegionFailed,
    /// The fork returned in the parent, with the child's process id.
    ForkedParent(i32),
    /// The fork returned in the child.
    ForkedChild,
    /// The fork call itself failed: fatal.
    ForkFailed,
    /// This process is about to run its role's long-lived work.
    EnterRole,
    /// The child terminated, by any means; reported to the parent.
    ChildExited,
    /// The user closed the overlay window; reported in the child.
    WindowClosed,
}

/// What the surrounding program must do after a step.
#[derive(Clone, Copy, PartialEq, Eq, Debug)]
pub enum LifecycleAction {
    /// Continue to the next lifecycle step.
    Proceed,
    /// Exit immediately with a non-zero status; nothing is left running.
    ExitFailure,
    /// Run the capture side: permission polling and the event subscription.
    StartCapture,
    /// Run the render side: the frame loop over per-frame snapshots.
    StartRender,
    /// Reap the given child process and exit; the pair is fate-shared.
    ReapChildAndExit(i32),
    /// Tear down this process's mapping and exit normally.
    ExitCleanly,
    /// The event does not apply in the current phase; ignore it.
    NoAction,
}

/// One lifecycle manager per process: the phase, the child's process id on
/// the parent side, and whether this process still holds a mapping of the
/// shared region.
#[derive(Clone, Copy, PartialEq, Eq, Debug)]
pub struct LifecycleManager {
    pub phase: Phase,
    pub child_pid: Option<i32>,
    pub region_mapped: bool,
}

impl LifecycleManager {
    /// Invariant: the region is mapped exactly between its creation and the
    /// process's end, and a running parent always knows its child.
    pub open spec fn wf(self) -> bool {
        &&& self.region_mapped <==> !(self.phase == Phase::Uninitialized || self.phase
            == Phase::Terminated)
        &&& (self.phase == Phase::ParentRunning || self.phase == Phase::Forked(Role::Capture))
            ==> self.child_pid is Some
    }

    /// Before anything runs: no region, no child.
    pub fn start() -> (r: Self)
        ensures
            r.wf(),
            r.phase == Phase::Uninitialized,
            !r.region_mapped,
    {
        LifecycleManager { phase: Phase::Uninitialized, child_pid: None, region_mapped: false }
    }
}

/// The transition relation: next manager state and required action for one
/// event in one state. Events that do not apply in the current phase leave
/// the state unchanged; every path out of a live phase that ends the
/// process also gives up the region mapping, and `Terminated` is absorbing.
pub open spec fn spec_step(m: LifecycleManager, e: LifecycleEvent) -> (LifecycleManager, LifecycleAction) {
    match (m.phase, e) {
        (Phase::Uninitialized, LifecycleEvent::RegionReady) => (
            LifecycleManager { phase: Phase::RegionCreated, region_mapped: true, ..m },
            LifecycleAction::Proceed,
        ),
        (Phase::Uninitialized, LifecycleEvent::RegionFailed) => (
            LifecycleManager { phase: Phase::Terminated, region_mapped: false, ..m },
            LifecycleAction::ExitFailure,
        ),
        (Phase::RegionCreated, LifecycleEvent::ForkedParent(pid)) => (
            LifecycleManager { phase: Phase::Forked(Role::Capture), child_pid: Some(pid), ..m },
            LifecycleAction::Proceed,
        ),
        (Phase::RegionCreated, LifecycleEvent::ForkedChild) => (
            LifecycleManager { phase: Phase::Forked(Role::Render), ..m },
            LifecycleAction::Proceed,
        ),
        (Phase::RegionCreated, LifecycleEvent::ForkFailed) => (
            LifecycleManager { phase: Phase::Terminated, region_mapped: false, ..m },
            LifecycleAction::ExitFailure,
        ),
        (Phase::Forked(Role::Capture), LifecycleEvent::EnterRole) => (
            LifecycleManager { phase: Phase::ParentRunning, ..m },
            LifecycleAction::StartCapture,
        ),
        (Phase::Forked(Role::Render), LifecycleEvent::EnterRole) => (
            LifecycleManager { phase: Phase::ChildRunning, ..m },
            LifecycleAction::StartRender,
        ),
        (Phase::ParentRunning, LifecycleEvent::ChildExited) => (
            LifecycleManager { phase: Phase::Terminated, region_mapped: false, ..m },
            LifecycleAction::ReapChildAndExit(m.child_pid->0),
        ),
        (Phase::ChildRunning, LifecycleEvent::WindowClosed) => (
            LifecycleManager { phase: Phase::Terminated, region_mapped: false, ..m },
            LifecycleAction::ExitCleanly,
        ),
        _ => (m, LifecycleAction::NoAction),
    }
}

/// Advance the machine by one event and return the action the surrounding
/// program must perform.
pub fn lifecycle_step(m: &mut LifecycleManager, event: LifecycleEvent) -> (a: LifecycleAction)
    requires
        old(m).wf(),
    ensures
        final(m).wf(),
        (*final(m), a) == spec_step(*old(m), event),
{
    let next: (LifecycleManager, LifecycleAction) = match (m.phase, event) {
        (Phase::Uninitialized, LifecycleEvent::RegionReady) => (
            LifecycleManager { phase: Phase::RegionCreated, region_mapped: true, ..*m },
            LifecycleAction::Proceed,
        ),
        (Phase::Uninitialized, LifecycleEvent::RegionFailed) => (
            LifecycleManager { phase: Phase::Terminated, region_mapped: false, ..*m },
            LifecycleAction::ExitFailure,
        ),
        (Phase::RegionCreated, LifecycleEvent::ForkedParent(pid)) => (
            LifecycleManager { phase: Phase::Forked(Role::Capture), child_pid: Some(pid), ..*m },
            LifecycleAction::Proceed,
        ),
        (Phase::RegionCreated, LifecycleEvent::ForkedChild) => (
            LifecycleManager { phase: Phase::Forked(Role::Render), ..*m },
            LifecycleAction::Proceed,
        ),
        (Phase::RegionCreated, LifecycleEvent::ForkFailed) => (
            LifecycleManager { phase: Phase::Terminated, region_mapped: false, ..*m },
            LifecycleAction::ExitFailure,
        ),
        (Phase::Forked(Role::Capture), LifecycleEvent::EnterRole) => (
            LifecycleManager { phase: Phase::ParentRunning, ..*m },
            LifecycleAction::StartCapture,
        ),
        (Phase::Forked(Role::Render), LifecycleEvent::EnterRole) => (
            LifecycleManager { phase: Phase::ChildRunning, ..*m },
            LifecycleAction::StartRender,
        ),
        (Phase::ParentRunning, LifecycleEvent::ChildExited) => {
            let pid = match m.child_pid {
                Some(p) => p,
                None => 0,  // unreachable: a running parent knows its child
            };
            (
                LifecycleManager { phase: Phase::Terminated, region_mapped: false, ..*m },
                LifecycleAction::ReapChildAndExit(pid),
            )
        },
        (Phase::ChildRunning, LifecycleEvent::WindowClosed) => (
            LifecycleManager { phase: Phase::Terminated, region_mapped: false, ..*m },
            LifecycleAction::ExitCleanly,
        ),
        _ => (*m, LifecycleAction::NoAction),
    };
    *m = next.0;
    next.1
}

/// Fate-sharing law: in a well-formed running parent, the child's
/// termination makes the machine terminate this process too, reaping that
/// child, and give up the region mapping — no mapping outlives the pair.
pub proof fn lemma_child_exit_terminates(m: LifecycleManager)
    requires
        m.wf(),
        m.phase == Phase::ParentRunning,
    ensures
        spec_step(m, LifecycleEvent::ChildExited).0.phase == Phase::Terminated,
        !spec_step(m, LifecycleEvent::ChildExited).0.region_mapped,
        spec_step(m, LifecycleEvent::ChildExited).1 == LifecycleAction::ReapChildAndExit(
            m.child_pid->0,
        ),
{
}

/// Termination is absorbing: no event moves a terminated machine, and no
/// action is demanded of it.
pub proof fn lemma_terminated_absorbing(m: LifecycleManager, e: LifecycleEvent)
    requires
        m.phase == Phase::Terminated,
    ensures
        spec_step(m, e).0 == m,
        spec_step(m, e).1 == LifecycleAction::NoAction,
{
}

} // verus!
