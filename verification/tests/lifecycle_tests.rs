use keyvis::lifecycle::{
    lifecycle_step, LifecycleAction, LifecycleEvent, LifecycleManager, Phase, Role,
};

#[test]
fn child_exit_terminates_the_parent_without_leaking_the_mapping() {
    let mut m = LifecycleManager::start();
    assert_eq!(m.phase, Phase::Uninitialized);
    assert!(!m.region_mapped);
    assert_eq!(lifecycle_step(&mut m, LifecycleEvent::RegionReady), LifecycleAction::Proceed);
    assert_eq!(m.phase, Phase::RegionCreated);
    assert!(m.region_mapped);
    assert_eq!(
        lifecycle_step(&mut m, LifecycleEvent::ForkedParent(4242)),
        LifecycleAction::Proceed
    );
    assert_eq!(m.phase, Phase::Forked(Role::Capture));
    assert_eq!(lifecycle_step(&mut m, LifecycleEvent::EnterRole), LifecycleAction::StartCapture);
    assert_eq!(m.phase, Phase::ParentRunning);
    // the child terminating fate-shares the parent, reaping that child
    assert_eq!(
        lifecycle_step(&mut m, LifecycleEvent::ChildExited),
        LifecycleAction::ReapChildAndExit(4242)
    );
    assert_eq!(m.phase, Phase::Terminated);
    assert!(!m.region_mapped);
}

#[test]
fn child_side_runs_render_and_exits_on_window_close() {
    let mut m = LifecycleManager::start();
    lifecycle_step(&mut m, LifecycleEvent::RegionReady);
    assert_eq!(lifecycle_step(&mut m, LifecycleEvent::ForkedChild), LifecycleAction::Proceed);
    assert_eq!(m.phase, Phase::Forked(Role::Render));
    assert_eq!(lifecycle_step(&mut m, LifecycleEvent::EnterRole), LifecycleAction::StartRender);
    assert_eq!(m.phase, Phase::ChildRunning);
    assert_eq!(
        lifecycle_step(&mut m, LifecycleEvent::WindowClosed),
        LifecycleAction::ExitCleanly
    );
    assert_eq!(m.phase, Phase::Terminated);
    assert!(!m.region_mapped);
}

#[test]
fn region_failure_is_fatal_before_forking() {
    let mut m = LifecycleManager::start();
    assert_eq!(
        lifecycle_step(&mut m, LifecycleEvent::RegionFailed),
        LifecycleAction::ExitFailure
    );
    assert_eq!(m.phase, Phase::Terminated);
    assert!(!m.region_mapped);
}

#[test]
fn fork_failure_is_fatal() {
    let mut m = LifecycleManager::start();
    lifecycle_step(&mut m, LifecycleEvent::RegionReady);
    assert_eq!(lifecycle_step(&mut m, LifecycleEvent::ForkFailed), LifecycleAction::ExitFailure);
    assert_eq!(m.phase, Phase::Terminated);
    assert!(!m.region_mapped);
}

#[test]
fn termination_is_absorbing_and_stray_events_are_ignored() {
    let mut m = LifecycleManager::start();
    // events that do not apply leave the machine unmoved
    assert_eq!(lifecycle_step(&mut m, LifecycleEvent::ChildExited), LifecycleAction::NoAction);
    assert_eq!(m.phase, Phase::Uninitialized);
    lifecycle_step(&mut m, LifecycleEvent::RegionReady);
    lifecycle_step(&mut m, LifecycleEvent::ForkedParent(7));
    lifecycle_step(&mut m, LifecycleEvent::EnterRole);
    lifecycle_step(&mut m, LifecycleEvent::ChildExited);
    let settled = m;
    for e in [
        LifecycleEvent::RegionReady,
        LifecycleEvent::RegionFailed,
        LifecycleEvent::ForkedParent(9),
        LifecycleEvent::ForkedChild,
        LifecycleEvent::ForkFailed,
        LifecycleEvent::EnterRole,
        LifecycleEvent::ChildExited,
        LifecycleEvent::WindowClosed,
    ] {
        assert_eq!(lifecycle_step(&mut m, e), LifecycleAction::NoAction);
        assert_eq!(m, settled);
    }
}
