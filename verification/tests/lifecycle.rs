use steam_patch::lifecycle::{
    run_watch, startup_plan, watch_step, CycleAction, ProbeResult, WatchState,
};

#[test]
fn down_down_up_reverts_once_then_applies() {
    let probes = vec![
        ProbeResult::Unreachable,
        ProbeResult::Unreachable,
        ProbeResult::ReachableWithContext,
    ];
    let (state, marker, actions) = run_watch(WatchState::initial(), true, &probes);
    assert_eq!(
        actions,
        vec![CycleAction::Revert, CycleAction::Wait, CycleAction::ApplyAndReload]
    );
    assert!(marker);
    assert!(!state.server_was_down);
}

#[test]
fn apply_is_idempotent_while_marked() {
    let (state, action) = watch_step(WatchState::initial(), ProbeResult::ReachableWithContext, true);
    assert_eq!(action, CycleAction::Wait);
    assert!(!state.server_was_down);
}

#[test]
fn context_present_and_unmarked_applies() {
    let (_, action) = watch_step(WatchState::initial(), ProbeResult::ReachableWithContext, false);
    assert_eq!(action, CycleAction::ApplyAndReload);
}

#[test]
fn reachable_without_context_waits() {
    let down = WatchState { server_was_down: true };
    let (state, action) = watch_step(down, ProbeResult::ReachableWithoutContext, true);
    assert_eq!(action, CycleAction::Wait);
    assert!(!state.server_was_down);
}

#[test]
fn first_down_cycle_without_marker_only_latches() {
    let (state, action) = watch_step(WatchState::initial(), ProbeResult::Unreachable, false);
    assert_eq!(action, CycleAction::Wait);
    assert!(state.server_was_down);
}

#[test]
fn marker_tracks_last_terminal_operation() {
    let probes = vec![
        ProbeResult::ReachableWithContext,
        ProbeResult::ReachableWithContext,
        ProbeResult::Unreachable,
        ProbeResult::Unreachable,
        ProbeResult::ReachableWithoutContext,
        ProbeResult::Unreachable,
        ProbeResult::ReachableWithContext,
    ];
    let (_, marker, actions) = run_watch(WatchState::initial(), false, &probes);
    assert_eq!(
        actions,
        vec![
            CycleAction::ApplyAndReload,
            CycleAction::Wait,
            CycleAction::Revert,
            CycleAction::Wait,
            CycleAction::Wait,
            CycleAction::Wait,
            CycleAction::ApplyAndReload,
        ]
    );
    assert!(marker);
}

#[test]
fn endpoint_recovery_rearms_the_down_latch() {
    let probes = vec![
        ProbeResult::Unreachable,
        ProbeResult::ReachableWithoutContext,
        ProbeResult::Unreachable,
    ];
    let (_, marker, actions) = run_watch(WatchState::initial(), true, &probes);
    assert_eq!(
        actions,
        vec![CycleAction::Revert, CycleAction::Wait, CycleAction::Wait]
    );
    assert!(!marker);
}

#[test]
fn startup_reverts_stale_state_then_applies() {
    let p = startup_plan(true, true);
    assert!(p.revert_first);
    assert!(p.apply);
    let p = startup_plan(true, false);
    assert!(!p.revert_first);
    assert!(p.apply);
    let p = startup_plan(false, true);
    assert!(!p.revert_first);
    assert!(!p.apply);
}
