//! The endpoint-driven patch lifecycle state machine.
//!
//! The controller polls the target's debug endpoint on a fixed interval
//! and decides, from each poll alone, whether to patch, revert, or wait.
//! The persisted marker is the single source of truth consulted before
//! every decision: applying when already marked patched is a no-op, and
//! an endpoint that stops answering triggers exactly one revert per down
//! period, guarded by the `server_was_down` latch.

use vstd::prelude::*;

verus! {

/// What one poll of the readiness endpoint observed.
#[derive(PartialEq, Eq, Structural, Clone, Copy, Debug)]
pub enum ProbeResult {
    /// The endpoint did not answer: the target is down, restarting or
    /// mid-update.
    Unreachable,
    /// The endpoint answered but the shared scripting context is absent:
    /// the target runs but is not yet ready.
    ReachableWithoutContext,
    /// The endpoint answered and the shared scripting context is present.
    ReachableWithContext,
}

/// What the controller owes after one poll cycle.
#[derive(PartialEq, Eq, Structural, Clone, Copy, Debug)]
pub enum CycleAction {
    /// Apply the patch set, force a reload over the remote control
    /// channel, and persist the marker.
    ApplyAndReload,
    /// Revert the patch set and clear the marker.
    Revert,
    /// Do nothing until the next cycle.
    Wait,
}

/// The state carried between poll cycles: whether the endpoint was
/// already seen down on an earlier cycle of the current down period.
#[derive(PartialEq, Eq, Structural, Clone, Copy, Debug)]
pub struct WatchState {
    pub server_was_down: bool,
}

impl WatchState {
    /// The state the polling loop starts in.
    pub fn initial() -> (s: WatchState)
        ensures
            !s.server_was_down,
    {
        WatchState { server_was_down: false }
    }
}

/// The decision the lifecycle loop owes for one poll result, given the
/// current latch state and the persisted marker: patch when the context
/// is present and the marker is clear; revert on the first unreachable
/// cycle while marked patched; wait otherwise.  Any answer from the
/// endpoint ends the current down period.
pub open spec fn spec_watch_step(state: WatchState, probe: ProbeResult, marker: bool) -> (
    WatchState,
    CycleAction,
) {
    match probe {
        ProbeResult::ReachableWithContext => (
            WatchState { server_was_down: false },
            if marker {
                CycleAction::Wait
            } else {
                CycleAction::ApplyAndReload
            },
        ),
        ProbeResult::ReachableWithoutContext => (WatchState { server_was_down: false }, CycleAction::Wait),
        ProbeResult::Unreachable => (
            WatchState { server_was_down: true },
            if !state.server_was_down && marker {
                CycleAction::Revert
            } else {
                CycleAction::Wait
            },
        ),
    }
}

/// One decision of the endpoint-driven lifecycle loop.
pub fn watch_step(state: WatchState, probe: ProbeResult, marker: bool) -> (r: (
    WatchState,
    CycleAction,
))
    ensures
        r == spec_watch_step(state, probe, marker),
{
    match probe {
        ProbeResult::ReachableWithContext => (
            WatchState { server_was_down: false },
            if marker {
                CycleAction::Wait
            } else {
                CycleAction::ApplyAndReload
            },
        ),
        ProbeResult::ReachableWithoutContext => (
            WatchState { server_was_down: false },
            CycleAction::Wait,
        ),
        ProbeResult::Unreachable => (
            WatchState { server_was_down: true },
            if !state.server_was_down && marker {
                CycleAction::Revert
            } else {
                CycleAction::Wait
            },
        ),
    }
}

/// The marker value after an action ran: applying sets it, reverting
/// clears it, waiting leaves it.
pub open spec fn marker_after(marker: bool, a: CycleAction) -> bool {
    match a {
        CycleAction::ApplyAndReload => true,
        CycleAction::Revert => false,
        CycleAction::Wait => marker,
    }
}

/// The lifecycle loop run over a whole sequence of poll results: the
/// final latch state, the final marker, and the action of every cycle.
pub open spec fn spec_run_watch(state: WatchState, marker: bool, probes: Seq<ProbeResult>) -> (
    WatchState,
    bool,
    Seq<CycleAction>,
)
    decreases probes.len(),
{
    if probes.len() == 0 {
        (state, marker, Seq::<CycleAction>::empty())
    } else {
        let prev = spec_run_watch(state, marker, probes.drop_last());
        let step = spec_watch_step(prev.0, probes.last(), prev.1);
        (step.0, marker_after(prev.1, step.1), prev.2.push(step.1))
    }
}

/// Runs the lifecycle loop over a recorded sequence of poll results,
/// threading the latch and the marker exactly as the live loop does, and
/// returns the final latch state, the final marker, and every decision
/// taken, in order.
pub fn run_watch(state: WatchState, marker: bool, probes: &Vec<ProbeResult>) -> (r: (
    WatchState,
    bool,
    Vec<CycleAction>,
))
    ensures
        (r.0, r.1, r.2@) == spec_run_watch(state, marker, probes@),
{
    let mut cur = state;
    let mut m = marker;
    let mut actions: Vec<CycleAction> = Vec::new();
    let mut i: usize = 0;
    proof {
        assert(probes@.take(0) =~= Seq::<ProbeResult>::empty());
    }
    while i < probes.len()
        invariant
            i <= probes@.len(),
            (cur, m, actions@) == spec_run_watch(state, marker, probes@.take(i as int)),
        decreases probes@.len() - i,
    {
        let step = watch_step(cur, probes[i], m);
        cur = step.0;
        m = if step.1 == CycleAction::ApplyAndReload {
            true
        } else if step.1 == CycleAction::Revert {
            false
        } else {
            m
        };
        actions.push(step.1);
        proof {
            assert(probes@.take(i + 1 as int).drop_last() =~= probes@.take(i as int));
            assert(probes@.take(i + 1 as int).last() == probes@[i as int]);
        }
        i += 1;
    }
    proof {
        assert(probes@.take(probes@.len() as int) =~= probes@);
    }
    (cur, m, actions)
}

/// While the marker says patched, no cycle decides to apply again: the
/// second of two apply cycles in a row does nothing.
pub proof fn lemma_apply_idempotent(state: WatchState, probe: ProbeResult)
    ensures
        spec_watch_step(state, probe, true).1 != CycleAction::ApplyAndReload,
{
}

/// While the endpoint stays down, only the first cycle of the down
/// period may revert; every later one waits.
pub proof fn lemma_revert_once_per_down_period(state: WatchState, marker: bool)
    ensures
        state.server_was_down ==> spec_watch_step(state, ProbeResult::Unreachable, marker).1
            == CycleAction::Wait,
        spec_watch_step(state, ProbeResult::Unreachable, marker).0.server_was_down,
{
}

/// The marker left by a fold of the actions alone.
pub open spec fn marker_after_all(m0: bool, actions: Seq<CycleAction>) -> bool
    decreases actions.len(),
{
    if actions.len() == 0 {
        m0
    } else {
        marker_after(marker_after_all(m0, actions.drop_last()), actions.last())
    }
}

/// After any sequence of poll cycles, the persisted marker equals the
/// fold of the decided actions over the starting marker: the marker
/// tracks exactly the applies and reverts that were decided.
pub proof fn lemma_marker_correctness(state: WatchState, m0: bool, probes: Seq<ProbeResult>)
    ensures
        spec_run_watch(state, m0, probes).1 == marker_after_all(
            m0,
            spec_run_watch(state, m0, probes).2,
        ),
    decreases probes.len(),
{
    if probes.len() > 0 {
        lemma_marker_correctness(state, m0, probes.drop_last());
        let prev = spec_run_watch(state, m0, probes.drop_last());
        let acts = spec_run_watch(state, m0, probes).2;
        assert(acts.drop_last() =~= prev.2);
    }
}

/// The marker after a run equals true exactly when the most recent
/// terminal operation was an apply: if some cycle decided an apply or a
/// revert and every later cycle waited, the marker equals whether that
/// cycle's decision was the apply.
pub proof fn lemma_marker_tracks_last_operation(m0: bool, actions: Seq<CycleAction>, k: int)
    requires
        0 <= k < actions.len(),
        actions[k] != CycleAction::Wait,
        forall|j: int| k < j < actions.len() ==> actions[j] == CycleAction::Wait,
    ensures
        marker_after_all(m0, actions) == (actions[k] == CycleAction::ApplyAndReload),
    decreases actions.len(),
{
    if k == actions.len() - 1 {
    } else {
        assert(actions.drop_last()[k] == actions[k]);
        lemma_marker_tracks_last_operation(m0, actions.drop_last(), k);
    }
}

/// The one-time startup decision: if the target is already running when
/// the controller starts, first revert any stale patch state left behind
/// by an earlier run, then apply afresh; a target that is not running is
/// left alone until the polling loop sees it.
pub struct StartupPlan {
    pub revert_first: bool,
    pub apply: bool,
}

/// What to do once before the polling loop starts.
pub fn startup_plan(target_running: bool, marker: bool) -> (p: StartupPlan)
    ensures
        p.revert_first == (target_running && marker),
        p.apply == target_running,
{
    StartupPlan { revert_first: target_running && marker, apply: target_running }
}

} // verus!

