//! The observer loop of the Unity adapter: call the observer, then sleep the poll
//! interval in short steps, checking for a stop request before every step. The
//! thread, the sleeping and the call are the caller's; this module decides the steps.
use vstd::prelude::*;
use crate::chars::{contains_char, str_bytes};
use crate::unicode::chars_of;

verus! {

pub const POLL_INTERVAL_MS: u64 = 250;
pub const SLEEP_STEP_MS: u64 = 25;
pub const MAX_EVENT_BYTES: usize = 160;

/// The number of sleep steps in one poll interval.
pub fn sleep_steps_per_poll() -> (r: u64)
    ensures
        r * SLEEP_STEP_MS == POLL_INTERVAL_MS,
        r == POLL_INTERVAL_MS / SLEEP_STEP_MS,
        POLL_INTERVAL_MS % SLEEP_STEP_MS == 0,
{
    POLL_INTERVAL_MS / SLEEP_STEP_MS
}

#[derive(Clone, Copy, Debug, PartialEq, Eq, Structural)]
pub enum ObserverAction {
    /// Call the observer; on a panic, leave the loop.
    RunCallback,
    /// Sleep one step.
    Sleep,
    /// Leave the loop.
    Exit,
}

/// The loop's position: how many sleep steps remain before the next call.
#[derive(Clone, Copy, Debug, PartialEq, Eq, Structural)]
pub struct ObserverLoopState {
    pub steps_left: u64,
}

/// The action and the next state for a stop request seen (or not) at this point.
pub open spec fn observer_transition(state: ObserverLoopState, stop_requested: bool) -> (ObserverAction, ObserverLoopState) {
    if stop_requested {
        (ObserverAction::Exit, state)
    } else if state.steps_left == 0 {
        (ObserverAction::RunCallback, ObserverLoopState { steps_left: (POLL_INTERVAL_MS / SLEEP_STEP_MS) as u64 })
    } else {
        (ObserverAction::Sleep, ObserverLoopState { steps_left: (state.steps_left - 1) as u64 })
    }
}

impl ObserverLoopState {
    /// The state on entry: the observer is called first.
    pub fn start() -> (r: Self)
        ensures
            r.steps_left == 0,
    {
        ObserverLoopState { steps_left: 0 }
    }

    pub fn step(self, stop_requested: bool) -> (r: (ObserverAction, ObserverLoopState))
        ensures
            r == observer_transition(self, stop_requested),
    {
        if stop_requested {
            (ObserverAction::Exit, self)
        } else if self.steps_left == 0 {
            (ObserverAction::RunCallback, ObserverLoopState { steps_left: sleep_steps_per_poll() })
        } else {
            (ObserverAction::Sleep, ObserverLoopState { steps_left: self.steps_left - 1 })
        }
    }
}

/// The state after `k` steps without a stop request, from `s`.
pub open spec fn run_steps(s: ObserverLoopState, k: nat) -> ObserverLoopState
    decreases k,
{
    if k == 0 { s } else { run_steps(observer_transition(s, false).1, (k - 1) as nat) }
}

/// After a call, the observer sleeps exactly one poll interval, in steps, before it is
/// called again: the `steps`-th step after a call is a call only when `steps` is one
/// more than the steps per poll.
pub proof fn law_poll_interval_between_calls(k: nat)
    requires
        1 <= k <= POLL_INTERVAL_MS / SLEEP_STEP_MS,
    ensures
        observer_transition(run_steps(observer_transition(ObserverLoopState { steps_left: 0 }, false).1, (k - 1) as nat), false).0
            == ObserverAction::Sleep,
        observer_transition(run_steps(observer_transition(ObserverLoopState { steps_left: 0 }, false).1,
            (POLL_INTERVAL_MS / SLEEP_STEP_MS) as nat), false).0 == ObserverAction::RunCallback,
{
    let s1 = observer_transition(ObserverLoopState { steps_left: 0 }, false).1;
    lemma_run_steps_counts_down(s1, (k - 1) as nat);
    lemma_run_steps_counts_down(s1, (POLL_INTERVAL_MS / SLEEP_STEP_MS) as nat);
}

proof fn lemma_run_steps_counts_down(s: ObserverLoopState, k: nat)
    requires
        k <= s.steps_left,
    ensures
        run_steps(s, k).steps_left == s.steps_left - k,
    decreases k,
{
    if k > 0 {
        lemma_run_steps_counts_down(observer_transition(s, false).1, (k - 1) as nat);
    }
}

/// A stop request is honoured at the very next step, whatever the state.
pub proof fn law_stop_is_prompt(s: ObserverLoopState)
    ensures
        observer_transition(s, true).0 == ObserverAction::Exit,
{
}

/// A trace event is written only when it is a single non-empty line of bounded length.
pub open spec fn trace_event_allowed(event: Seq<char>) -> bool {
    event.len() > 0 && vstd::utf8::encode_utf8(event).len() <= MAX_EVENT_BYTES
        && !event.contains('\r') && !event.contains('\n')
}

pub fn trace_event_is_allowed(event: &str) -> (r: bool)
    ensures
        r == trace_event_allowed(event@),
{
    let chars = chars_of(event);
    let bytes = str_bytes(event);
    chars.len() > 0 && bytes.len() <= MAX_EVENT_BYTES && !contains_char(&chars, '\r')
        && !contains_char(&chars, '\n')
}

} // verus!
