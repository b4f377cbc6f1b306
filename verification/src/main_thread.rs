//! Dispatching work onto the Unity process's GUI thread: the choice of the thread,
//! and the bookkeeping of one dispatch (generation numbers, the hook and callback
//! registered for it, and its completion). The window enumeration, the message hook,
//! the wait on a condition variable and the call of the callback are done by the
//! caller, which consults this state at each step.
use vstd::prelude::*;

verus! {

#[derive(Clone, Copy, Debug, PartialEq, Eq, Structural)]
pub struct WindowCandidate {
    pub thread_id: u32,
    pub window: usize,
}

/// The visible window to post to, when every candidate belongs to one non-zero thread.
pub open spec fn single_thread_choice(c: Seq<WindowCandidate>) -> Option<WindowCandidate> {
    if c.len() == 0 || c[0].thread_id == 0 || c[0].window == 0 {
        None
    } else if forall|i: int| 0 <= i < c.len() ==> (#[trigger] c[i]).thread_id == c[0].thread_id {
        Some(c[0])
    } else {
        None
    }
}

pub fn single_window_thread(candidates: &[WindowCandidate]) -> (r: Option<WindowCandidate>)
    ensures
        r == single_thread_choice(candidates@),
{
    if candidates.len() == 0 {
        return None;
    }
    let first = candidates[0];
    if first.thread_id == 0 || first.window == 0 {
        return None;
    }
    let mut i: usize = 0;
    while i < candidates.len()
        invariant
            i <= candidates.len(),
            first == candidates@[0],
            forall|k: int| 0 <= k < i ==> (#[trigger] candidates@[k]).thread_id == first.thread_id,
        decreases candidates.len() - i,
    {
        if candidates[i].thread_id != first.thread_id {
            assert(candidates@[i as int].thread_id != candidates@[0].thread_id);
            return None;
        }
        i += 1;
    }
    Some(first)
}

/// The generation after `counter`: the next number, skipping zero.
pub open spec fn generation_after(counter: usize) -> usize {
    if counter == usize::MAX { 1 } else { (counter + 1) as usize }
}

/// The hook installed for one dispatch.
#[derive(Clone, Copy, Debug, PartialEq, Eq, Structural)]
pub struct HookRegistration {
    pub generation: usize,
    pub thread_id: u32,
    pub handle: isize,
}

/// The callback waiting to run for one dispatch.
#[derive(Clone, Copy, Debug, PartialEq, Eq)]
pub struct PendingCallback<C> {
    pub generation: usize,
    pub callback: C,
}

/// The result of the current dispatch, once the GUI thread reported it.
#[derive(Clone, Copy, Debug, PartialEq, Eq, Structural)]
pub struct Completion {
    pub generation: usize,
    pub result: Option<bool>,
}

/// One step of waiting for a dispatch to complete.
#[derive(Clone, Copy, Debug, PartialEq, Eq, Structural)]
pub enum WaitStep {
    /// Stop waiting with this result (`None`: no result, the dispatch failed).
    Finished(Option<bool>),
    /// Wait on the condition variable for the remaining time.
    Wait,
}

/// What a waiter sees when it looks at the completion: done with the result, done
/// without one (another dispatch took over, or the time is up), or wait more.
pub open spec fn wait_step_for(c: Completion, generation: usize, time_left: bool) -> WaitStep {
    if c.generation != generation {
        WaitStep::Finished(None)
    } else if c.result is Some {
        WaitStep::Finished(c.result)
    } else if !time_left {
        WaitStep::Finished(None)
    } else {
        WaitStep::Wait
    }
}

/// What a waiter sees when a wait on the condition variable returns.
pub open spec fn after_wait_for(c: Completion, generation: usize, timed_out: bool) -> WaitStep {
    if timed_out && c.result is None {
        WaitStep::Finished(None)
    } else {
        wait_step_for(c, generation, true)
    }
}

/// The dispatch bookkeeping shared between the requesting thread and the GUI thread's hook.
pub struct DispatchSlots<C> {
    counter: usize,
    hook: Option<HookRegistration>,
    pending: Option<PendingCallback<C>>,
    completion: Completion,
}

pub struct SlotsModel<C> {
    pub counter: usize,
    pub hook: Option<HookRegistration>,
    pub pending: Option<PendingCallback<C>>,
    pub completion: Completion,
}

impl<C> View for DispatchSlots<C> {
    type V = SlotsModel<C>;

    closed spec fn view(&self) -> SlotsModel<C> {
        SlotsModel { counter: self.counter, hook: self.hook, pending: self.pending, completion: self.completion }
    }
}

/// `slot` without the entry of `generation`, and the entry taken.
pub open spec fn hook_taken(slot: Option<HookRegistration>, generation: usize) -> (Option<HookRegistration>, Option<HookRegistration>) {
    match slot {
        Some(h) => if h.generation == generation { (None, Some(h)) } else { (slot, None) },
        None => (None, None),
    }
}

pub open spec fn callback_taken<C>(slot: Option<PendingCallback<C>>, generation: usize) -> (Option<PendingCallback<C>>, Option<C>) {
    match slot {
        Some(p) => if p.generation == generation { (None, Some(p.callback)) } else { (slot, None) },
        None => (None, None),
    }
}

/// The completion after the GUI thread reports `result` for `generation`.
pub open spec fn completed(c: Completion, generation: usize, result: bool) -> Completion {
    if c.generation == generation { Completion { generation, result: Some(result) } } else { c }
}

impl<C> DispatchSlots<C> {
    pub fn new() -> (r: Self)
        ensures
            r@.counter == 0,
            r@.hook is None,
            r@.pending is None,
            r@.completion == (Completion { generation: 0, result: None }),
    {
        DispatchSlots { counter: 0, hook: None, pending: None, completion: Completion { generation: 0, result: None } }
    }

    /// A fresh, non-zero generation for the next dispatch.
    pub fn next_generation(&mut self) -> (r: usize)
        ensures
            r != 0,
            r == generation_after(old(self)@.counter),
            final(self)@ == (SlotsModel { counter: r, ..old(self)@ }),
    {
        let g: usize = if self.counter == usize::MAX { 1 } else { self.counter + 1 };
        self.counter = g;
        g
    }

    /// Records the hook installed for a dispatch, handing back the one it replaces (to be removed).
    pub fn register_hook(&mut self, hook: HookRegistration) -> (r: Option<HookRegistration>)
        ensures
            r == old(self)@.hook,
            final(self)@ == (SlotsModel { hook: Some(hook), ..old(self)@ }),
    {
        let previous = self.hook;
        self.hook = Some(hook);
        previous
    }

    /// Takes the hook if it belongs to `generation`; a hook of another dispatch stays.
    pub fn take_hook(&mut self, generation: usize) -> (r: Option<HookRegistration>)
        ensures
            r == hook_taken(old(self)@.hook, generation).1,
            final(self)@ == (SlotsModel { hook: hook_taken(old(self)@.hook, generation).0, ..old(self)@ }),
    {
        match self.hook {
            Some(h) => {
                if h.generation == generation {
                    self.hook = None;
                    Some(h)
                } else {
                    None
                }
            },
            None => None,
        }
    }

    /// Records the callback to run for `generation`.
    pub fn set_pending(&mut self, generation: usize, callback: C)
        ensures
            final(self)@ == (SlotsModel { pending: Some(PendingCallback { generation, callback }), ..old(self)@ }),
    {
        self.pending = Some(PendingCallback { generation, callback });
    }

    /// Takes the callback if it belongs to `generation`; a callback of another dispatch stays.
    pub fn take_callback(&mut self, generation: usize) -> (r: Option<C>)
        ensures
            r == callback_taken(old(self)@.pending, generation).1,
            final(self)@ == (SlotsModel { pending: callback_taken(old(self)@.pending, generation).0, ..old(self)@ }),
    {
        let mut slot: Option<PendingCallback<C>> = None;
        std::mem::swap(&mut slot, &mut self.pending);
        match slot {
            Some(p) => {
                if p.generation == generation {
                    Some(p.callback)
                } else {
                    self.pending = Some(p);
                    None
                }
            },
            None => None,
        }
    }

    /// Starts waiting for `generation`: no result yet.
    pub fn reset_completion(&mut self, generation: usize)
        ensures
            final(self)@ == (SlotsModel { completion: Completion { generation, result: None }, ..old(self)@ }),
    {
        self.completion = Completion { generation, result: None };
    }

    /// The GUI thread reports `result`; a report for another generation is dropped.
    pub fn complete(&mut self, generation: usize, result: bool)
        ensures
            final(self)@ == (SlotsModel { completion: completed(old(self)@.completion, generation, result), ..old(self)@ }),
    {
        if self.completion.generation == generation {
            self.completion = Completion { generation, result: Some(result) };
        }
    }

    /// Looks at the completion before a wait; `time_left` is whether any of the timeout remains.
    pub fn wait_step(&self, generation: usize, time_left: bool) -> (r: WaitStep)
        ensures
            r == wait_step_for(self@.completion, generation, time_left),
    {
        if self.completion.generation != generation {
            WaitStep::Finished(None)
        } else if self.completion.result.is_some() {
            WaitStep::Finished(self.completion.result)
        } else if !time_left {
            WaitStep::Finished(None)
        } else {
            WaitStep::Wait
        }
    }

    /// Looks at the completion after a wait returned, `timed_out` telling whether it timed out.
    pub fn after_wait(&self, generation: usize, timed_out: bool) -> (r: WaitStep)
        ensures
            r == after_wait_for(self@.completion, generation, timed_out),
    {
        if timed_out && self.completion.result.is_none() {
            WaitStep::Finished(None)
        } else {
            self.wait_step(generation, true)
        }
    }

    /// What the hook does when the dispatch message of `generation` reaches the GUI thread
    /// `thread_id`: the hook registration to remove, and the callback to run (only on the
    /// thread the hook was installed for). The caller then reports the result with `complete`.
    pub fn on_dispatch_message(&mut self, generation: usize, thread_id: u32) -> (r: (Option<HookRegistration>, Option<C>))
        ensures
            r.0 == hook_taken(old(self)@.hook, generation).1,
            r.0 is None ==> r.1 is None && final(self)@ == old(self)@,
            r.0 matches Some(h) ==> {
                &&& final(self)@.hook is None
                &&& final(self)@.pending == callback_taken(old(self)@.pending, generation).0
                &&& r.1 == (if h.thread_id == thread_id { callback_taken(old(self)@.pending, generation).1 } else { None })
                &&& final(self)@.counter == old(self)@.counter
                &&& final(self)@.completion == old(self)@.completion
            },
    {
        let hook = self.take_hook(generation);
        match hook {
            Some(h) => {
                let callback = self.take_callback(generation);
                if h.thread_id == thread_id {
                    (hook, callback)
                } else {
                    (hook, None)
                }
            },
            None => (None, None),
        }
    }
}

/// A waiter that reset the completion for its generation, and whose dispatch then
/// completed, stops with that dispatch's result, whether or not time is left.
pub proof fn law_completed_dispatch_is_seen(generation: usize, result: bool, time_left: bool)
    ensures
        wait_step_for(completed(Completion { generation, result: None }, generation, result), generation, time_left)
            == WaitStep::Finished(Some(result)),
{
}

/// A report for another generation never changes what the waiter of `generation` sees.
pub proof fn law_stale_report_is_ignored(c: Completion, generation: usize, other: usize, result: bool, time_left: bool)
    requires
        c.generation == generation,
        other != generation,
    ensures
        wait_step_for(completed(c, other, result), generation, time_left) == wait_step_for(c, generation, time_left),
{
}

/// Without a result, a waiter whose time is up stops without one: the wait is bounded.
pub proof fn law_wait_is_bounded(c: Completion, generation: usize)
    requires
        c.result is None,
    ensures
        wait_step_for(c, generation, false) == WaitStep::Finished(None),
        after_wait_for(c, generation, true) == WaitStep::Finished(None),
{
}

/// Generations are never zero, and consecutive ones differ.
pub proof fn law_generations_are_fresh(counter: usize)
    ensures
        generation_after(counter) != 0,
        generation_after(counter) != counter,
{
}

} // verus!
