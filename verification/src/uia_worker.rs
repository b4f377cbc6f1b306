//! The UI Automation worker's own state: the bounded event counter that asks for
//! rescans, the health verdict, the worker's lifecycle, and the stable keys under
//! which elements are reported.
use vstd::prelude::*;
use crate::capture::AcquisitionError;
use crate::chars::append_all;
use crate::unicode::{chars_of, string_of};

verus! {

pub const MAX_PENDING_EVENTS: u64 = 2048;
pub const MAX_INITIAL_ELEMENTS: i32 = 4096;
pub const MAX_TEXT_UNITS: i32 = 16 * 1024;

/// Events from UI Automation callbacks, counted up to a bound; every event asks for a rescan.
#[derive(Clone, Copy, Debug, PartialEq, Eq, Structural)]
pub struct PendingEvents {
    pub count: u64,
    pub rescan: bool,
    pub dropped: u64,
}

impl PendingEvents {
    pub fn new() -> (r: Self)
        ensures
            r == (PendingEvents { count: 0, rescan: false, dropped: 0 }),
    {
        PendingEvents { count: 0, rescan: false, dropped: 0 }
    }

    /// One more event: counted while under the bound, else recorded as dropped.
    pub fn notify(&mut self)
        requires
            old(self).count <= MAX_PENDING_EVENTS,
        ensures
            final(self).rescan,
            old(self).count < MAX_PENDING_EVENTS ==> final(self).count == old(self).count + 1
                && final(self).dropped == old(self).dropped,
            old(self).count >= MAX_PENDING_EVENTS ==> final(self).count == old(self).count
                && final(self).dropped == old(self).dropped.wrapping_add(1),
            final(self).count <= MAX_PENDING_EVENTS,
    {
        if self.count < MAX_PENDING_EVENTS {
            self.count = self.count + 1;
        } else {
            self.dropped = self.dropped.wrapping_add(1);
        }
        self.rescan = true;
    }

    /// Whether the worker pumps a full rescan now (`full_scan_due`: the rescan interval has
    /// passed). A rescan clears the request and the event count.
    pub fn take_rescan(&mut self, full_scan_due: bool) -> (r: bool)
        ensures
            r == (old(self).rescan || full_scan_due),
            !final(self).rescan,
            r ==> final(self).count == 0,
            !r ==> final(self).count == old(self).count,
            final(self).dropped == old(self).dropped,
    {
        let r = self.rescan || full_scan_due;
        self.rescan = false;
        if r {
            self.count = 0;
        }
        r
    }
}

/// Why a worker reports itself degraded.
#[derive(Clone, Copy, Debug, PartialEq, Eq, Structural)]
pub enum DegradedReason {
    TargetInstanceChanged,
    TargetWindowUnavailable,
    UiaPermissionDenied,
    UiaEventQueueOverflow,
    ObservationQueueOverflow,
}

impl DegradedReason {
    /// The reason as it is reported on the wire.
    pub fn as_str(&self) -> (r: &'static str)
        ensures
            r == (match *self {
                DegradedReason::TargetInstanceChanged => "target_instance_changed",
                DegradedReason::TargetWindowUnavailable => "target_window_unavailable",
                DegradedReason::UiaPermissionDenied => "uia_permission_denied",
                DegradedReason::UiaEventQueueOverflow => "uia_event_queue_overflow",
                DegradedReason::ObservationQueueOverflow => "observation_queue_overflow",
            }),
    {
        match self {
            DegradedReason::TargetInstanceChanged => "target_instance_changed",
            DegradedReason::TargetWindowUnavailable => "target_window_unavailable",
            DegradedReason::UiaPermissionDenied => "uia_permission_denied",
            DegradedReason::UiaEventQueueOverflow => "uia_event_queue_overflow",
            DegradedReason::ObservationQueueOverflow => "observation_queue_overflow",
        }
    }
}

/// The health verdict, first failing check first; `None` is healthy.
pub open spec fn health_verdict(same_instance: bool, root_count: nat, permission_denied: bool,
    events_dropped: u64, observations_dropped: u64) -> Option<DegradedReason> {
    if !same_instance {
        Some(DegradedReason::TargetInstanceChanged)
    } else if root_count == 0 {
        Some(DegradedReason::TargetWindowUnavailable)
    } else if permission_denied {
        Some(DegradedReason::UiaPermissionDenied)
    } else if events_dropped > 0 {
        Some(DegradedReason::UiaEventQueueOverflow)
    } else if observations_dropped > 0 {
        Some(DegradedReason::ObservationQueueOverflow)
    } else {
        None
    }
}

pub fn health(same_instance: bool, root_count: usize, permission_denied: bool, events_dropped: u64,
    observations_dropped: u64) -> (r: Option<DegradedReason>)
    ensures
        r == health_verdict(same_instance, root_count as nat, permission_denied, events_dropped, observations_dropped),
{
    if !same_instance {
        Some(DegradedReason::TargetInstanceChanged)
    } else if root_count == 0 {
        Some(DegradedReason::TargetWindowUnavailable)
    } else if permission_denied {
        Some(DegradedReason::UiaPermissionDenied)
    } else if events_dropped > 0 {
        Some(DegradedReason::UiaEventQueueOverflow)
    } else if observations_dropped > 0 {
        Some(DegradedReason::ObservationQueueOverflow)
    } else {
        None
    }
}

/// The number of elements a scan reads from a root that reported `length` of them.
pub fn scan_length(length: i32) -> (r: i32)
    ensures
        r == (if length < 0 { 0 } else if length > MAX_INITIAL_ELEMENTS { MAX_INITIAL_ELEMENTS as int } else { length as int }),
{
    if length < 0 { 0 } else if length > MAX_INITIAL_ELEMENTS { MAX_INITIAL_ELEMENTS } else { length }
}

/// Refusals of the worker protocol.
#[derive(Clone, Copy, Debug, PartialEq, Eq, Structural)]
pub enum WorkerFault {
    AlreadyActive,
    NotActive,
    GenerationNotMonotonic,
}

impl WorkerFault {
    pub fn as_str(&self) -> (r: &'static str)
        ensures
            r == (match *self {
                WorkerFault::AlreadyActive => "worker_already_active",
                WorkerFault::NotActive => "worker_not_active",
                WorkerFault::GenerationNotMonotonic => "generation_not_monotonic",
            }),
    {
        match self {
            WorkerFault::AlreadyActive => "worker_already_active",
            WorkerFault::NotActive => "worker_not_active",
            WorkerFault::GenerationNotMonotonic => "generation_not_monotonic",
        }
    }
}

/// The worker's lifecycle: whether a session and producer run, pause and deactivation,
/// and the generations it was activated with.
#[derive(Clone, Copy, Debug, PartialEq, Eq, Structural)]
pub struct WorkerLifecycle {
    pub session: bool,
    pub producer: bool,
    pub paused: bool,
    pub deactivated: bool,
    pub producer_generation: u64,
    pub publication_generation: u64,
}

pub open spec fn is_active(w: WorkerLifecycle) -> bool {
    w.session && !w.deactivated
}

/// The answer to a generation update and the lifecycle after it.
pub open spec fn generation_update(w: WorkerLifecycle, g: u64) -> (Result<u64, WorkerFault>, WorkerLifecycle) {
    if !is_active(w) {
        (Err(WorkerFault::NotActive), w)
    } else if g <= w.publication_generation {
        (Err(WorkerFault::GenerationNotMonotonic), w)
    } else {
        (Ok(g), WorkerLifecycle { publication_generation: g, ..w })
    }
}

impl WorkerLifecycle {
    pub fn new() -> (r: Self)
        ensures
            !r.session && !r.producer && !r.paused && !r.deactivated,
            r.producer_generation == 0 && r.publication_generation == 0,
    {
        WorkerLifecycle {
            session: false,
            producer: false,
            paused: false,
            deactivated: false,
            producer_generation: 0,
            publication_generation: 0,
        }
    }

    /// Activation is refused while a producer or session exists.
    pub fn check_activation(&self) -> (r: Result<(), WorkerFault>)
        ensures
            r is Ok <==> !self.producer && !self.session,
            r is Err ==> r == Err::<(), WorkerFault>(WorkerFault::AlreadyActive),
    {
        if self.producer || self.session {
            Err(WorkerFault::AlreadyActive)
        } else {
            Ok(())
        }
    }

    /// Records a completed activation.
    pub fn activated(&mut self, producer_generation: u64, publication_generation: u64)
        ensures
            *final(self) == (WorkerLifecycle {
                session: true,
                producer: true,
                paused: false,
                deactivated: false,
                producer_generation,
                publication_generation,
            }),
    {
        *self = WorkerLifecycle {
            session: true,
            producer: true,
            paused: false,
            deactivated: false,
            producer_generation,
            publication_generation,
        };
    }

    pub fn require_active(&self) -> (r: Result<(), WorkerFault>)
        ensures
            r is Ok <==> is_active(*self),
            r is Err ==> r == Err::<(), WorkerFault>(WorkerFault::NotActive),
    {
        if self.session && !self.deactivated {
            Ok(())
        } else {
            Err(WorkerFault::NotActive)
        }
    }

    /// A new publication generation, accepted only when it is later than the current one.
    pub fn update_generation(&mut self, publication_generation: u64) -> (r: Result<u64, WorkerFault>)
        ensures
            (r, *final(self)) == generation_update(*old(self), publication_generation),
    {
        if !(self.session && !self.deactivated) {
            return Err(WorkerFault::NotActive);
        }
        if publication_generation <= self.publication_generation {
            return Err(WorkerFault::GenerationNotMonotonic);
        }
        self.publication_generation = publication_generation;
        Ok(publication_generation)
    }

    /// Pauses or resumes capture; the caller refreshes and pumps on resume.
    pub fn control_capture(&mut self, paused: bool) -> (r: Result<(), WorkerFault>)
        ensures
            is_active(*old(self)) && old(self).producer ==> r is Ok && *final(self) == (WorkerLifecycle { paused, ..*old(self) }),
            !(is_active(*old(self)) && old(self).producer) ==> r == Err::<(), WorkerFault>(WorkerFault::NotActive)
                && *final(self) == *old(self),
    {
        if !(self.session && !self.deactivated) || !self.producer {
            return Err(WorkerFault::NotActive);
        }
        self.paused = paused;
        Ok(())
    }

    /// Whether a query pumps the session first.
    pub fn query_pumps(&self) -> (r: bool)
        ensures
            r == (!self.deactivated && !self.paused),
    {
        !self.deactivated && !self.paused
    }

    /// Deactivation stops the session and answers the producer generation.
    pub fn deactivate(&mut self) -> (r: Result<u64, WorkerFault>)
        ensures
            is_active(*old(self)) && old(self).producer ==> r == Ok::<u64, WorkerFault>(old(self).producer_generation)
                && *final(self) == (WorkerLifecycle { session: false, deactivated: true, ..*old(self) }),
            !(is_active(*old(self)) && old(self).producer) ==> r == Err::<u64, WorkerFault>(WorkerFault::NotActive)
                && *final(self) == *old(self),
    {
        if !(self.session && !self.deactivated) || !self.producer {
            return Err(WorkerFault::NotActive);
        }
        self.session = false;
        self.deactivated = true;
        Ok(self.producer_generation)
    }
}

/// Once a publication generation is accepted, a later update to it or to an earlier one
/// is refused as not monotonic, and leaves the worker as it was.
pub proof fn law_publication_generations_increase(w: WorkerLifecycle, g: u64, h: u64)
    requires
        generation_update(w, g).0 is Ok,
        h <= g,
    ensures
        generation_update(generation_update(w, g).1, h)
            == (Err::<u64, WorkerFault>(WorkerFault::GenerationNotMonotonic), generation_update(w, g).1),
{
}

/// After deactivation nothing is active until a new activation.
pub proof fn law_deactivated_worker_is_inactive(w: WorkerLifecycle)
    ensures
        !is_active(WorkerLifecycle { session: false, deactivated: true, ..w }),
{
}

/// The character of a decimal digit.
pub open spec fn digit_char(d: u64) -> char {
    ((d + 48) as u8) as char
}

/// The decimal digits of `n`.
pub open spec fn decimal_digits(n: u64) -> Seq<char>
    decreases n,
{
    if n < 10 {
        seq![digit_char(n)]
    } else {
        decimal_digits(n / 10).push(digit_char(n % 10))
    }
}

/// `v` written in decimal, with a leading `-` when negative.
pub open spec fn decimal(v: i64) -> Seq<char> {
    if v < 0 {
        seq!['-'] + decimal_digits((-v) as u64)
    } else {
        decimal_digits(v as u64)
    }
}

fn decimal_digit_chars(n: u64) -> (r: Vec<char>)
    ensures
        r@ == decimal_digits(n),
    decreases n,
{
    if n < 10 {
        let mut v: Vec<char> = Vec::new();
        v.push(((n as u8) + 48) as char);
        v
    } else {
        let mut v = decimal_digit_chars(n / 10);
        v.push((((n % 10) as u8) + 48) as char);
        v
    }
}

/// Appends `v` in decimal.
pub fn push_decimal(out: &mut Vec<char>, v: i64)
    ensures
        final(out)@ == old(out)@ + decimal(v),
{
    if v < 0 {
        out.push('-');
        let magnitude: u64 = ((-(v + 1)) as u64) + 1;
        let digits = decimal_digit_chars(magnitude);
        let ghost mid = out@;
        append_all(out, &digits);
        assert(old(out)@ + decimal(v) =~= mid + digits@);
    } else {
        let digits = decimal_digit_chars(v as u64);
        append_all(out, &digits);
    }
}

/// The values of a runtime id joined by `.`.
pub open spec fn joined(values: Seq<i32>) -> Seq<char>
    decreases values.len(),
{
    if values.len() == 0 {
        Seq::empty()
    } else if values.len() == 1 {
        decimal(values[0] as i64)
    } else {
        joined(values.drop_last()) + seq!['.'] + decimal(values.last() as i64)
    }
}

/// The key of an element with a non-empty runtime id: `rid:` and its values.
pub open spec fn runtime_id_key_of(values: Seq<i32>) -> Seq<char> {
    seq!['r', 'i', 'd', ':'] + joined(values)
}

pub fn runtime_id_key(values: &[i32]) -> (r: Option<String>)
    ensures
        match r {
            Some(k) => values@.len() > 0 && k@ == runtime_id_key_of(values@),
            None => values@.len() == 0,
        },
{
    if values.len() == 0 {
        return None;
    }
    let mut out: Vec<char> = Vec::new();
    out.push('r');
    out.push('i');
    out.push('d');
    out.push(':');
    push_decimal(&mut out, values[0] as i64);
    assert(values@.take(1).drop_last() =~= Seq::<i32>::empty());
    assert(out@ =~= seq!['r', 'i', 'd', ':'] + joined(values@.take(1)));
    let mut i: usize = 1;
    while i < values.len()
        invariant
            1 <= i <= values.len(),
            out@ == seq!['r', 'i', 'd', ':'] + joined(values@.take(i as int)),
        decreases values.len() - i,
    {
        out.push('.');
        push_decimal(&mut out, values[i] as i64);
        assert(values@.take(i + 1).drop_last() =~= values@.take(i as int));
        assert(out@ =~= seq!['r', 'i', 'd', ':'] + joined(values@.take(i + 1)));
        i += 1;
    }
    assert(values@.take(values.len() as int) =~= values@);
    Some(string_of(&out))
}

/// The key of an element without a runtime id: its window, control type, automation id and class.
pub open spec fn fallback_key_of(handle: i64, control: i32, automation_id: Seq<char>, class_name: Seq<char>) -> Seq<char> {
    seq!['f', 'a', 'l', 'l', 'b', 'a', 'c', 'k', ':'] + decimal(handle) + seq![':'] + decimal(control as i64)
        + seq![':'] + automation_id + seq![':'] + class_name
}

pub fn fallback_element_key(handle: i64, control: i32, automation_id: &str, class_name: &str) -> (r: String)
    ensures
        r@ == fallback_key_of(handle, control, automation_id@, class_name@),
{
    let mut out: Vec<char> = Vec::new();
    let prefix = chars_of("fallback:");
    append_all(&mut out, &prefix);
    push_decimal(&mut out, handle);
    out.push(':');
    push_decimal(&mut out, control as i64);
    out.push(':');
    let a = chars_of(automation_id);
    append_all(&mut out, &a);
    out.push(':');
    let c = chars_of(class_name);
    append_all(&mut out, &c);
    proof {
        reveal_strlit("fallback:");
    }
    assert(out@ =~= fallback_key_of(handle, control, automation_id@, class_name@));
    string_of(&out)
}

/// The acquisition entry point of the worker where UI Automation is unavailable.
#[derive(Clone, Copy, Debug, PartialEq, Eq, Default)]
pub struct WindowsUiaAcquisitionWorker;

impl WindowsUiaAcquisitionWorker {
    /// Without Windows UI Automation there is nothing to acquire from.
    pub fn acquire(&mut self) -> (r: Result<(), AcquisitionError>)
        ensures
            r == Err::<(), AcquisitionError>(AcquisitionError::ProviderUnavailable),
    {
        Err(AcquisitionError::ProviderUnavailable)
    }
}

} // verus!
