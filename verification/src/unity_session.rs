//! The decisions of the native Unity adapter around its host and its observer thread:
//! what a host answer means, how snapshots are accepted, what state a failed write-back
//! leaves, and when activation has its initial snapshot.
use vstd::prelude::*;
use crate::chars::copy_range;
use crate::session_slot::SessionSlot;
use crate::unicode::{decode_utf16, string_of, trim, trim_chars, utf16_decode};

verus! {

/// Capacity, in UTF-16 units, of the buffer a host writes a font family into.
pub const FONT_FAMILY_CAPACITY: usize = 256;

/// A host's answer for one source text, as the adapter uses it.
#[derive(Clone, Debug, PartialEq, Eq)]
pub struct HostDecisionParts {
    pub generation: u64,
    /// The replacement text, when the host decided to replace.
    pub replacement: Option<Vec<u16>>,
    /// The font family to substitute, when the host decided one and it is not blank.
    pub font: Option<String>,
}

/// Whether a source text is asked about at all.
pub open spec fn askable(source_len: nat, max_units: nat) -> bool {
    source_len > 0 && source_len <= max_units
}

pub fn source_is_askable(source: &[u16], max_units: usize) -> (r: bool)
    ensures
        r == askable(source@.len(), max_units as nat),
{
    source.len() > 0 && source.len() <= max_units
}

/// The font family a host wrote: the written units, decoded and trimmed; `None` (no
/// substitution) when blank, and a failed answer when empty, too long or not UTF-16.
pub open spec fn written_family(font_len: u32, font_buf: Seq<u16>) -> Option<Option<Seq<char>>> {
    if font_len == 0 || font_len > font_buf.len() {
        None
    } else {
        match utf16_decode(font_buf.take(font_len as int)) {
            Some(f) => if trim(f).len() == 0 { Some(None) } else { Some(Some(trim(f))) },
            None => None,
        }
    }
}

/// What the adapter takes from a host's answer (`None`: the answer is unusable). `text_buf`
/// and `font_buf` are the buffers as the host left them; their lengths are their capacities.
pub open spec fn decision_parts(status_ok: bool, replace_decided: bool, font_decided: bool, text_len: u32,
    font_len: u32, text_buf: Seq<u16>, font_buf: Seq<u16>) -> Option<(Option<Seq<u16>>, Option<Seq<char>>)> {
    if !status_ok {
        None
    } else if replace_decided && text_len > text_buf.len() {
        None
    } else if font_decided && written_family(font_len, font_buf) is None {
        None
    } else {
        Some((
            if replace_decided { Some(text_buf.take(text_len as int)) } else { None },
            if font_decided { written_family(font_len, font_buf)->0 } else { None },
        ))
    }
}

pub fn host_decision(status_ok: bool, replace_decided: bool, font_decided: bool, generation: u64, text_len: u32,
    font_len: u32, text_buf: &[u16], font_buf: &[u16]) -> (r: Option<HostDecisionParts>)
    ensures
        match r {
            Some(d) => decision_parts(status_ok, replace_decided, font_decided, text_len, font_len, text_buf@, font_buf@)
                == Some((match d.replacement { Some(v) => Some(v@), None => None },
                    match d.font { Some(f) => Some(f@), None => None }))
                && d.generation == generation,
            None => decision_parts(status_ok, replace_decided, font_decided, text_len, font_len, text_buf@, font_buf@) is None,
        },
{
    if !status_ok {
        return None;
    }
    let replacement = if replace_decided {
        if text_len as usize > text_buf.len() {
            return None;
        }
        let v = copy_range(text_buf, 0, text_len as usize);
        assert(v@ =~= text_buf@.take(text_len as int));
        Some(v)
    } else {
        None
    };
    let font = if font_decided {
        if font_len == 0 || font_len as usize > font_buf.len() {
            return None;
        }
        let units = copy_range(font_buf, 0, font_len as usize);
        assert(units@ =~= font_buf@.take(font_len as int));
        match decode_utf16(&units) {
            Some(chars) => {
                let t = trim_chars(&chars);
                if t.len() == 0 {
                    None
                } else {
                    Some(string_of(&t))
                }
            },
            None => return None,
        }
    } else {
        None
    };
    Some(HostDecisionParts { generation, replacement, font })
}

/// How far the first snapshot of a session got.
#[derive(Clone, Copy, Debug, PartialEq, Eq, Structural)]
pub enum SnapshotStatus {
    Idle,
    Complete,
    Failed,
}

/// What an activation waiting for the first snapshot does next.
#[derive(Clone, Copy, Debug, PartialEq, Eq, Structural)]
pub enum InitialWait {
    Ready,
    Failed,
    Wait,
}

pub fn initial_snapshot_step(status: SnapshotStatus, time_left: bool) -> (r: InitialWait)
    ensures
        status == SnapshotStatus::Complete ==> r == InitialWait::Ready,
        status == SnapshotStatus::Failed ==> r == InitialWait::Failed,
        status == SnapshotStatus::Idle ==> r == (if time_left { InitialWait::Wait } else { InitialWait::Failed }),
{
    match status {
        SnapshotStatus::Complete => InitialWait::Ready,
        SnapshotStatus::Failed => InitialWait::Failed,
        SnapshotStatus::Idle => if time_left { InitialWait::Wait } else { InitialWait::Failed },
    }
}

/// The status after a collection pass. `collected` is `None` when the pass produced no
/// transaction result, else whether a stop was requested during it; `writeback_ok` is
/// whether the write-back (if any was needed) succeeded.
pub open spec fn status_after(status: SnapshotStatus, collected: Option<bool>, writeback_ok: bool) -> SnapshotStatus {
    match collected {
        Some(true) => status,
        Some(false) => if writeback_ok {
            SnapshotStatus::Complete
        } else if status == SnapshotStatus::Idle {
            SnapshotStatus::Failed
        } else {
            status
        },
        None => if status == SnapshotStatus::Idle { SnapshotStatus::Failed } else { status },
    }
}

pub fn status_after_collection(status: SnapshotStatus, collected: Option<bool>, writeback_ok: bool) -> (r: SnapshotStatus)
    ensures
        r == status_after(status, collected, writeback_ok),
{
    match collected {
        Some(true) => status,
        Some(false) => if writeback_ok {
            SnapshotStatus::Complete
        } else if status == SnapshotStatus::Idle {
            SnapshotStatus::Failed
        } else {
            status
        },
        None => if status == SnapshotStatus::Idle { SnapshotStatus::Failed } else { status },
    }
}

/// Whether an observer pass asks the main thread to pump write-back. After a collection
/// (`collected_stop` holds whether a stop was requested during it) that no stop interrupted,
/// it does when a mutating feature is active; after a pass that collected nothing, when a
/// refresh was requested. An adapter that is no longer active pumps nothing.
pub fn pass_pumps_writeback(active: bool, collected_stop: Option<bool>, mutating: bool, refresh_requested: bool) -> (r: bool)
    ensures
        r == (active && match collected_stop {
            Some(stop) => !stop && mutating,
            None => refresh_requested,
        }),
{
    if !active {
        return false;
    }
    match collected_stop {
        Some(stop) => !stop && mutating,
        None => refresh_requested,
    }
}

/// The snapshot status after an observer pass: unchanged when the adapter is no longer
/// active; otherwise as `status_after`, the write-back counting as done when no mutating
/// feature is active or the pump it asked for (`pump_ok`) succeeded.
pub fn status_after_pass(status: SnapshotStatus, active: bool, collected_stop: Option<bool>, mutating: bool, pump_ok: bool) -> (r: SnapshotStatus)
    ensures
        r == if active { status_after(status, collected_stop, !mutating || pump_ok) } else { status },
{
    if !active {
        return status;
    }
    status_after_collection(status, collected_stop, !mutating || pump_ok)
}

/// A stop requested during collection never completes or fails the session.
pub proof fn law_stopped_collection_keeps_status(status: SnapshotStatus, writeback_ok: bool)
    ensures
        status_after(status, Some(true), writeback_ok) == status,
{
}

/// Once the first snapshot completed, a later failing pass does not undo it.
pub proof fn law_completed_session_stays_complete(collected: Option<bool>)
    ensures
        status_after(SnapshotStatus::Complete, collected, false) == SnapshotStatus::Complete,
{
}

/// How a snapshot reaches the observer: the first one attaches, later ones refresh.
#[derive(Clone, Copy, Debug, PartialEq, Eq, Structural)]
pub enum SnapshotEvent {
    Attach,
    Refresh,
}

/// The event for a snapshot of `snapshot_len` texts; an empty first snapshot is refused.
pub fn snapshot_event(initial_taken: bool, snapshot_len: usize) -> (r: Option<SnapshotEvent>)
    ensures
        initial_taken ==> r == Some(SnapshotEvent::Refresh),
        !initial_taken ==> r == (if snapshot_len == 0 { None } else { Some(SnapshotEvent::Attach) }),
{
    if initial_taken {
        Some(SnapshotEvent::Refresh)
    } else if snapshot_len == 0 {
        None
    } else {
        Some(SnapshotEvent::Attach)
    }
}

/// Whether the observations of a snapshot are accepted: a first snapshot that yields
/// none exposes no usable text and fails; an empty refresh is ordinary de-duplication.
pub fn snapshot_observations_accepted(event: SnapshotEvent, observations_len: usize) -> (r: bool)
    ensures
        r == !(event == SnapshotEvent::Attach && observations_len == 0),
{
    !(event == SnapshotEvent::Attach && observations_len == 0)
}

/// The write-back state a session keeps after a pass.
#[derive(Clone, Copy, Debug, PartialEq, Eq, Structural)]
pub enum WritebackAdoption {
    /// The new state was written: adopt it.
    Applied,
    /// The write failed but everything was restored: adopt the restored state.
    Restored,
    /// The write and the restore failed: keep the failed state and restore everything at stop.
    RestoreAllAtStop,
}

/// The adoption, and the session's `(writeback_started, force_restore_all)` after it.
pub open spec fn adoption(text_applied: bool, fonts_restored: bool, texts_restored: bool) -> (WritebackAdoption, bool, bool) {
    if text_applied {
        (WritebackAdoption::Applied, true, false)
    } else if fonts_restored && texts_restored {
        (WritebackAdoption::Restored, false, false)
    } else {
        (WritebackAdoption::RestoreAllAtStop, true, true)
    }
}

pub fn writeback_outcome(text_applied: bool, fonts_restored: bool, texts_restored: bool) -> (r: (WritebackAdoption, bool, bool))
    ensures
        r == adoption(text_applied, fonts_restored, texts_restored),
{
    if text_applied {
        (WritebackAdoption::Applied, true, false)
    } else if fonts_restored && texts_restored {
        (WritebackAdoption::Restored, false, false)
    } else {
        (WritebackAdoption::RestoreAllAtStop, true, true)
    }
}

/// Whether stopping must first restore the host's objects on its main thread.
pub fn needs_restore(mutating: bool, force_restore_all: bool, has_applied_replacements: bool, has_font_substitutions: bool) -> (r: bool)
    ensures
        r == (mutating && (force_restore_all || has_applied_replacements || has_font_substitutions)),
{
    mutating && (force_restore_all || has_applied_replacements || has_font_substitutions)
}

/// Clears the slot for a stop: takes the session out unless a transaction holds it, in
/// which case the stop is only recorded.
pub fn take_for_clear<S>(slot: &mut SessionSlot<S>) -> (r: Option<S>)
    ensures
        old(slot).in_flight ==> r is None && final(slot).deactivate_requested && final(slot).in_flight
            && final(slot).deactivating == old(slot).deactivating && final(slot).session == old(slot).session,
        !old(slot).in_flight ==> r == old(slot).session && final(slot).session is None && !final(slot).deactivating
            && !final(slot).deactivate_requested && !final(slot).in_flight,
{
    if slot.in_flight {
        slot.deactivate_requested = true;
        return None;
    }
    slot.deactivating = false;
    slot.deactivate_requested = false;
    let mut taken: Option<S> = None;
    std::mem::swap(&mut taken, &mut slot.session);
    taken
}

} // verus!
