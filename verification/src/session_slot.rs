//! The lifecycle gate of a native adapter session: at most one transaction holds the
//! session at a time, and a deactivation requested during a transaction is deferred,
//! recorded, and can be retried once the transaction has finished.
use vstd::prelude::*;

verus! {

pub struct SessionSlot<S> {
    pub session: Option<S>,
    pub in_flight: bool,
    pub deactivating: bool,
    pub deactivate_requested: bool,
}

/// The slot's flags, with whether a session is held.
pub struct SlotModel {
    pub has_session: bool,
    pub in_flight: bool,
    pub deactivating: bool,
    pub deactivate_requested: bool,
}

impl<S> SessionSlot<S> {
    pub open spec fn model(&self) -> SlotModel {
        SlotModel {
            has_session: self.session is Some,
            in_flight: self.in_flight,
            deactivating: self.deactivating,
            deactivate_requested: self.deactivate_requested,
        }
    }

    pub fn new() -> (r: Self)
        ensures
            r.session is None && !r.in_flight && !r.deactivating && !r.deactivate_requested,
    {
        SessionSlot { session: None, in_flight: false, deactivating: false, deactivate_requested: false }
    }

    /// Installs a new session, only into an idle, empty slot; a refused session is handed back.
    pub fn install_session(&mut self, session: S) -> (r: Result<(), S>)
        ensures
            (!old(self).in_flight && !old(self).deactivating && old(self).session is None) ==> {
                &&& r is Ok
                &&& final(self).session == Some(session)
                &&& !final(self).deactivate_requested
                &&& final(self).in_flight == old(self).in_flight
                &&& final(self).deactivating == old(self).deactivating
            },
            !(!old(self).in_flight && !old(self).deactivating && old(self).session is None) ==> {
                &&& r == Err::<(), S>(session)
                &&& *final(self) == *old(self)
            },
    {
        if self.in_flight || self.deactivating || self.session.is_some() {
            return Err(session);
        }
        self.deactivate_requested = false;
        self.session = Some(session);
        Ok(())
    }

    /// Takes the session for a transaction, unless one is running or the adapter is
    /// deactivating.
    pub fn begin_session_transaction(&mut self) -> (r: Option<S>)
        ensures
            (!old(self).in_flight && !old(self).deactivating && old(self).session is Some) ==> {
                &&& r == old(self).session
                &&& final(self).session is None
                &&& final(self).in_flight
                &&& final(self).deactivating == old(self).deactivating
                &&& final(self).deactivate_requested == old(self).deactivate_requested
            },
            !(!old(self).in_flight && !old(self).deactivating && old(self).session is Some) ==> {
                &&& r is None
                &&& *final(self) == *old(self)
            },
    {
        if self.in_flight || self.deactivating || self.session.is_none() {
            return None;
        }
        let mut taken: Option<S> = None;
        std::mem::swap(&mut taken, &mut self.session);
        self.in_flight = true;
        taken
    }

    /// Takes the session for the deactivation transaction, once deactivation has begun.
    pub fn begin_deactivation_transaction(&mut self) -> (r: Option<S>)
        ensures
            (!old(self).in_flight && old(self).deactivating && old(self).session is Some) ==> {
                &&& r == old(self).session
                &&& final(self).session is None
                &&& final(self).in_flight
                &&& final(self).deactivating
                &&& final(self).deactivate_requested == old(self).deactivate_requested
            },
            !(!old(self).in_flight && old(self).deactivating && old(self).session is Some) ==> {
                &&& r is None
                &&& *final(self) == *old(self)
            },
    {
        if self.in_flight || !self.deactivating || self.session.is_none() {
            return None;
        }
        let mut taken: Option<S> = None;
        std::mem::swap(&mut taken, &mut self.session);
        self.in_flight = true;
        taken
    }

    /// Ends a transaction, putting its session back unless another was installed meanwhile.
    pub fn finish_session_transaction(&mut self, session: Option<S>)
        ensures
            !final(self).in_flight,
            !final(self).deactivate_requested,
            final(self).deactivating == old(self).deactivating,
            final(self).session == (if old(self).session is None { session } else { old(self).session }),
    {
        self.in_flight = false;
        self.deactivate_requested = false;
        if self.session.is_none() {
            self.session = session;
        }
    }

    pub fn cancel_deactivation(&mut self)
        ensures
            !final(self).deactivating,
            !final(self).deactivate_requested,
            final(self).in_flight == old(self).in_flight,
            final(self).session == old(self).session,
    {
        self.deactivating = false;
        self.deactivate_requested = false;
    }

    /// Starts deactivation; during a transaction the request is only recorded.
    pub fn try_begin_deactivation(&mut self) -> (r: bool)
        ensures
            old(self).in_flight ==> !r && final(self).deactivate_requested
                && final(self).in_flight && final(self).deactivating == old(self).deactivating
                && final(self).session == old(self).session,
            !old(self).in_flight && old(self).deactivating ==> !r && *final(self) == *old(self),
            !old(self).in_flight && !old(self).deactivating ==> r && final(self).deactivating
                && !final(self).in_flight && final(self).deactivate_requested == old(self).deactivate_requested
                && final(self).session == old(self).session,
    {
        if self.in_flight {
            self.deactivate_requested = true;
            return false;
        }
        if self.deactivating {
            return false;
        }
        self.deactivating = true;
        true
    }

    /// Whether a deactivation was requested during the running transaction.
    pub fn deactivate_requested(&self) -> (r: bool)
        ensures
            r == self.deactivate_requested,
    {
        self.deactivate_requested
    }
}

/// The slot's step on `try_begin_deactivation`.
pub open spec fn deactivation_step(m: SlotModel) -> (bool, SlotModel) {
    if m.in_flight {
        (false, SlotModel { deactivate_requested: true, ..m })
    } else if m.deactivating {
        (false, m)
    } else {
        (true, SlotModel { deactivating: true, ..m })
    }
}

/// The slot's step on finishing a transaction that hands `returned` back.
pub open spec fn finish_step(m: SlotModel, returned: bool) -> SlotModel {
    SlotModel { in_flight: false, deactivate_requested: false, has_session: m.has_session || returned, ..m }
}

/// A deactivation asked for during a transaction does not start, is remembered, and
/// starts when asked again after the transaction finished.
pub proof fn law_deferred_deactivation_is_retryable(m: SlotModel, returned: bool)
    requires
        m.in_flight,
        !m.deactivating,
    ensures
        !deactivation_step(m).0,
        deactivation_step(m).1.deactivate_requested,
        deactivation_step(finish_step(deactivation_step(m).1, returned)).0,
{
}

/// Deactivation cannot be started twice.
pub proof fn law_no_overlapping_deactivation(m: SlotModel)
    requires
        !m.in_flight,
        !m.deactivating,
    ensures
        deactivation_step(m).0,
        !deactivation_step(deactivation_step(m).1).0,
        deactivation_step(deactivation_step(m).1).1.deactivating,
{
}

} // verus!
