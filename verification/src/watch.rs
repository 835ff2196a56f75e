//! The decision core of the watch loop.
//!
//! The loop around it is event-driven: a file-change notifier hands in
//! events, and this state decides which of them trigger a regeneration.
//! Only modify events count, and a modify event within the quiescence
//! window after the last accepted event is dropped. The caller performs
//! the settle delay, the reload and the rebuild, and feeds every event
//! through [`Debouncer::on_event`] with its arrival time.

use vstd::prelude::*;

verus! {

/// The quiescence window in milliseconds: a modify event closer than this
/// to the last accepted event is dropped.
pub const DEBOUNCE_WINDOW_MS: u64 = 100;

/// The debounce state: the arrival time of the last accepted event (or of
/// the initial generation pass).
pub struct Debouncer {
    pub last_accepted_ms: u64,
}

/// Whether an event is accepted: it must be a modify event, arriving no
/// earlier than one full quiescence window after the last accepted event.
pub open spec fn spec_accepts(st: Debouncer, is_modify: bool, now_ms: u64) -> bool {
    is_modify && now_ms >= st.last_accepted_ms + DEBOUNCE_WINDOW_MS
}

impl Debouncer {
    /// A fresh state, as of the first successful generation pass.
    pub fn new(now_ms: u64) -> (r: Debouncer)
        ensures
            r.last_accepted_ms == now_ms,
    {
        Debouncer { last_accepted_ms: now_ms }
    }

    /// Decides one event: returns whether it triggers a regeneration, and
    /// on acceptance records its arrival time as the new reference point.
    pub fn on_event(&mut self, is_modify: bool, now_ms: u64) -> (accepted: bool)
        ensures
            accepted == spec_accepts(*old(self), is_modify, now_ms),
            accepted ==> final (self).last_accepted_ms == now_ms,
            !accepted ==> *final (self) == *old(self),
    {
        let accepted = is_modify && now_ms >= self.last_accepted_ms && now_ms
            - self.last_accepted_ms >= DEBOUNCE_WINDOW_MS;
        if accepted {
            self.last_accepted_ms = now_ms;
        }
        accepted
    }
}

/// Debouncing, stated over two consecutive modify events: after one is
/// accepted at `t1`, a second at `t2` is dropped exactly when it falls
/// inside the quiescence window, and accepted exactly when it does not —
/// so two events fifty milliseconds apart trigger one regeneration, and
/// two events two hundred milliseconds apart trigger two. An event that is
/// no modify event never triggers one.
pub proof fn lemma_debounce(st0: Debouncer, t1: u64, t2: u64)
    requires
        spec_accepts(st0, true, t1),
        t2 >= t1,
    ensures
        t2 < t1 + DEBOUNCE_WINDOW_MS ==> !spec_accepts(
            (Debouncer { last_accepted_ms: t1 }),
            true,
            t2,
        ),
        t2 >= t1 + DEBOUNCE_WINDOW_MS ==> spec_accepts(
            (Debouncer { last_accepted_ms: t1 }),
            true,
            t2,
        ),
        !spec_accepts((Debouncer { last_accepted_ms: t1 }), false, t2),
{
}

} // verus!
