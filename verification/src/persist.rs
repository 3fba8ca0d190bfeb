//! Trailing-edge debounce for background persistence: edits arrive,
//! the worker waits for quiet, then writes the latest state once. A
//! closed channel flushes whatever is still pending.
//!
//! The worker's decisions are a state machine here; the thread, the
//! channel and the file writes are the caller's.

use vstd::prelude::*;

verus! {

/// Quiet period before a pending edit is written, in milliseconds.
pub const DEBOUNCE_MS: u64 = 1500;

/// What the worker should wait for next.
#[derive(Debug, Clone, Copy, PartialEq, Eq, Structural)]
pub enum Wait {
    /// Nothing pending: block until the next edit or disconnect.
    Forever,
    /// An edit is pending: wait at most `DEBOUNCE_MS` for another.
    Debounce,
}

/// What the worker observed.
pub enum DebounceEvent<T> {
    /// A new edit (the latest state to persist).
    Edit(T),
    /// The debounce period passed without an edit.
    Timeout,
    /// The sending side is gone.
    Disconnected,
}

/// What the worker should do in response.
pub enum DebounceAction<T> {
    /// Nothing now; keep waiting.
    Idle,
    /// Write this state to disk and keep waiting.
    Write(T),
    /// Write this state, if any, then stop.
    FlushAndStop(Option<T>),
}

/// The debounce worker's state: the latest edit not yet written.
pub struct Debouncer<T> {
    pending: Option<T>,
}

impl<T> Debouncer<T> {
    /// The edit waiting to be written, if any.
    pub closed spec fn pending_edit(&self) -> Option<T> {
        self.pending
    }

    /// A worker with nothing pending.
    pub fn new() -> (d: Self)
        ensures
            d.pending_edit() is None,
    {
        Debouncer { pending: None }
    }

    /// How to wait next: forever when idle, for the debounce period
    /// when an edit is pending.
    pub fn wait(&self) -> (w: Wait)
        ensures
            w == (if self.pending_edit() is Some {
                Wait::Debounce
            } else {
                Wait::Forever
            }),
    {
        if self.pending.is_some() {
            Wait::Debounce
        } else {
            Wait::Forever
        }
    }

    /// Advances on an event: an edit replaces the pending one; a
    /// timeout writes the pending edit; a disconnect flushes it and
    /// stops.
    pub fn step(&mut self, ev: DebounceEvent<T>) -> (a: DebounceAction<T>)
        ensures
            match ev {
                DebounceEvent::Edit(v) => final(self).pending_edit() == Some(v) && a is Idle,
                DebounceEvent::Timeout => final(self).pending_edit() is None && (match old(
                    self,
                ).pending_edit() {
                    Some(p) => a == DebounceAction::Write(p),
                    None => a is Idle,
                }),
                DebounceEvent::Disconnected => final(self).pending_edit() is None && a
                    == DebounceAction::FlushAndStop(old(self).pending_edit()),
            },
    {
        match ev {
            DebounceEvent::Edit(v) => {
                self.pending = Some(v);
                DebounceAction::Idle
            },
            DebounceEvent::Timeout => {
                match self.pending.take() {
                    Some(p) => DebounceAction::Write(p),
                    None => DebounceAction::Idle,
                }
            },
            DebounceEvent::Disconnected => {
                let p = self.pending.take();
                DebounceAction::FlushAndStop(p)
            },
        }
    }
}

/// The state after a run of events from `pending`, and the states
/// written along the way.
pub open spec fn run_events<T>(pending: Option<T>, evs: Seq<DebounceEvent<T>>) -> (Option<T>, Seq<T>)
    decreases evs.len(),
{
    if evs.len() == 0 {
        (pending, Seq::empty())
    } else {
        let (p, written) = run_events(pending, evs.drop_last());
        match evs.last() {
            DebounceEvent::Edit(v) => (Some(v), written),
            DebounceEvent::Timeout => match p {
                Some(x) => (None, written.push(x)),
                None => (None, written),
            },
            DebounceEvent::Disconnected => match p {
                Some(x) => (None, written.push(x)),
                None => (None, written),
            },
        }
    }
}

/// Law: the last edit is never lost. After any run of events that ends
/// in a disconnect, if the run contained an edit then the last state
/// written is the last edit.
pub proof fn lemma_last_edit_persisted<T>(evs: Seq<DebounceEvent<T>>, i: int, v: T)
    requires
        0 <= i < evs.len() - 1,
        evs[i] == DebounceEvent::Edit(v),
        forall|j: int| i < j < evs.len() ==> !(#[trigger] evs[j] is Edit),
        evs.last() is Disconnected,
    ensures
        run_events(None, evs).1.len() > 0,
        run_events(None, evs).1.last() == v,
    decreases evs.len(),
{
    lemma_last_edit_written_or_pending(evs.drop_last(), i, v);
}

proof fn lemma_last_edit_written_or_pending<T>(evs: Seq<DebounceEvent<T>>, i: int, v: T)
    requires
        0 <= i < evs.len(),
        evs[i] == DebounceEvent::Edit(v),
        forall|j: int| i < j < evs.len() ==> !(#[trigger] evs[j] is Edit),
    ensures
        run_events(None, evs).0 == Some(v) || (run_events(None, evs).0 is None && run_events(
            None,
            evs,
        ).1.len() > 0 && run_events(None, evs).1.last() == v),
    decreases evs.len(),
{
    if i < evs.len() - 1 {
        let init = evs.drop_last();
        assert forall|j: int| i < j < init.len() implies !(#[trigger] init[j] is Edit) by {
            assert(init[j] == evs[j]);
        }
        lemma_last_edit_written_or_pending(init, i, v);
        assert(!(evs[evs.len() - 1] is Edit));
    }
}

} // verus!
