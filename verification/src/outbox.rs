//! Sending the outbox: one pass hands out the entries that may be sent, one
//! at a time in sequence order, and records what the server answered for
//! each. The pass stops at the first failure. The sending itself is done by
//! the caller, between `next_outbox_entry` and `record_send`.

use vstd::prelude::*;
use vstd::string::*;
use crate::error::{AppError, ErrorView, error_text, retryable_error};
use crate::model::{ClientSnapshot, SaveAnswerResult, SyncSummary};
use crate::session::{ClientCore, answers_current, with_state, unchanged};
use crate::store::{
    OutboxEntry, OutboxEntryView, acknowledged, count_status, entry_of, failed,
    marked_in_flight, min_len, sendable,
};
use crate::text::opt_text;

verus! {

/// One pass over the outbox.
pub struct FlushRun {
    attempted: u64,
    synced: u64,
    last_error: Option<String>,
    started: bool,
    done: bool,
    current: Option<OutboxEntry>,
    refusal: Option<AppError>,
}

/// A pass over the outbox: how many entries were handed out and how many the
/// server stored, the last failure, whether the pass went past the
/// connection check, whether it is over, the entry being sent, and the
/// store's refusal that ended the pass, if one did.
pub struct FlushRunView {
    pub attempted: u64,
    pub synced: u64,
    pub last_error: Option<Seq<char>>,
    pub started: bool,
    pub done: bool,
    pub current: Option<OutboxEntryView>,
    pub refusal: Option<ErrorView>,
}

impl View for FlushRun {
    type V = FlushRunView;

    closed spec fn view(&self) -> FlushRunView {
        FlushRunView {
            attempted: self.attempted,
            synced: self.synced,
            last_error: opt_text(self.last_error),
            started: self.started,
            done: self.done,
            current: match self.current {
                Some(e) => Some(e@),
                None => None,
            },
            refusal: match self.refusal {
                Some(e) => Some(e@),
                None => None,
            },
        }
    }
}

impl FlushRun {
    /// Every entry handed out was stored by the server, except at most one:
    /// the one being sent, the one whose failure ended the pass, or the one
    /// whose outcome the store refused.
    #[verifier::type_invariant]
    closed spec fn counted(&self) -> bool {
        &&& self.synced <= self.attempted <= self.synced + 1
        &&& self.current is Some ==> self.attempted == self.synced + 1 && !self.done && self.last_error is None
            && self.refusal is None
        &&& self.attempted == self.synced + 1 && self.current is None ==> self.done && (self.last_error is Some
            || self.refusal is Some)
        &&& self.last_error is Some ==> self.attempted == self.synced + 1 && self.refusal is None
        &&& self.refusal is Some ==> self.attempted == self.synced + 1
    }

    /// Whether an entry was handed out and its outcome not yet recorded.
    pub fn sending(&self) -> (b: bool)
        ensures
            b == self@.current is Some,
    {
        self.current.is_some()
    }

    /// The number of entries handed out so far.
    pub fn attempted(&self) -> (n: u64)
        ensures
            n == self@.attempted,
    {
        self.attempted
    }

    /// Whether the pass is over.
    pub fn is_done(&self) -> (b: bool)
        ensures
            b == self@.done,
    {
        self.done
    }
}

/// The snapshot after the server stored a revision: its revision is the
/// highest seen, and no error is shown.
pub open spec fn after_ack(s: ClientSnapshot, server_revision: u64) -> ClientSnapshot {
    ClientSnapshot {
        server_revision: if s.server_revision >= server_revision {
            s.server_revision
        } else {
            server_revision
        },
        last_error: None,
        ..s
    }
}

impl ClientCore {
    /// Starts a pass over the outbox. Without a connection or a token the
    /// pass is over before it starts, and sends nothing.
    pub fn begin_flush(&self) -> (run: FlushRun)
        ensures
            run@.started == (self.snapshot.websocket_connected && self.access_token is Some),
            run@.done == !run@.started,
            run@.attempted == 0,
            run@.synced == 0,
            run@.last_error is None,
            run@.current is None,
            run@.refusal is None,
    {
        let started = self.snapshot.websocket_connected && self.access_token.is_some();
        FlushRun { attempted: 0, synced: 0, last_error: None, started, done: !started, current: None, refusal: None }
    }

    /// The next entry to send, if the pass goes on: the first entry that may
    /// be sent now. It is marked in flight and counted. When no entry may be
    /// sent, the pass is over. An entry handed out is recorded
    /// (`record_send`) before the next one is handed out.
    pub fn next_outbox_entry(&mut self, run: &mut FlushRun) -> (entry: Option<OutboxEntry>)
        requires
            old(self).db.wf(),
            old(run)@.attempted < u64::MAX,
        ensures
            final(self).db.wf(),
            final(self).config == old(self).config,
            final(self).snapshot == old(self).snapshot,
            final(self).access_token == old(self).access_token,
            final(self).answers@ == old(self).answers@,
            final(run)@.started == old(run)@.started,
            final(run)@.synced == old(run)@.synced,
            final(run)@.last_error == old(run)@.last_error,
            old(run)@.done || old(run)@.current is Some ==> entry is None && final(self).db@ == old(self).db@
                && final(run)@ == old(run)@,
            !old(run)@.done && old(run)@.current is None && sendable(old(self).db@.outbox).len() == 0 ==> {
                &&& entry is None
                &&& final(self).db@ == old(self).db@
                &&& final(run)@ == FlushRunView { done: true, current: None, ..old(run)@ }
            },
            !old(run)@.done && old(run)@.current is None && sendable(old(self).db@.outbox).len() > 0 ==> {
                let first = entry_of(sendable(old(self).db@.outbox)[0]);
                &&& entry matches Some(e) && e@ == first
                &&& final(self).db@ == marked_in_flight(old(self).db@, first.sequence)
                &&& final(run)@ == FlushRunView {
                    attempted: (old(run)@.attempted + 1) as u64,
                    current: Some(first),
                    ..old(run)@
                }
            },
    {
        proof {
            use_type_invariant(&*run);
        }
        if run.done || run.current.is_some() {
            return None;
        }
        let mut entries = self.db.pending_outbox(1);
        proof {
            let all = sendable(self.db@.outbox);
            if all.len() > 0 {
                assert(entries@.map_values(|e: OutboxEntry| e@)[0] == entry_of(all[0]));
            }
            assert(entries@.map_values(|e: OutboxEntry| e@).len() == entries@.len());
            assert(entries@.len() == all.take(min_len(1, all.len())).len());
        }
        match entries.pop() {
            None => {
                run.done = true;
                run.current = None;
                None
            },
            Some(entry) => {
                self.db.mark_outbox_in_flight(entry.sequence);
                *run = FlushRun {
                    attempted: run.attempted + 1,
                    synced: run.synced,
                    last_error: None,
                    started: run.started,
                    done: false,
                    current: Some(entry.clone()),
                    refusal: None,
                };
                Some(entry)
            },
        }
    }

    /// Records what sending the entry handed out last gave. Stored by the
    /// server: the entry leaves the outbox, the answer takes the server
    /// revision, the snapshot the highest revision seen. Failed: the entry
    /// and the answer record the failure (the entry stays pending when the
    /// failure is retryable), the snapshot shows it, and the pass is over.
    /// When the store refuses the change, nothing changes but the run: the
    /// pass is over, and `finish_flush` returns the store's error. With no
    /// entry handed out, nothing changes.
    pub fn record_send(&mut self, run: &mut FlushRun, outcome: Result<SaveAnswerResult, AppError>)
        requires
            old(self).db.wf(),
        ensures
            final(self).db.wf(),
            final(self).config == old(self).config,
            final(self).access_token == old(self).access_token,
            final(self).answers@ == old(self).answers@,
            match old(run)@.current {
                None => unchanged(*old(self), *final(self)) && final(run)@ == old(run)@,
                Some(entry) => match outcome {
                    Ok(response) => match acknowledged(old(self).db@, entry, response.server_revision) {
                        Ok(w) => {
                            &&& final(self).db@ == w
                            &&& final(self).snapshot == after_ack(old(self).snapshot, response.server_revision)
                            &&& final(run)@ == FlushRunView {
                                synced: (old(run)@.synced + 1) as u64,
                                current: None,
                                ..old(run)@
                            }
                        },
                        Err(x) => {
                            &&& unchanged(*old(self), *final(self))
                            &&& final(run)@ == FlushRunView { done: true, current: None, refusal: Some(x), ..old(run)@ }
                        },
                    },
                    Err(e) => match failed(old(self).db@, entry, error_text(e@), retryable_error(e@)) {
                        Ok(w) => {
                            &&& final(self).db@ == w
                            &&& final(self).snapshot == (ClientSnapshot {
                                last_error: final(self).snapshot.last_error,
                                ..old(self).snapshot
                            })
                            &&& opt_text(final(self).snapshot.last_error) == Some(error_text(e@))
                            &&& final(run)@ == FlushRunView {
                                last_error: Some(error_text(e@)),
                                done: true,
                                current: None,
                                ..old(run)@
                            }
                        },
                        Err(x) => {
                            &&& unchanged(*old(self), *final(self))
                            &&& final(run)@ == FlushRunView { done: true, current: None, refusal: Some(x), ..old(run)@ }
                        },
                    },
                },
            },
    {
        proof {
            use_type_invariant(&*run);
        }
        let entry = match &run.current {
            None => {
                return;
            },
            Some(e) => e.clone(),
        };
        let attempted = run.attempted;
        let synced = run.synced;
        let started = run.started;
        match outcome {
            Ok(response) => {
                match self.db.acknowledge_outbox(&entry, &response) {
                    Err(e) => {
                        *run = FlushRun {
                            attempted,
                            synced,
                            last_error: None,
                            started,
                            done: true,
                            current: None,
                            refusal: Some(e),
                        };
                        return;
                    },
                    Ok(()) => {},
                }
                if response.server_revision > self.snapshot.server_revision {
                    self.snapshot.server_revision = response.server_revision;
                }
                self.snapshot.last_error = None;
                *run = FlushRun {
                    attempted,
                    synced: synced + 1,
                    last_error: None,
                    started,
                    done: false,
                    current: None,
                    refusal: None,
                };
            },
            Err(error) => {
                let retryable = error.is_retryable();
                let message = error.message();
                match self.db.fail_outbox(&entry, message.as_str(), retryable) {
                    Err(e) => {
                        *run = FlushRun {
                            attempted,
                            synced,
                            last_error: None,
                            started,
                            done: true,
                            current: None,
                            refusal: Some(e),
                        };
                        return;
                    },
                    Ok(()) => {},
                }
                self.snapshot.last_error = Some(message.clone());
                *run = FlushRun {
                    attempted,
                    synced,
                    last_error: Some(message),
                    started,
                    done: true,
                    current: None,
                    refusal: None,
                };
            },
        }
    }

    /// Ends a pass over the outbox; the entry handed out last has been
    /// recorded. A pass that the store's refusal ended returns that error,
    /// with nothing changed. Otherwise a pass that started reloads the
    /// answers and stores the state, and the counts of the pass and of the
    /// outbox as it is left are reported: every entry handed out was stored,
    /// except the one whose failure, reported as the last error, ended the
    /// pass.
    pub fn finish_flush(&mut self, run: FlushRun) -> (r: Result<SyncSummary, AppError>)
        requires
            old(self).db.wf(),
            run@.current is None,
        ensures
            final(self).db.wf(),
            final(self).config == old(self).config,
            final(self).snapshot == old(self).snapshot,
            final(self).access_token == old(self).access_token,
            match run@.refusal {
                Some(x) => r matches Err(e) && e@ == x && unchanged(*old(self), *final(self)),
                None => r matches Ok(summary) && {
                    &&& run@.started ==> answers_current(*final(self)) && final(self).db@ == with_state(
                        old(self).db@,
                        old(self).config,
                        old(self).snapshot,
                    )
                    &&& !run@.started ==> unchanged(*old(self), *final(self))
                    &&& summary.attempted == run@.attempted
                    &&& summary.synced == run@.synced
                    &&& summary.attempted == summary.synced + (if summary.last_error is Some {
                        1int
                    } else {
                        0int
                    })
                    &&& opt_text(summary.last_error) == run@.last_error
                    &&& summary.pending == count_status(final(self).db@.outbox, false)
                    &&& summary.errors == count_status(final(self).db@.outbox, true)
                },
            },
    {
        proof {
            use_type_invariant(&run);
        }
        if let Some(e) = run.refusal {
            return Err(e);
        }
        if run.started {
            self.reload_answers();
            self.persist();
        }
        let (pending, errors) = self.db.outbox_counts();
        Ok(SyncSummary { attempted: run.attempted, synced: run.synced, pending, errors, last_error: run.last_error })
    }
}

} // verus!
