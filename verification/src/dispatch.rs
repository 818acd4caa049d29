//! Pending-command records and control-plane idempotency tracking.
//!
//! The tracker holds two maps keyed by correlation id: inflight requests
//! (to the command id serving them) and recently completed requests (to
//! their completion instant, swept by a ten-minute TTL). An operator
//! retrying a request never doubles a physical action while either map
//! remembers the correlation id.

use vstd::prelude::*;

use crate::maps::{lemma_seq_get_snoc, IdMap};
use crate::protocol::CommandEnvelope;
use crate::tracker::spec_elapsed;

verus! {

/// How long a completed correlation id still deduplicates requests.
pub const RECENT_TTL_MS: u64 = 600_000;

/// A published command awaiting its terminal outcome.
pub struct PendingCommand {
    pub device_id: String,
    pub cmd: CommandEnvelope,
    pub published_at_unix_ms: u64,
    pub last_update_unix_ms: u64,
    pub retries_left: u32,
    pub ack_timeout_ms: u64,
    pub complete_timeout_ms: u64,
    pub accepted: bool,
    pub accepted_at_unix_ms: Option<u64>,
    pub completed: bool,
    pub rejected: bool,
    pub reason_code: Option<String>,
}

/// Correlation-id bookkeeping for control-plane idempotency.
pub struct DispatchTracker {
    pub inflight: IdMap<u128>,
    pub recent: IdMap<u64>,
}

impl DispatchTracker {
    pub open spec fn wf(self) -> bool {
        self.inflight.wf() && self.recent.wf()
    }

    pub fn new() -> (r: Self)
        ensures
            r.wf(),
            forall|corr: u128| r.inflight.spec_get(corr) == None::<u128>,
            forall|corr: u128| r.recent.spec_get(corr) == None::<u64>,
    {
        DispatchTracker { inflight: IdMap::new(), recent: IdMap::new() }
    }

    pub fn track_inflight(&mut self, correlation_id: u128, command_id: u128)
        requires
            old(self).wf(),
        ensures
            final(self).wf(),
            final(self).recent == old(self).recent,
            forall|corr: u128| final(self).inflight.spec_get(corr) == if corr == correlation_id {
                Some(command_id)
            } else {
                old(self).inflight.spec_get(corr)
            },
    {
        self.inflight.set(correlation_id, command_id);
    }

    pub fn inflight_command_id(&self, correlation_id: u128) -> (r: Option<u128>)
        ensures
            r == self.inflight.spec_get(correlation_id),
    {
        match self.inflight.get(correlation_id) {
            Some(cid) => Some(*cid),
            None => None,
        }
    }

    /// Remove the inflight binding and remember the completion instant.
    pub fn mark_done(&mut self, correlation_id: u128, now: u64)
        requires
            old(self).wf(),
        ensures
            final(self).wf(),
            forall|corr: u128| final(self).inflight.spec_get(corr) == if corr == correlation_id {
                None::<u128>
            } else {
                old(self).inflight.spec_get(corr)
            },
            forall|corr: u128| final(self).recent.spec_get(corr) == if corr == correlation_id {
                Some(now)
            } else {
                old(self).recent.spec_get(corr)
            },
    {
        self.inflight.remove(correlation_id);
        self.recent.set(correlation_id, now);
    }

    /// Whether this correlation id completed within the TTL.
    pub fn is_recent(&self, correlation_id: u128, now: u64, ttl_ms: u64) -> (r: bool)
        ensures
            r == match self.recent.spec_get(correlation_id) {
                Some(t) => spec_elapsed(now, t) <= ttl_ms,
                None => false,
            },
    {
        match self.recent.get(correlation_id) {
            Some(t) => {
                let elapsed: u64 = if now >= *t {
                    now - *t
                } else {
                    0
                };
                elapsed <= ttl_ms
            }
            None => false,
        }
    }

    /// Drop recently-completed entries older than the TTL.
    pub fn sweep_recent(&mut self, now: u64, ttl_ms: u64)
        requires
            old(self).wf(),
        ensures
            final(self).wf(),
            final(self).inflight == old(self).inflight,
            forall|corr: u128| final(self).recent.spec_get(corr) == match old(
                self,
            ).recent.spec_get(corr) {
                Some(t) => if spec_elapsed(now, t) <= ttl_ms {
                    Some(t)
                } else {
                    None::<u64>
                },
                None => None::<u64>,
            },
    {
        let mut kept: IdMap<u64> = IdMap::new();
        let n: usize = self.recent.len();
        let mut i: usize = 0;
        proof {
            assert(self.recent.entries().take(0) =~= Seq::<(u128, u64)>::empty());
        }
        while i < n
            invariant
                i <= n,
                n == self.recent.entries().len(),
                self.recent.wf(),
                kept.wf(),
                forall|corr: u128| kept.spec_get(corr) == match crate::maps::seq_get(
                    self.recent.entries().take(i as int),
                    corr,
                ) {
                    Some(t) => if spec_elapsed(now, t) <= ttl_ms {
                        Some(t)
                    } else {
                        None::<u64>
                    },
                    None => None::<u64>,
                },
            decreases n - i,
        {
            let corr = self.recent.key_at(i);
            let t = *self.recent.val_at(i);
            let ghost entries = self.recent.entries();
            let elapsed: u64 = if now >= t {
                now - t
            } else {
                0
            };
            if elapsed <= ttl_ms {
                kept.set(corr, t);
            }
            proof {
                assert(entries.take(i + 1) =~= entries.take(i as int).push(entries[i as int]));
                assert forall|c2: u128| true implies kept.spec_get(c2) == (match
                    crate::maps::seq_get(entries.take(i + 1), c2) {
                    Some(tt) => if spec_elapsed(now, tt) <= ttl_ms {
                        Some(tt)
                    } else {
                        None::<u64>
                    },
                    None => None::<u64>,
                }) by {
                    lemma_seq_get_snoc(entries.take(i as int), entries[i as int], c2);
                    if c2 == entries[i as int].0 {
                        if crate::maps::seq_get(entries.take(i as int), c2) is Some {
                            crate::maps::lemma_seq_get_some_position(
                                entries.take(i as int),
                                c2,
                            );
                        }
                    }
                }
            }
            i = i + 1;
        }
        proof {
            assert(self.recent.entries().take(n as int) =~= self.recent.entries());
        }
        self.recent = kept;
    }
}

} // verus!
