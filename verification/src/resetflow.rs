//! Safety-reset dual confirmation: single-use tokens with a sixty-second
//! lifetime. A reset request mints a token; the confirmation consumes it
//! exactly once, and an expired token confirms nothing.

use vstd::prelude::*;

use crate::maps::IdMap;
use crate::tracker::spec_elapsed;

verus! {

/// How long a minted reset token stays valid.
pub const RESET_TOKEN_TTL_MS: u64 = 60_000;

/// A reset awaiting its confirmation.
pub struct PendingSafetyReset {
    pub created_at_unix_ms: u64,
    pub expires_at_unix_ms: u64,
    pub requested_by: String,
    pub reason: Option<String>,
}

/// The outstanding reset tokens, keyed by token id.
pub struct SafetyResetTokens {
    pub tokens: IdMap<PendingSafetyReset>,
}

impl SafetyResetTokens {
    pub open spec fn wf(self) -> bool {
        self.tokens.wf()
    }

    pub fn new() -> (r: Self)
        ensures
            r.wf(),
            forall|t: u128| r.tokens.spec_get(t) == None::<PendingSafetyReset>,
    {
        SafetyResetTokens { tokens: IdMap::new() }
    }

    /// Mint a token for a reset request. The token expires sixty seconds
    /// after `now`; any binding an earlier request left under the same id
    /// is replaced.
    pub fn request(&mut self, token: u128, requested_by: String, reason: Option<String>, now: u64)
        requires
            old(self).wf(),
            now + RESET_TOKEN_TTL_MS <= u64::MAX,
        ensures
            final(self).wf(),
            forall|t: u128| final(self).tokens.spec_get(t) == if t == token {
                Some(
                    PendingSafetyReset {
                        created_at_unix_ms: now,
                        expires_at_unix_ms: (now + RESET_TOKEN_TTL_MS) as u64,
                        requested_by,
                        reason,
                    },
                )
            } else {
                old(self).tokens.spec_get(t)
            },
    {
        self.tokens.set(
            token,
            PendingSafetyReset {
                created_at_unix_ms: now,
                expires_at_unix_ms: now + RESET_TOKEN_TTL_MS,
                requested_by,
                reason,
            },
        );
    }

    /// Consume a token. A known, unexpired token yields its pending reset
    /// and leaves the table without it — a second confirmation finds
    /// nothing. An unknown or expired token yields nothing; an expired
    /// one is dropped.
    pub fn confirm(&mut self, token: u128, now: u64) -> (r: Option<PendingSafetyReset>)
        requires
            old(self).wf(),
        ensures
            final(self).wf(),
            forall|t: u128| final(self).tokens.spec_get(t) == if t == token {
                None::<PendingSafetyReset>
            } else {
                old(self).tokens.spec_get(t)
            },
            match old(self).tokens.spec_get(token) {
                Some(p) => if now <= p.expires_at_unix_ms {
                    r == Some(p)
                } else {
                    r is None
                },
                None => r is None,
            },
    {
        let idx = self.tokens.index_of(token);
        match idx {
            Some(i) => {
                let (_, p) = self.tokens.remove_at_take(i);
                proof {
                    assert forall|t: u128| true implies self.tokens.spec_get(t) == (if t == token {
                        None::<PendingSafetyReset>
                    } else {
                        old(self).tokens.spec_get(t)
                    }) by {
                        crate::maps::lemma_seq_get_remove(old(self).tokens.entries(), i as int, t);
                    }
                }
                if now <= p.expires_at_unix_ms {
                    Some(p)
                } else {
                    None
                }
            }
            None => None,
        }
    }

    /// Drop every expired token.
    pub fn sweep(&mut self, now: u64)
        requires
            old(self).wf(),
        ensures
            final(self).wf(),
            forall|t: u128| final(self).tokens.spec_get(t) == match old(self).tokens.spec_get(t) {
                Some(p) => if now <= p.expires_at_unix_ms {
                    Some(p)
                } else {
                    None::<PendingSafetyReset>
                },
                None => None::<PendingSafetyReset>,
            },
    {
        let ghost oe = self.tokens.entries();
        let total: usize = self.tokens.len();
        let mut i: usize = 0;
        let mut k: usize = 0;
        let ghost n = oe.len();
        proof {
            assert(oe.take(0) =~= Seq::<(u128, PendingSafetyReset)>::empty());
            assert(self.tokens.entries().skip(0) =~= oe.skip(0));
            assert(oe.skip(0) =~= oe);
        }
        while i < self.tokens.len()
            invariant
                self.tokens.wf(),
                oe == old(self).tokens.entries(),
                crate::maps::keys_unique(oe),
                n == oe.len(),
                n == total,
                k <= n,
                i <= k,
                i <= self.tokens.spec_len(),
                self.tokens.entries().skip(i as int) == oe.skip(k as int),
                self.tokens.spec_len() == n - (k - i),
                forall|t: u128| self.tokens.spec_get(t) == match crate::maps::seq_get(
                    oe.take(k as int),
                    t,
                ) {
                    Some(p) => if now <= p.expires_at_unix_ms {
                        Some(p)
                    } else {
                        None::<PendingSafetyReset>
                    },
                    None => crate::maps::seq_get(oe, t),
                },
            decreases self.tokens.spec_len() - i,
        {
            let ghost cur = self.tokens.entries();
            proof {
                assert(cur.skip(i as int)[0] == cur[i as int]);
                assert(oe.skip(k as int)[0] == oe[k as int]);
                assert(cur[i as int] == oe[k as int]);
                assert forall|j: int| 0 <= j < k implies oe.take(k as int)[j].0 != oe[
                    k as int].0 by {
                    assert(oe.take(k as int)[j] == oe[j]);
                }
                crate::maps::lemma_seq_get_absent(oe.take(k as int), oe[k as int].0, oe[k as int].0);
                crate::maps::lemma_seq_get_found(oe, oe[k as int].0, k as int);
                assert(cur.skip(i as int).drop_first() =~= cur.skip(i + 1));
                assert(oe.skip(k as int).drop_first() =~= oe.skip(k + 1));
                lemma_token_prefix_step(oe, k as int);
            }
            let expired = {
                let p = self.tokens.val_at(i);
                now > p.expires_at_unix_ms
            };
            if expired {
                self.tokens.remove_at(i);
                proof {
                    assert(self.tokens.entries().skip(i as int) =~= oe.skip(k + 1));
                }
            } else {
                i = i + 1;
                proof {
                    assert(self.tokens.entries().skip(i as int) =~= oe.skip(k + 1));
                }
            }
            k = k + 1;
        }
        proof {
            assert(oe.take(n as int) =~= oe);
            assert(k == n) by {
                assert(self.tokens.entries().skip(i as int) =~= oe.skip(k as int));
            }
        }
    }
}

/// Extending the processed prefix by one token: the lookup changes only
/// for that token's id.
pub proof fn lemma_token_prefix_step(oe: Seq<(u128, PendingSafetyReset)>, k: int)
    requires
        0 <= k < oe.len(),
    ensures
        forall|t: u128| #[trigger] crate::maps::seq_get(oe.take(k + 1), t) == match
            crate::maps::seq_get(oe.take(k), t) {
            Some(p) => Some(p),
            None => if oe[k].0 == t {
                Some(oe[k].1)
            } else {
                None::<PendingSafetyReset>
            },
        },
{
    assert(oe.take(k + 1) =~= oe.take(k).push(oe[k]));
    assert forall|t: u128| true implies #[trigger] crate::maps::seq_get(oe.take(k + 1), t) == (
    match crate::maps::seq_get(oe.take(k), t) {
        Some(p) => Some(p),
        None => if oe[k].0 == t {
            Some(oe[k].1)
        } else {
            None::<PendingSafetyReset>
        },
    }) by {
        crate::maps::lemma_seq_get_snoc(oe.take(k), oe[k], t);
    }
}

} // verus!
