//! The five operations of the engine.
//!
//! Each operation is all-or-nothing: on any failure it returns the error
//! and leaves the ledger exactly as it was.  The host that embeds the
//! engine is expected to move real funds in step with the ledger's
//! balance: in on a successful deposit, out on a successful claim or
//! emergency withdrawal.

use vstd::prelude::*;
use crate::state::{AccountId, ClaimRecord, ErrorCode, RevenueLedger, RevenuePool, claimable_now,
    claimed_of, per_pass_share, valid_pass};
use crate::lemmas::{lemma_claimed_of_absent, lemma_claimed_of_found, lemma_claimed_of_push,
    lemma_claimed_of_update, lemma_sum_claimed_bounded, lemma_sum_claimed_delta,
    lemma_sum_claimed_constant, lemma_total_entitlement_bounded};

verus! {

/// The capability check for administrative operations: only the identity
/// recorded at pool creation may pause the pool or withdraw in an
/// emergency.
pub fn is_authority(caller: AccountId, pool: &RevenuePool) -> (r: bool)
    ensures
        r == (caller == pool.authority),
{
    caller == pool.authority
}

/// Index of the record tracking `pass_number`, if one exists yet.
fn find_record_index(records: &Vec<ClaimRecord>, pass_number: u16) -> (r: Option<usize>)
    ensures
        match r {
            Some(i) => i < records@.len() && records@[i as int].pass_number == pass_number,
            None => forall|j: int|
                0 <= j < records@.len() ==> (#[trigger] records@[j]).pass_number != pass_number,
        },
{
    let mut i: usize = 0;
    while i < records.len()
        invariant
            i <= records@.len(),
            forall|j: int| 0 <= j < i ==> (#[trigger] records@[j]).pass_number != pass_number,
        decreases records@.len() - i,
    {
        if records[i].pass_number == pass_number {
            return Some(i);
        }
        i += 1;
    }
    None
}

impl RevenueLedger {
    /// Create the singleton pool: empty counters, active, administered by
    /// the caller.  A zero pass count is rejected outright rather than
    /// deferred to the first claim's share division.  That the pool is
    /// created at most once is the host's uniqueness guarantee, not the
    /// engine's.
    pub fn initialize_pool(authority: AccountId, total_passes: u16) -> (r: Result<
        RevenueLedger,
        ErrorCode,
    >)
        ensures
            r is Ok <==> total_passes >= 1,
            r matches Err(e) ==> e == ErrorCode::InvalidPassNumber,
            r matches Ok(ledger) ==> {
                &&& ledger.wf()
                &&& ledger.pool == (RevenuePool {
                    authority,
                    total_passes,
                    total_revenue_collected: 0,
                    total_revenue_distributed: 0,
                    is_active: true,
                })
                &&& ledger.records@ == Seq::<ClaimRecord>::empty()
                &&& ledger.balance == 0
            },
    {
        if total_passes == 0 {
            return Err(ErrorCode::InvalidPassNumber);
        }
        let ledger = RevenueLedger {
            pool: RevenuePool {
                authority,
                total_passes,
                total_revenue_collected: 0,
                total_revenue_distributed: 0,
                is_active: true,
            },
            records: Vec::new(),
            balance: 0,
        };
        proof {
            vstd::arithmetic::div_mod::lemma_div_pos_is_pos(0, total_passes as int);
            assert forall|p: int| #[trigger] claimed_of(ledger.records@, p) == 0 by {
                lemma_claimed_of_absent(ledger.records@, p);
            }
            lemma_sum_claimed_constant(ledger.records@, total_passes as int, 0);
            assert(ledger.records@ =~= Seq::<ClaimRecord>::empty());
        }
        Ok(ledger)
    }

    /// Record a deposit: the amount moves into the pool's balance and the
    /// collected counter rises by the same amount, atomically.  Anyone may
    /// deposit, but not while the pool is paused.  Overflow of the
    /// collected counter is fatal for the host's transaction, so the host
    /// must abort such a deposit before it reaches the ledger.
    pub fn deposit_revenue(&mut self, amount: u64) -> (r: Result<(), ErrorCode>)
        requires
            old(self).wf(),
            old(self).pool.total_revenue_collected + amount <= u64::MAX,
        ensures
            final(self).wf(),
            r is Ok <==> old(self).pool.is_active,
            r matches Err(e) ==> e == ErrorCode::PoolNotActive && *final(self) == *old(self),
            r is Ok ==> {
                &&& final(self).pool == (RevenuePool {
                    total_revenue_collected: (old(self).pool.total_revenue_collected
                        + amount) as u64,
                    ..old(self).pool
                })
                &&& final(self).records@ == old(self).records@
                &&& final(self).balance == old(self).balance + amount
            },
    {
        if !self.pool.is_active {
            return Err(ErrorCode::PoolNotActive);
        }
        let ghost pre = *self;
        self.pool.total_revenue_collected = self.pool.total_revenue_collected + amount;
        self.balance = self.balance + amount;
        proof {
            vstd::arithmetic::div_mod::lemma_div_is_ordered(
                pre.pool.total_revenue_collected as int,
                self.pool.total_revenue_collected as int,
                self.pool.total_passes as int,
            );
        }
        Ok(())
    }

    /// Pay `pass_number` its outstanding entitlement: the current per-pass
    /// share minus everything this pass has already claimed.  On success
    /// the delta moves out of the pool's balance to the caller, the pass's
    /// record (created on its first claim) carries the full share with the
    /// caller as holder and `now` as claim time, and the distributed
    /// counter rises by the amount paid.
    ///
    /// Any caller may claim for any pass number and is paid themselves:
    /// the engine never checks the caller against a previous holder of
    /// the pass — a known access-control gap in this design, kept
    /// deliberately rather than silently closed.
    pub fn claim_revenue(&mut self, caller: AccountId, pass_number: u16, now: i64) -> (r: Result<
        u64,
        ErrorCode,
    >)
        requires
            old(self).wf(),
        ensures
            final(self).wf(),
            final(self).pool.authority == old(self).pool.authority,
            final(self).pool.total_passes == old(self).pool.total_passes,
            final(self).pool.is_active == old(self).pool.is_active,
            final(self).pool.total_revenue_collected == old(self).pool.total_revenue_collected,
            r is Ok <==> (old(self).pool.is_active && valid_pass(old(self).pool, pass_number as int)
                && claimable_now(*old(self), pass_number as int) > 0
                && claimable_now(*old(self), pass_number as int) <= old(self).balance),
            r == Err::<u64, ErrorCode>(ErrorCode::PoolNotActive) <==> !old(self).pool.is_active,
            r == Err::<u64, ErrorCode>(ErrorCode::InvalidPassNumber) <==> (old(self).pool.is_active && !valid_pass(
                old(self).pool,
                pass_number as int,
            )),
            r == Err::<u64, ErrorCode>(ErrorCode::NothingToClaim) <==> (old(self).pool.is_active && valid_pass(
                old(self).pool,
                pass_number as int,
            ) && claimable_now(*old(self), pass_number as int) == 0),
            r == Err::<u64, ErrorCode>(ErrorCode::InsufficientFunds) <==> (old(self).pool.is_active && valid_pass(
                old(self).pool,
                pass_number as int,
            ) && claimable_now(*old(self), pass_number as int) > 0 && claimable_now(
                *old(self),
                pass_number as int,
            ) > old(self).balance),
            r is Err ==> *final(self) == *old(self),
            r matches Ok(paid) ==> {
                &&& paid == claimable_now(*old(self), pass_number as int)
                &&& final(self).pool.total_revenue_distributed == old(
                    self,
                ).pool.total_revenue_distributed + paid
                &&& final(self).balance == old(self).balance - paid
                &&& claimed_of(final(self).records@, pass_number as int) == per_pass_share(
                    old(self).pool,
                )
                &&& forall|q: int|
                    q != pass_number as int ==> #[trigger] claimed_of(final(self).records@, q)
                        == claimed_of(old(self).records@, q)
                &&& exists|i: int|
                    0 <= i < final(self).records@.len() && final(self).records@[i] == (ClaimRecord {
                        pass_number,
                        holder: caller,
                        total_claimed: per_pass_share(old(self).pool) as u64,
                        last_claim_timestamp: now,
                    })
            },
    {
        if !self.pool.is_active {
            return Err(ErrorCode::PoolNotActive);
        }
        if pass_number == 0 || pass_number > self.pool.total_passes {
            return Err(ErrorCode::InvalidPassNumber);
        }
        let ghost pre = *self;
        let share: u64 = self.pool.total_revenue_collected / (self.pool.total_passes as u64);
        let idx_opt = find_record_index(&self.records, pass_number);
        let already_claimed: u64 = match idx_opt {
            Some(i) => self.records[i].total_claimed,
            None => 0,
        };
        proof {
            match idx_opt {
                Some(i) => lemma_claimed_of_found(pre.records@, i as int),
                None => lemma_claimed_of_absent(pre.records@, pass_number as int),
            }
            assert(already_claimed as int == claimed_of(pre.records@, pass_number as int));
            assert(share as int == per_pass_share(pre.pool));
        }
        let claimable: u64 = share.saturating_sub(already_claimed);
        if claimable == 0 {
            return Err(ErrorCode::NothingToClaim);
        }
        if claimable > self.balance {
            return Err(ErrorCode::InsufficientFunds);
        }
        let new_total: u64 = already_claimed + claimable;
        let ghost new_rec = ClaimRecord {
            pass_number,
            holder: caller,
            total_claimed: new_total,
            last_claim_timestamp: now,
        };
        match idx_opt {
            Some(i) => {
                let rec = &mut self.records[i];
                rec.pass_number = pass_number;
                rec.holder = caller;
                rec.total_claimed = new_total;
                rec.last_claim_timestamp = now;
            }
            None => {
                self.records.push(
                    ClaimRecord {
                        pass_number,
                        holder: caller,
                        total_claimed: new_total,
                        last_claim_timestamp: now,
                    },
                );
            }
        }
        proof {
            let s_old = pre.records@;
            let s_new = self.records@;
            let p = pass_number as int;
            let n = pre.pool.total_passes as int;
            let share_spec = per_pass_share(pre.pool);
            assert(new_total as int == share_spec);
            assert forall|q: int| #[trigger] claimed_of(s_new, q) == (if q == p {
                new_total as int
            } else {
                claimed_of(s_old, q)
            }) by {
                match idx_opt {
                    Some(i) => {
                        assert(s_new == s_old.update(i as int, new_rec));
                        lemma_claimed_of_update(s_old, i as int, new_rec, q);
                    },
                    None => {
                        assert(s_new == s_old.push(new_rec));
                        lemma_claimed_of_push(s_old, new_rec, q);
                    },
                }
            }
            assert forall|a: int, b: int|
                0 <= a < b < s_new.len() implies (#[trigger] s_new[a]).pass_number != (
            #[trigger] s_new[b]).pass_number by {
                match idx_opt {
                    Some(i) => {
                        assert(s_new == s_old.update(i as int, new_rec));
                        assert(s_old[i as int].pass_number == pass_number);
                    },
                    None => {
                        assert(s_new == s_old.push(new_rec));
                        if b < s_old.len() {
                            assert(s_new[a] == s_old[a] && s_new[b] == s_old[b]);
                        } else {
                            assert(s_new[a] == s_old[a]);
                        }
                    },
                }
            }
            lemma_sum_claimed_delta(s_old, s_new, p, n);
            assert forall|q: int| 1 <= q <= n implies #[trigger] claimed_of(s_new, q)
                <= share_spec by {}
            lemma_sum_claimed_bounded(s_new, n, share_spec);
            lemma_total_entitlement_bounded(pre.pool);
            assert(pre.pool.total_revenue_distributed + claimable
                <= pre.pool.total_revenue_collected);
            match idx_opt {
                Some(i) => assert(s_new[i as int] == new_rec),
                None => assert(s_new[s_old.len() as int] == new_rec),
            }
        }
        self.pool.total_revenue_distributed = self.pool.total_revenue_distributed + claimable;
        self.balance = self.balance - claimable;
        Ok(claimable)
    }

    /// Pause or unpause the pool.  Authority only; a pure flag flip that
    /// never touches the accounting counters or the balance.
    pub fn set_pool_status(&mut self, caller: AccountId, is_active: bool) -> (r: Result<
        (),
        ErrorCode,
    >)
        requires
            old(self).wf(),
        ensures
            final(self).wf(),
            r is Ok <==> caller == old(self).pool.authority,
            r matches Err(e) ==> e == ErrorCode::Unauthorized && *final(self) == *old(self),
            r is Ok ==> {
                &&& final(self).pool == (RevenuePool { is_active, ..old(self).pool })
                &&& final(self).records@ == old(self).records@
                &&& final(self).balance == old(self).balance
            },
    {
        if !is_authority(caller, &self.pool) {
            return Err(ErrorCode::Unauthorized);
        }
        self.pool.is_active = is_active;
        Ok(())
    }

    /// Move funds straight out of the pool's balance to the authority,
    /// deliberately touching neither counter.  A documented escape hatch:
    /// afterwards the balance can sit below the undistributed remainder,
    /// so arithmetically legitimate claims may fail for lack of funds.
    pub fn emergency_withdraw(&mut self, caller: AccountId, amount: u64) -> (r: Result<
        (),
        ErrorCode,
    >)
        requires
            old(self).wf(),
        ensures
            final(self).wf(),
            r is Ok <==> (caller == old(self).pool.authority && amount <= old(self).balance),
            r == Err::<(), ErrorCode>(ErrorCode::Unauthorized) <==> caller != old(self).pool.authority,
            r == Err::<(), ErrorCode>(ErrorCode::InsufficientFunds) <==> (caller == old(self).pool.authority
                && amount > old(self).balance),
            r is Err ==> *final(self) == *old(self),
            r is Ok ==> {
                &&& final(self).pool == old(self).pool
                &&& final(self).records@ == old(self).records@
                &&& final(self).balance == old(self).balance - amount
            },
    {
        if !is_authority(caller, &self.pool) {
            return Err(ErrorCode::Unauthorized);
        }
        if amount > self.balance {
            return Err(ErrorCode::InsufficientFunds);
        }
        self.balance = self.balance - amount;
        Ok(())
    }

    /// What a claim for `pass_number` would pay right now: the current
    /// per-pass share minus what the pass has already claimed, never
    /// negative.  A read-only query for hosts that must check the pool's
    /// funds before committing a claim.
    pub fn claimable_amount(&self, pass_number: u16) -> (r: u64)
        requires
            self.wf(),
        ensures
            r == claimable_now(*self, pass_number as int),
    {
        let share: u64 = self.pool.total_revenue_collected / (self.pool.total_passes as u64);
        let already_claimed: u64 = match find_record_index(&self.records, pass_number) {
            Some(i) => {
                proof {
                    lemma_claimed_of_found(self.records@, i as int);
                }
                self.records[i].total_claimed
            },
            None => {
                proof {
                    lemma_claimed_of_absent(self.records@, pass_number as int);
                }
                0
            },
        };
        share.saturating_sub(already_claimed)
    }
}

} // verus!
