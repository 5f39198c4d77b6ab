//! The data model: the singleton pool ledger, the per-pass claim records,
//! and the spec-level view of how collected revenue is apportioned.

use vstd::prelude::*;

verus! {

/// Identity of a participant: a depositor, a pass holder, or the pool's
/// authority.  Only equality of identities matters to the engine.
#[derive(Clone, Copy, PartialEq, Eq, Structural, Debug)]
pub struct AccountId {
    pub key: u64,
}

/// The failure kinds an operation can report.  Every failure aborts the
/// whole operation and leaves the ledger exactly as it was.
#[derive(Clone, Copy, PartialEq, Eq, Structural, Debug)]
pub enum ErrorCode {
    /// Deposit or claim attempted while the pool is paused.
    PoolNotActive,
    /// A pass number outside `1..=total_passes`.
    InvalidPassNumber,
    /// The pass's entitlement has already been claimed in full.
    NothingToClaim,
    /// An administrative operation by someone other than the authority.
    Unauthorized,
    /// The pool's balance is smaller than the amount to be moved out.
    InsufficientFunds,
    /// Pool creation attempted when a pool already exists (reported by the
    /// host that owns the storage slot, never by the engine itself).
    AlreadyExists,
}

/// The singleton pool: who administers it, how many passes share the
/// revenue, and the two monotone accounting counters.
#[derive(Clone, Copy, PartialEq, Eq, Structural, Debug)]
pub struct RevenuePool {
    /// Identity permitted to pause the pool and withdraw in an emergency.
    /// Immutable after creation.
    pub authority: AccountId,
    /// Number of equally-weighted claim slots; positive and fixed at creation.
    pub total_passes: u16,
    /// Everything ever deposited.  Increased only by a deposit.
    pub total_revenue_collected: u64,
    /// Everything ever paid out to passes.  Increased only by a claim.
    pub total_revenue_distributed: u64,
    /// When false, deposits and claims are rejected.
    pub is_active: bool,
}

/// Per-pass cumulative claim tracker, created lazily on a pass's first
/// successful claim.  It tracks the pass, not a fixed owner: the holder is
/// overwritten by every successful claim.
#[derive(Clone, Copy, PartialEq, Eq, Structural, Debug)]
pub struct ClaimRecord {
    /// Which of the `total_passes` slots this record tracks; in
    /// `1..=total_passes`, set on creation.
    pub pass_number: u16,
    /// Identity that made the most recent successful claim for this pass.
    pub holder: AccountId,
    /// Everything ever paid out against this pass.  Monotone.
    pub total_claimed: u64,
    /// Wall-clock time of the most recent successful claim, as the host
    /// reported it.
    pub last_claim_timestamp: i64,
}

/// The whole engine state: the pool's counters, the claim records created
/// so far, and the pool's spendable balance.
///
/// The balance mirrors the funds the host actually holds for the pool: a
/// deposit moves funds in, a claim or an emergency withdrawal moves funds
/// out.  Emergency withdrawals lower the balance without touching the
/// counters, which is why the balance can fall below the undistributed
/// remainder `total_revenue_collected - total_revenue_distributed`.
pub struct RevenueLedger {
    pub pool: RevenuePool,
    pub records: Vec<ClaimRecord>,
    pub balance: u64,
}

/// The share each pass is entitled to so far: the floor of collected
/// revenue over the pass count.  The remainder of that division is
/// permanent dust that no pass can ever claim.
pub open spec fn per_pass_share(pool: RevenuePool) -> int {
    pool.total_revenue_collected as int / pool.total_passes as int
}

/// What pass `pass` has claimed so far: the tracked total of its record,
/// or zero while no record for it exists.
pub open spec fn claimed_of(records: Seq<ClaimRecord>, pass: int) -> int
    decreases records.len(),
{
    if records.len() == 0 {
        0
    } else if records.last().pass_number as int == pass {
        records.last().total_claimed as int
    } else {
        claimed_of(records.drop_last(), pass)
    }
}

/// Sum of the claimed totals of passes `1..=k`.
pub open spec fn sum_claimed(records: Seq<ClaimRecord>, k: int) -> int
    decreases k,
{
    if k <= 0 {
        0
    } else {
        sum_claimed(records, k - 1) + claimed_of(records, k)
    }
}

/// Pass numbers a claim may name: `1..=total_passes`.
pub open spec fn valid_pass(pool: RevenuePool, pass: int) -> bool {
    1 <= pass <= pool.total_passes as int
}

/// No two records track the same pass.
pub open spec fn distinct_passes(records: Seq<ClaimRecord>) -> bool {
    forall|i: int, j: int|
        0 <= i < j < records.len() ==> (#[trigger] records[i]).pass_number != (
        #[trigger] records[j]).pass_number
}

/// What pass `pass` could be paid right now: the current per-pass share
/// minus what the pass has already claimed, never negative.
pub open spec fn claimable_now(ledger: RevenueLedger, pass: int) -> int {
    let share = per_pass_share(ledger.pool);
    let claimed = claimed_of(ledger.records@, pass);
    if share >= claimed {
        share - claimed
    } else {
        0
    }
}

impl RevenueLedger {
    /// Well-formedness: established by pool creation and preserved by every
    /// operation, so it holds in every reachable state.
    pub open spec fn wf(self) -> bool {
        &&& 1 <= self.pool.total_passes
        &&& distinct_passes(self.records@)
        &&& forall|i: int|
            0 <= i < self.records@.len() ==> valid_pass(
                self.pool,
                (#[trigger] self.records@[i]).pass_number as int,
            )
        &&& forall|p: int| #[trigger] claimed_of(self.records@, p) <= per_pass_share(self.pool)
        &&& sum_claimed(self.records@, self.pool.total_passes as int)
            == self.pool.total_revenue_distributed as int
        &&& self.pool.total_revenue_distributed <= self.pool.total_revenue_collected
        &&& self.balance as int <= self.pool.total_revenue_collected as int
            - self.pool.total_revenue_distributed as int
    }
}

} // verus!
