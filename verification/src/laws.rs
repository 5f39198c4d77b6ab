//! The general guarantees of the ledger, each stated over the
//! well-formedness that pool creation establishes and every operation
//! preserves — so each holds in every reachable state.

use vstd::prelude::*;
use crate::state::{ClaimRecord, RevenueLedger, RevenuePool, claimable_now, claimed_of,
    per_pass_share, valid_pass};
use crate::lemmas::{lemma_claimed_of_push, lemma_claimed_of_update, lemma_sum_claimed_bounded,
    lemma_sum_claimed_constant, lemma_sum_claimed_delta, lemma_total_entitlement_bounded};

verus! {

/// The distributed total never exceeds the collected total.  An emergency
/// withdrawal drains only the pool's balance, never the counters, so this
/// holds in every reachable state — it is the pool's *balance* that an
/// emergency withdrawal can push below the undistributed remainder.
pub proof fn lemma_distributed_never_exceeds_collected(ledger: RevenueLedger)
    requires
        ledger.wf(),
    ensures
        ledger.pool.total_revenue_distributed <= ledger.pool.total_revenue_collected,
{
}

/// Entitlement ceiling: no pass's cumulative claimed total ever exceeds
/// the current per-pass share.
pub proof fn lemma_claimed_within_share(ledger: RevenueLedger, pass: int)
    requires
        ledger.wf(),
    ensures
        claimed_of(ledger.records@, pass) <= per_pass_share(ledger.pool),
{
}

/// Claiming twice in a row for the same pass with no deposit in between
/// pays once and then finds nothing: a successful claim leaves the pass's
/// claimed total at the full per-pass share, so its claimable amount is
/// zero afterwards, and `claim_revenue`'s contract then forces the second
/// call to return `NothingToClaim`.
pub proof fn lemma_second_claim_finds_nothing(ledger: RevenueLedger, pass: int)
    requires
        ledger.wf(),
        claimed_of(ledger.records@, pass) == per_pass_share(ledger.pool),
    ensures
        claimable_now(ledger, pass) == 0,
{
}

/// Depositing more revenue never lowers the per-pass share.
pub proof fn lemma_share_never_falls_on_deposit(pre: RevenuePool, post: RevenuePool)
    requires
        1 <= pre.total_passes,
        post.total_passes == pre.total_passes,
        post.total_revenue_collected >= pre.total_revenue_collected,
    ensures
        per_pass_share(post) >= per_pass_share(pre),
{
    vstd::arithmetic::div_mod::lemma_div_is_ordered(
        pre.total_revenue_collected as int,
        post.total_revenue_collected as int,
        pre.total_passes as int,
    );
}

/// Hence no pass's claimable amount ever falls when a deposit is the only
/// change: the records are untouched, and the share can only grow.
pub proof fn lemma_claimable_never_falls_on_deposit(
    pre: RevenueLedger,
    post: RevenueLedger,
    pass: int,
)
    requires
        1 <= pre.pool.total_passes,
        post.pool.total_passes == pre.pool.total_passes,
        post.pool.total_revenue_collected >= pre.pool.total_revenue_collected,
        post.records@ == pre.records@,
    ensures
        claimable_now(post, pass) >= claimable_now(pre, pass),
{
    lemma_share_never_falls_on_deposit(pre.pool, post.pool);
}

/// The dust is never paid out: the distributed total stays at or below
/// the collected total minus the remainder of the share division, so
/// while that remainder is positive, distributed revenue cannot reach
/// collected revenue.
pub proof fn lemma_dust_never_distributed(ledger: RevenueLedger)
    requires
        ledger.wf(),
    ensures
        ledger.pool.total_revenue_distributed as int <= ledger.pool.total_revenue_collected as int
            - (ledger.pool.total_revenue_collected as int % ledger.pool.total_passes as int),
{
    let n = ledger.pool.total_passes as int;
    lemma_sum_claimed_bounded(ledger.records@, n, per_pass_share(ledger.pool));
    lemma_total_entitlement_bounded(ledger.pool);
}

/// Once every pass has claimed in full, the distributed total equals the
/// collected total minus exactly the dust: nothing more can ever be paid
/// out until the next deposit.
pub proof fn lemma_fully_claimed_leaves_exactly_the_dust(ledger: RevenueLedger)
    requires
        ledger.wf(),
        forall|p: int|
            valid_pass(ledger.pool, p) ==> #[trigger] claimed_of(ledger.records@, p)
                == per_pass_share(ledger.pool),
    ensures
        ledger.pool.total_revenue_distributed as int == ledger.pool.total_revenue_collected as int
            - (ledger.pool.total_revenue_collected as int % ledger.pool.total_passes as int),
{
    let n = ledger.pool.total_passes as int;
    lemma_sum_claimed_constant(ledger.records@, n, per_pass_share(ledger.pool));
    lemma_total_entitlement_bounded(ledger.pool);
}

/// While the pool's balance still equals the undistributed remainder —
/// that is, no emergency withdrawal has drained it — every pass's
/// claimable amount is funded, so a claim can never fail for lack of
/// funds.
pub proof fn lemma_full_balance_funds_every_claim(ledger: RevenueLedger, pass: int)
    requires
        ledger.wf(),
        valid_pass(ledger.pool, pass),
        ledger.balance as int == ledger.pool.total_revenue_collected as int
            - ledger.pool.total_revenue_distributed as int,
    ensures
        claimable_now(ledger, pass) <= ledger.balance as int,
{
    let s = ledger.records@;
    let n = ledger.pool.total_passes as int;
    let share = per_pass_share(ledger.pool);
    lemma_total_entitlement_bounded(ledger.pool);
    if claimable_now(ledger, pass) > 0 {
        // Compare against the records as they would stand after paying
        // this pass in full: the prefix-sum delta is exactly the
        // claimable amount, and the total entitlement still bounds the
        // new sum.
        let r = ClaimRecord {
            pass_number: pass as u16,
            holder: ledger.pool.authority,
            total_claimed: share as u64,
            last_claim_timestamp: 0,
        };
        let t = if exists|i: int| 0 <= i < s.len() && (#[trigger] s[i]).pass_number as int
            == pass {
            let i = choose|i: int| 0 <= i < s.len() && (#[trigger] s[i]).pass_number as int
                == pass;
            s.update(i, r)
        } else {
            s.push(r)
        };
        assert(share <= ledger.pool.total_revenue_collected as int) by {
            vstd::arithmetic::div_mod::lemma_div_is_ordered_by_denominator(
                ledger.pool.total_revenue_collected as int,
                1,
                n,
            );
            vstd::arithmetic::div_mod::lemma_div_basics_2(
                ledger.pool.total_revenue_collected as int,
            );
        }
        assert forall|q: int| #[trigger] claimed_of(t, q) == (if q == pass {
            share
        } else {
            claimed_of(s, q)
        }) by {
            if exists|i: int| 0 <= i < s.len() && (#[trigger] s[i]).pass_number as int == pass {
                let i = choose|i: int| 0 <= i < s.len() && (#[trigger] s[i]).pass_number as int
                    == pass;
                lemma_claimed_of_update(s, i, r, q);
            } else {
                lemma_claimed_of_push(s, r, q);
            }
        }
        lemma_sum_claimed_delta(s, t, pass, n);
        lemma_sum_claimed_bounded(t, n, share);
    }
}

} // verus!
