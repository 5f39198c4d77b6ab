//! Lemmas about the claimed-per-pass view and its prefix sums, and the
//! arithmetic of the per-pass share.

use vstd::prelude::*;
use crate::state::{ClaimRecord, RevenuePool, claimed_of, sum_claimed, distinct_passes,
    per_pass_share};

verus! {

/// A pass with no record has claimed nothing.
pub proof fn lemma_claimed_of_absent(records: Seq<ClaimRecord>, pass: int)
    requires
        forall|i: int|
            0 <= i < records.len() ==> (#[trigger] records[i]).pass_number as int != pass,
    ensures
        claimed_of(records, pass) == 0,
    decreases records.len(),
{
    if records.len() > 0 {
        assert(records.last() == records[records.len() - 1]);
        assert forall|i: int|
            0 <= i < records.drop_last().len() implies (#[trigger] records.drop_last()[i]).pass_number
            as int != pass by {
            assert(records.drop_last()[i] == records[i]);
        }
        lemma_claimed_of_absent(records.drop_last(), pass);
    }
}

/// Dropping the last record keeps pass numbers distinct.
pub proof fn lemma_distinct_drop_last(records: Seq<ClaimRecord>)
    requires
        distinct_passes(records),
        records.len() > 0,
    ensures
        distinct_passes(records.drop_last()),
{
    assert forall|i: int, j: int|
        0 <= i < j < records.drop_last().len() implies (#[trigger] records.drop_last()[i]).pass_number
        != (#[trigger] records.drop_last()[j]).pass_number by {
        assert(records.drop_last()[i] == records[i]);
        assert(records.drop_last()[j] == records[j]);
    }
}

/// When pass numbers are distinct, the record at an index determines the
/// claimed total of its pass.
pub proof fn lemma_claimed_of_found(records: Seq<ClaimRecord>, i: int)
    requires
        distinct_passes(records),
        0 <= i < records.len(),
    ensures
        claimed_of(records, records[i].pass_number as int) == records[i].total_claimed as int,
    decreases records.len(),
{
    if i < records.len() - 1 {
        assert(records.last() == records[records.len() - 1]);
        lemma_distinct_drop_last(records);
        assert(records.drop_last()[i] == records[i]);
        lemma_claimed_of_found(records.drop_last(), i);
    }
}

/// How replacing the record at an index (keeping its pass) changes each
/// pass's claimed total: the replaced pass takes the new value, every
/// other pass is untouched.
pub proof fn lemma_claimed_of_update(records: Seq<ClaimRecord>, i: int, r: ClaimRecord, pass: int)
    requires
        0 <= i < records.len(),
        r.pass_number == records[i].pass_number,
        distinct_passes(records),
    ensures
        claimed_of(records.update(i, r), pass) == if pass == r.pass_number as int {
            r.total_claimed as int
        } else {
            claimed_of(records, pass)
        },
    decreases records.len(),
{
    let s2 = records.update(i, r);
    assert(records.last() == records[records.len() - 1]);
    if i == records.len() - 1 {
        assert(s2.last() == r);
        assert(s2.drop_last() =~= records.drop_last());
    } else {
        assert(s2.last() == records.last());
        assert(s2.drop_last() =~= records.drop_last().update(i, r));
        assert(records.drop_last()[i] == records[i]);
        lemma_distinct_drop_last(records);
        lemma_claimed_of_update(records.drop_last(), i, r, pass);
    }
}

/// How appending a record for a new pass changes each pass's claimed
/// total: the new pass takes the record's value, every other pass is
/// untouched.
pub proof fn lemma_claimed_of_push(records: Seq<ClaimRecord>, r: ClaimRecord, pass: int)
    ensures
        claimed_of(records.push(r), pass) == if pass == r.pass_number as int {
            r.total_claimed as int
        } else {
            claimed_of(records, pass)
        },
{
    assert(records.push(r).drop_last() =~= records);
    assert(records.push(r).last() == r);
}

/// When two record sets agree on every pass in `1..=k` except possibly
/// one, their prefix sums differ exactly by that pass's delta.
pub proof fn lemma_sum_claimed_delta(
    s: Seq<ClaimRecord>,
    t: Seq<ClaimRecord>,
    pass: int,
    k: int,
)
    requires
        forall|q: int|
            1 <= q <= k && q != pass ==> #[trigger] claimed_of(t, q) == claimed_of(s, q),
    ensures
        1 <= pass <= k ==> sum_claimed(t, k) == sum_claimed(s, k) + claimed_of(t, pass)
            - claimed_of(s, pass),
        !(1 <= pass <= k) ==> sum_claimed(t, k) == sum_claimed(s, k),
    decreases k,
{
    if k > 0 {
        lemma_sum_claimed_delta(s, t, pass, k - 1);
    }
}

/// If every pass's claimed total is at most `bound`, the prefix sum over
/// `k` passes is at most `k * bound`.
pub proof fn lemma_sum_claimed_bounded(s: Seq<ClaimRecord>, k: int, bound: int)
    requires
        0 <= k,
        forall|q: int| 1 <= q <= k ==> #[trigger] claimed_of(s, q) <= bound,
    ensures
        sum_claimed(s, k) <= k * bound,
    decreases k,
{
    if k > 0 {
        lemma_sum_claimed_bounded(s, k - 1, bound);
        assert(claimed_of(s, k) <= bound);
        assert((k - 1) * bound + bound == k * bound) by (nonlinear_arith);
    } else {
        assert(k * bound == 0) by (nonlinear_arith)
            requires
                k == 0,
        ;
    }
}

/// A prefix sum over passes that have all claimed the same amount is
/// that amount times the pass count.
pub proof fn lemma_sum_claimed_constant(s: Seq<ClaimRecord>, k: int, c: int)
    requires
        0 <= k,
        forall|q: int| 1 <= q <= k ==> #[trigger] claimed_of(s, q) == c,
    ensures
        sum_claimed(s, k) == k * c,
    decreases k,
{
    if k > 0 {
        lemma_sum_claimed_constant(s, k - 1, c);
        assert((k - 1) * c + c == k * c) by (nonlinear_arith);
    } else {
        assert(k * c == 0) by (nonlinear_arith)
            requires
                k == 0,
        ;
    }
}

/// The total entitlement `total_passes * per_pass_share` accounts for all
/// collected revenue except the division's remainder — the permanent dust
/// no pass can ever claim.
pub proof fn lemma_total_entitlement_bounded(pool: RevenuePool)
    requires
        1 <= pool.total_passes,
    ensures
        per_pass_share(pool) >= 0,
        pool.total_passes as int * per_pass_share(pool) == pool.total_revenue_collected as int
            - (pool.total_revenue_collected as int % pool.total_passes as int),
        pool.total_passes as int * per_pass_share(pool) <= pool.total_revenue_collected as int,
{
    let c = pool.total_revenue_collected as int;
    let n = pool.total_passes as int;
    vstd::arithmetic::div_mod::lemma_fundamental_div_mod(c, n);
    vstd::arithmetic::div_mod::lemma_mod_bound(c, n);
    vstd::arithmetic::div_mod::lemma_div_pos_is_pos(c, n);
}

} // verus!
