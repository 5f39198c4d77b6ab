use revenue_pass::state::{AccountId, ClaimRecord, ErrorCode, RevenueLedger};
use revenue_pass::ops::is_authority;

fn acct(key: u64) -> AccountId {
    AccountId { key }
}

fn pool_with(total_passes: u16) -> RevenueLedger {
    RevenueLedger::initialize_pool(acct(1), total_passes).expect("valid pass count")
}

fn record_for(ledger: &RevenueLedger, pass_number: u16) -> Option<&ClaimRecord> {
    ledger.records.iter().find(|r| r.pass_number == pass_number)
}

#[test]
fn initialize_pool_sets_fresh_counters() {
    let ledger = pool_with(5);
    assert_eq!(ledger.pool.authority, acct(1));
    assert_eq!(ledger.pool.total_passes, 5);
    assert_eq!(ledger.pool.total_revenue_collected, 0);
    assert_eq!(ledger.pool.total_revenue_distributed, 0);
    assert!(ledger.pool.is_active);
    assert_eq!(ledger.balance, 0);
    assert!(ledger.records.is_empty());
}

#[test]
fn initialize_pool_rejects_zero_passes() {
    let r = RevenueLedger::initialize_pool(acct(1), 0);
    assert_eq!(r.err(), Some(ErrorCode::InvalidPassNumber));
}

#[test]
fn deposit_accumulates_collected_and_balance() {
    let mut ledger = pool_with(5);
    assert_eq!(ledger.deposit_revenue(1000), Ok(()));
    assert_eq!(ledger.deposit_revenue(0), Ok(()));
    assert_eq!(ledger.deposit_revenue(500), Ok(()));
    assert_eq!(ledger.pool.total_revenue_collected, 1500);
    assert_eq!(ledger.balance, 1500);
    assert_eq!(ledger.pool.total_revenue_distributed, 0);
}

#[test]
fn first_claim_pays_full_share() {
    // Five passes, 1000 deposited: the per-pass share is 200.
    let mut ledger = pool_with(5);
    ledger.deposit_revenue(1000).unwrap();
    assert_eq!(ledger.claimable_amount(1), 200);
    assert_eq!(ledger.claim_revenue(acct(2), 1, 77), Ok(200));
    let rec = record_for(&ledger, 1).expect("record created on first claim");
    assert_eq!(rec.total_claimed, 200);
    assert_eq!(rec.holder, acct(2));
    assert_eq!(rec.last_claim_timestamp, 77);
    assert_eq!(ledger.pool.total_revenue_distributed, 200);
    assert_eq!(ledger.balance, 800);
}

#[test]
fn immediate_second_claim_finds_nothing() {
    let mut ledger = pool_with(5);
    ledger.deposit_revenue(1000).unwrap();
    assert_eq!(ledger.claim_revenue(acct(2), 1, 77), Ok(200));
    assert_eq!(ledger.claim_revenue(acct(2), 1, 78), Err(ErrorCode::NothingToClaim));
    // The failed claim changed nothing.
    assert_eq!(record_for(&ledger, 1).unwrap().total_claimed, 200);
    assert_eq!(record_for(&ledger, 1).unwrap().last_claim_timestamp, 77);
    assert_eq!(ledger.pool.total_revenue_distributed, 200);
}

#[test]
fn claim_after_further_deposit_pays_the_delta() {
    // Scenario: after 1000 then 500 more, the share grows to 300 and a
    // pass that already claimed 200 is owed exactly 100.
    let mut ledger = pool_with(5);
    ledger.deposit_revenue(1000).unwrap();
    assert_eq!(ledger.claim_revenue(acct(2), 1, 1), Ok(200));
    ledger.deposit_revenue(500).unwrap();
    assert_eq!(ledger.pool.total_revenue_collected, 1500);
    assert_eq!(ledger.claimable_amount(1), 100);
    assert_eq!(ledger.claim_revenue(acct(2), 1, 2), Ok(100));
    assert_eq!(record_for(&ledger, 1).unwrap().total_claimed, 300);
}

#[test]
fn dust_from_the_share_division_is_never_distributed() {
    // Three passes, 10 deposited: the share is 3, and claiming every
    // pass distributes 9, leaving 1 unit of permanent dust.
    let mut ledger = pool_with(3);
    ledger.deposit_revenue(10).unwrap();
    assert_eq!(ledger.claim_revenue(acct(2), 1, 1), Ok(3));
    assert_eq!(ledger.claim_revenue(acct(3), 2, 2), Ok(3));
    assert_eq!(ledger.claim_revenue(acct(4), 3, 3), Ok(3));
    assert_eq!(ledger.pool.total_revenue_distributed, 9);
    assert_eq!(ledger.pool.total_revenue_collected, 10);
    assert_eq!(ledger.balance, 1);
    for pass in 1..=3 {
        assert_eq!(ledger.claim_revenue(acct(5), pass, 4), Err(ErrorCode::NothingToClaim));
    }
}

#[test]
fn nothing_to_claim_while_the_share_is_zero() {
    // With less collected than there are passes, the floor share is 0 and
    // every claim fails, even though the pool holds funds.
    let mut ledger = pool_with(5);
    ledger.deposit_revenue(3).unwrap();
    assert_eq!(ledger.claimable_amount(2), 0);
    assert_eq!(ledger.claim_revenue(acct(2), 2, 1), Err(ErrorCode::NothingToClaim));
    assert!(ledger.records.is_empty());
}

#[test]
fn out_of_range_pass_numbers_are_rejected() {
    let mut ledger = pool_with(5);
    ledger.deposit_revenue(1000).unwrap();
    assert_eq!(ledger.claim_revenue(acct(2), 0, 1), Err(ErrorCode::InvalidPassNumber));
    assert_eq!(ledger.claim_revenue(acct(2), 6, 1), Err(ErrorCode::InvalidPassNumber));
    // No state change on either failure.
    assert_eq!(ledger.pool.total_revenue_distributed, 0);
    assert_eq!(ledger.balance, 1000);
    assert!(ledger.records.is_empty());
}

#[test]
fn paused_pool_rejects_deposits_and_claims() {
    let mut ledger = pool_with(5);
    ledger.deposit_revenue(1000).unwrap();
    assert_eq!(ledger.set_pool_status(acct(1), false), Ok(()));
    assert!(!ledger.pool.is_active);
    assert_eq!(ledger.deposit_revenue(100), Err(ErrorCode::PoolNotActive));
    assert_eq!(ledger.claim_revenue(acct(2), 1, 1), Err(ErrorCode::PoolNotActive));
    assert_eq!(ledger.pool.total_revenue_collected, 1000);
    // Reactivating restores both operations.
    assert_eq!(ledger.set_pool_status(acct(1), true), Ok(()));
    assert_eq!(ledger.deposit_revenue(100), Ok(()));
    assert_eq!(ledger.claim_revenue(acct(2), 1, 1), Ok(220));
}

#[test]
fn only_the_authority_administers_the_pool() {
    let mut ledger = pool_with(5);
    ledger.deposit_revenue(1000).unwrap();
    assert!(is_authority(acct(1), &ledger.pool));
    assert!(!is_authority(acct(9), &ledger.pool));
    assert_eq!(ledger.set_pool_status(acct(9), false), Err(ErrorCode::Unauthorized));
    assert!(ledger.pool.is_active);
    assert_eq!(ledger.emergency_withdraw(acct(9), 10), Err(ErrorCode::Unauthorized));
    assert_eq!(ledger.balance, 1000);
}

#[test]
fn emergency_withdraw_drains_balance_but_not_counters() {
    let mut ledger = pool_with(5);
    ledger.deposit_revenue(1000).unwrap();
    assert_eq!(ledger.emergency_withdraw(acct(1), 900), Ok(()));
    assert_eq!(ledger.balance, 100);
    assert_eq!(ledger.pool.total_revenue_collected, 1000);
    assert_eq!(ledger.pool.total_revenue_distributed, 0);
    // The ledger still owes pass 1 a share of 200, but the funds are
    // gone: the claim fails at the transfer step.
    assert_eq!(ledger.claimable_amount(1), 200);
    assert_eq!(ledger.claim_revenue(acct(2), 1, 1), Err(ErrorCode::InsufficientFunds));
    assert_eq!(ledger.pool.total_revenue_distributed, 0);
}

#[test]
fn emergency_withdraw_cannot_overdraw() {
    let mut ledger = pool_with(5);
    ledger.deposit_revenue(100).unwrap();
    assert_eq!(ledger.emergency_withdraw(acct(1), 101), Err(ErrorCode::InsufficientFunds));
    assert_eq!(ledger.balance, 100);
}

#[test]
fn anyone_may_claim_for_any_pass() {
    // The engine never checks the caller against a previous holder: a
    // known access-control gap that is preserved deliberately.
    let mut ledger = pool_with(2);
    ledger.deposit_revenue(100).unwrap();
    assert_eq!(ledger.claim_revenue(acct(7), 1, 1), Ok(50));
    assert_eq!(record_for(&ledger, 1).unwrap().holder, acct(7));
    ledger.deposit_revenue(100).unwrap();
    assert_eq!(ledger.claim_revenue(acct(8), 1, 2), Ok(50));
    // The later claimant simply overwrites the holder.
    assert_eq!(record_for(&ledger, 1).unwrap().holder, acct(8));
    assert_eq!(record_for(&ledger, 1).unwrap().total_claimed, 100);
}

#[test]
fn ledger_invariants_hold_along_a_mixed_run() {
    let mut ledger = pool_with(7);
    let mut time: i64 = 0;
    for round in 1..=6u64 {
        ledger.deposit_revenue(round * 137).unwrap();
        for pass in 1..=7u16 {
            time += 1;
            let _ = ledger.claim_revenue(acct(u64::from(pass)), pass, time);
        }
        // Distributed never exceeds collected, and every record stays
        // within the per-pass entitlement ceiling.
        let share = ledger.pool.total_revenue_collected / u64::from(ledger.pool.total_passes);
        assert!(ledger.pool.total_revenue_distributed <= ledger.pool.total_revenue_collected);
        for rec in &ledger.records {
            assert!(rec.total_claimed <= share);
        }
    }
}

#[test]
fn share_never_falls_when_revenue_grows() {
    let mut ledger = pool_with(9);
    let mut previous: u64 = 0;
    for amount in [0u64, 1, 8, 9, 100, 3] {
        ledger.deposit_revenue(amount).unwrap();
        let share = ledger.pool.total_revenue_collected / 9;
        assert!(share >= previous);
        assert_eq!(ledger.claimable_amount(4), share);
        previous = share;
    }
}

#[test]
fn claimable_amount_reports_the_outstanding_delta() {
    let mut ledger = pool_with(4);
    assert_eq!(ledger.claimable_amount(1), 0);
    ledger.deposit_revenue(400).unwrap();
    assert_eq!(ledger.claimable_amount(3), 100);
    ledger.claim_revenue(acct(2), 3, 1).unwrap();
    assert_eq!(ledger.claimable_amount(3), 0);
    ledger.deposit_revenue(40).unwrap();
    assert_eq!(ledger.claimable_amount(3), 10);
    assert_eq!(ledger.claimable_amount(1), 110);
}
