use real_estate_usdc::distribution::{claim_yield, deposit_yield};
use real_estate_usdc::errors::ErrorCode;
use real_estate_usdc::holder::HolderId;
use real_estate_usdc::property::{Property, SnapshotEntry, PRECISION};
use real_estate_usdc::purchase::buy_tokens;
use real_estate_usdc::registry::create_property;

fn holder(n: u64) -> HolderId {
    HolderId::new(n, 0, 0, 0)
}

fn fresh_property(total_tokens: u64, price: u64) -> Property {
    create_property(holder(1), [7u8; 32], String::from("ipfs://asset"), 800, total_tokens, price)
        .expect("a positive supply must be accepted")
}

#[test]
fn create_property_initializes_the_record() {
    let p = fresh_property(1000, 500);
    assert_eq!(p.owner, holder(1));
    assert_eq!(p.metadata_hash, [7u8; 32]);
    assert_eq!(p.metadata_uri, "ipfs://asset");
    assert_eq!(p.annual_return_bp, 800);
    assert_eq!(p.total_tokens, 1000);
    assert_eq!(p.tokens_left, 1000);
    assert_eq!(p.price_per_token_usdc, 500);
    assert_eq!(p.yield_per_token, 0);
    assert_eq!(p.last_yield.len(), 0);
}

#[test]
fn create_property_rejects_zero_supply() {
    let r = create_property(holder(1), [0u8; 32], String::new(), 0, 0, 500);
    assert_eq!(r.unwrap_err(), ErrorCode::InvalidAmount);
}

#[test]
fn buy_sequence_conserves_supply() {
    let mut p = fresh_property(1000, 1);
    let amounts = [100u64, 250, 650];
    let mut sold = 0u64;
    for a in amounts {
        assert!(buy_tokens(&mut p, a).is_ok());
        sold += a;
        assert_eq!(p.tokens_left, p.total_tokens - sold);
    }
    assert_eq!(sold, p.total_tokens);
    assert_eq!(p.tokens_left, 0);
    assert_eq!(buy_tokens(&mut p, 1).unwrap_err(), ErrorCode::InsufficientTokens);
    assert_eq!(p.tokens_left, 0);
}

#[test]
fn buy_exact_supply_then_one_more() {
    let mut p = fresh_property(10, 500);
    let cost = buy_tokens(&mut p, 10).expect("ten shares remain");
    assert_eq!(cost, 5000);
    assert_eq!(p.tokens_left, 0);
    assert_eq!(buy_tokens(&mut p, 1).unwrap_err(), ErrorCode::InsufficientTokens);
}

#[test]
fn buy_cost_overflow_changes_nothing() {
    let mut p = fresh_property(10, u64::MAX);
    assert_eq!(buy_tokens(&mut p, 2).unwrap_err(), ErrorCode::ArithmeticOverflow);
    assert_eq!(p.tokens_left, 10);
}

#[test]
fn deposit_scales_into_the_accumulator() {
    let mut p = fresh_property(1000, 500);
    deposit_yield(&mut p, 1_000_000).expect("a positive deposit");
    assert_eq!(p.yield_per_token, 1_000_000_000_000);
    let paid = claim_yield(&mut p, &holder(2), 100).expect("yield is pending");
    assert_eq!(paid, 100_000);
}

#[test]
fn deposit_of_zero_fails_without_mutating() {
    let mut p = fresh_property(1000, 500);
    deposit_yield(&mut p, 1_000_000).expect("a positive deposit");
    assert_eq!(deposit_yield(&mut p, 0).unwrap_err(), ErrorCode::InvalidAmount);
    assert_eq!(p.yield_per_token, 1_000_000_000_000);
}

#[test]
fn deposit_against_zero_supply_is_a_consistency_fault() {
    let mut broken = Property {
        owner: holder(1),
        metadata_hash: [0u8; 32],
        metadata_uri: String::new(),
        annual_return_bp: 0,
        total_tokens: 0,
        tokens_left: 0,
        price_per_token_usdc: 1,
        yield_per_token: 0,
        last_yield: Vec::new(),
    };
    assert_eq!(deposit_yield(&mut broken, 5).unwrap_err(), ErrorCode::DivisionByZero);
    assert_eq!(broken.yield_per_token, 0);
}

#[test]
fn deposit_accumulate_overflow_changes_nothing() {
    let mut p = fresh_property(1, 1);
    p.yield_per_token = u128::MAX;
    assert_eq!(deposit_yield(&mut p, 1).unwrap_err(), ErrorCode::ArithmeticOverflow);
    assert_eq!(p.yield_per_token, u128::MAX);
}

#[test]
fn second_claim_without_new_deposit_fails_no_yield() {
    let mut p = fresh_property(1000, 500);
    deposit_yield(&mut p, 1_000_000).expect("a positive deposit");
    let first = claim_yield(&mut p, &holder(2), 100).expect("yield is pending");
    assert_eq!(first, 100_000);
    assert_eq!(claim_yield(&mut p, &holder(2), 100).unwrap_err(), ErrorCode::NoYield);
}

#[test]
fn claim_with_no_balance_fails_no_yield() {
    let mut p = fresh_property(1000, 500);
    deposit_yield(&mut p, 1_000_000).expect("a positive deposit");
    assert_eq!(claim_yield(&mut p, &holder(3), 0).unwrap_err(), ErrorCode::NoYield);
}

#[test]
fn claims_are_proportional_without_dust() {
    // 1000 divides 5000, so the deposit is paid out exactly.
    let mut p = fresh_property(1000, 500);
    deposit_yield(&mut p, 5000).expect("a positive deposit");
    let paid_1 = claim_yield(&mut p, &holder(2), 300).expect("yield is pending");
    let paid_2 = claim_yield(&mut p, &holder(3), 700).expect("yield is pending");
    assert_eq!(paid_1, 1500);
    assert_eq!(paid_2, 3500);
    assert_eq!(paid_1 + paid_2, 5000);
}

#[test]
fn rounded_claims_never_exceed_the_deposit() {
    // 3 does not divide 10: each of three single-share holders gets 3, and
    // the scaled remainder (dust) stays in the pool.
    let mut p = fresh_property(3, 500);
    deposit_yield(&mut p, 10).expect("a positive deposit");
    assert_eq!(p.yield_per_token, 3_333_333_333);
    let mut paid_sum = 0u64;
    for n in 0..3u64 {
        paid_sum += claim_yield(&mut p, &holder(10 + n), 1).expect("yield is pending");
    }
    assert_eq!(paid_sum, 9);
    assert!(paid_sum <= 10);
}

#[test]
fn snapshots_are_tracked_per_holder() {
    let mut p = fresh_property(1000, 500);
    deposit_yield(&mut p, 1_000_000).expect("a positive deposit");
    assert_eq!(claim_yield(&mut p, &holder(2), 100).expect("yield is pending"), 100_000);
    deposit_yield(&mut p, 2_000_000).expect("a positive deposit");
    // the first holder only gets the second deposit's accrual ...
    assert_eq!(claim_yield(&mut p, &holder(2), 100).expect("yield is pending"), 200_000);
    // ... while a holder that never claimed gets both at once
    assert_eq!(claim_yield(&mut p, &holder(3), 500).expect("yield is pending"), 1_500_000);
    assert_eq!(p.snapshot(&holder(2)), p.yield_per_token);
    assert_eq!(p.snapshot(&holder(3)), p.yield_per_token);
    assert_eq!(p.snapshot(&holder(4)), 0);
}

#[test]
fn claim_pending_beyond_u64_is_an_overflow() {
    let mut p = fresh_property(1, 1);
    // the gap alone is fine, but the payout would not fit a transfer amount
    p.yield_per_token = (u64::MAX as u128 + 1) * PRECISION;
    assert_eq!(claim_yield(&mut p, &holder(2), 1).unwrap_err(), ErrorCode::ArithmeticOverflow);
    assert_eq!(p.snapshot(&holder(2)), 0);
}

#[test]
fn claim_product_overflow_is_reported() {
    let mut p = fresh_property(1, 1);
    p.yield_per_token = u128::MAX;
    assert_eq!(claim_yield(&mut p, &holder(2), 2).unwrap_err(), ErrorCode::ArithmeticOverflow);
}

#[test]
fn snapshot_entries_stay_unique() {
    let mut p = fresh_property(1000, 500);
    for round in 1..4u64 {
        deposit_yield(&mut p, 1_000_000 * round).expect("a positive deposit");
        claim_yield(&mut p, &holder(2), 100).expect("yield is pending");
    }
    assert_eq!(p.last_yield.len(), 1);
    assert_eq!(
        p.last_yield[0],
        SnapshotEntry { holder: holder(2), last_yield: p.yield_per_token }
    );
}
