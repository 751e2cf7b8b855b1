//! Yield distribution: the deposit path and the claim path.
//!
//! Each income deposit raises the single global accumulator
//! `yield_per_token` by the deposited amount divided by the total share
//! supply, scaled into fixed point — one O(1) update, however many holders
//! there are. A holder later claims the gap between the accumulator and
//! its own snapshot, multiplied by its share balance; the snapshot then
//! advances to the accumulator. The host moves the actual payment units:
//! into the asset's pool on deposit, out to the holder on claim, each as
//! one indivisible unit with the update here. The snapshot advances before
//! the payout is issued, so a failed and retried transfer can never claim
//! the same pending amount twice.

use vstd::prelude::*;

use vstd::arithmetic::div_mod::lemma_div_is_ordered;
use vstd::arithmetic::div_mod::lemma_div_pos_is_pos;
use vstd::arithmetic::div_mod::lemma_fundamental_div_mod;
use vstd::arithmetic::div_mod::lemma_div_multiples_vanish;
use vstd::arithmetic::div_mod::lemma_mod_bound;
use vstd::arithmetic::mul::lemma_mul_inequality;
use vstd::arithmetic::mul::lemma_mul_is_distributive_add;
use vstd::arithmetic::mul::lemma_mul_nonnegative;

use crate::errors::ErrorCode;
use crate::holder::HolderId;
use crate::property::{Property, PRECISION, lemma_last_yield_of_bounded};

verus! {

/// What one deposit adds to the accumulator: the amount scaled into fixed
/// point, divided by the total share supply, rounded down.
pub open spec fn yield_delta(amount: u64, total_tokens: u64) -> int {
    (amount as int * PRECISION as int) / total_tokens as int
}

/// What a holder with balance `balance` can claim while the accumulator
/// stands at `current` and its snapshot at `last`: the gap times the
/// balance, scaled back out of fixed point, rounded down.
pub open spec fn pending_yield(current: int, last: int, balance: u64) -> int {
    ((current - last) * balance as int) / PRECISION as int
}

/// Deposits `amount` payment units of income: raises the accumulator by
/// `yield_delta(amount, total_tokens)`. The host transfers the amount into
/// the asset's yield pool together with this update. On any error the
/// record is unchanged.
pub fn deposit_yield(property: &mut Property, amount: u64) -> (r: Result<(), ErrorCode>)
    ensures
        r is Ok <==> amount > 0 && old(property).total_tokens > 0 && old(
            property,
        ).yield_per_token + yield_delta(amount, old(property).total_tokens) <= u128::MAX,
        r is Ok ==> final(property).yield_per_token == old(property).yield_per_token
            + yield_delta(amount, old(property).total_tokens),
        r is Ok ==> *final(property) == (Property {
            yield_per_token: final(property).yield_per_token,
            ..*old(property)
        }),
        r is Err ==> *final(property) == *old(property),
        amount == 0 ==> r == Err::<(), ErrorCode>(ErrorCode::InvalidAmount),
        amount > 0 && old(property).total_tokens == 0 ==> r == Err::<(), ErrorCode>(
            ErrorCode::DivisionByZero,
        ),
        amount > 0 && old(property).total_tokens > 0 && old(property).yield_per_token
            + yield_delta(amount, old(property).total_tokens) > u128::MAX ==> r == Err::<
            (),
            ErrorCode,
        >(ErrorCode::ArithmeticOverflow),
        final(property).yield_per_token >= old(property).yield_per_token,
        old(property).wf() ==> final(property).wf(),
{
    if amount == 0 {
        return Err(ErrorCode::InvalidAmount);
    }
    if property.total_tokens == 0 {
        return Err(ErrorCode::DivisionByZero);
    }
    let scaled: u128 = (amount as u128) * PRECISION;
    let delta: u128 = scaled / (property.total_tokens as u128);
    match property.yield_per_token.checked_add(delta) {
        Some(raised) => {
            property.yield_per_token = raised;
            Ok(())
        },
        None => Err(ErrorCode::ArithmeticOverflow),
    }
}

/// Pays `holder` its share of everything deposited since its last claim:
/// returns the pending amount and advances the holder's snapshot to the
/// current accumulator. The host transfers the returned amount from the
/// yield pool to the holder together with this update. `NoYield` — the
/// normal outcome for a holder with nothing newly accrued — and every
/// other error leave the record unchanged.
pub fn claim_yield(property: &mut Property, holder: &HolderId, holder_balance: u64) -> (r: Result<
    u64,
    ErrorCode,
>)
    requires
        old(property).wf(),
    ensures
        final(property).wf(),
        ({
            let pending = pending_yield(
                old(property).yield_per_token as int,
                old(property).snapshot_of(*holder) as int,
                holder_balance,
            );
            let gap = old(property).yield_per_token - old(property).snapshot_of(*holder);
            &&& (r is Ok <==> gap * holder_balance as int <= u128::MAX && 0 < pending
                <= u64::MAX)
            &&& r matches Ok(paid) ==> {
                &&& paid == pending
                &&& final(property).snapshot_of(*holder) == old(property).yield_per_token
                &&& forall|h: HolderId|
                    h != *holder ==> final(property).snapshot_of(h) == old(property).snapshot_of(h)
                &&& final(property).yield_per_token == old(property).yield_per_token
                &&& final(property).total_tokens == old(property).total_tokens
                &&& final(property).tokens_left == old(property).tokens_left
                &&& final(property).price_per_token_usdc == old(property).price_per_token_usdc
                &&& final(property).owner == old(property).owner
                &&& final(property).metadata_hash == old(property).metadata_hash
                &&& final(property).metadata_uri == old(property).metadata_uri
                &&& final(property).annual_return_bp == old(property).annual_return_bp
            }
            &&& r is Err ==> *final(property) == *old(property)
            &&& gap * holder_balance as int > u128::MAX ==> r == Err::<u64, ErrorCode>(
                ErrorCode::ArithmeticOverflow,
            )
            &&& gap * holder_balance as int <= u128::MAX && pending == 0 ==> r == Err::<
                u64,
                ErrorCode,
            >(ErrorCode::NoYield)
            &&& gap * holder_balance as int <= u128::MAX && pending > u64::MAX ==> r == Err::<
                u64,
                ErrorCode,
            >(ErrorCode::ArithmeticOverflow)
        }),
{
    let last = property.snapshot(holder);
    proof {
        lemma_last_yield_of_bounded(property.last_yield@, *holder, property.yield_per_token);
    }
    let gap = property.yield_per_token - last;
    let product = match gap.checked_mul(holder_balance as u128) {
        Some(p) => p,
        None => {
            return Err(ErrorCode::ArithmeticOverflow);
        },
    };
    let pending = product / PRECISION;
    if pending == 0 {
        return Err(ErrorCode::NoYield);
    }
    if pending > u64::MAX as u128 {
        return Err(ErrorCode::ArithmeticOverflow);
    }
    let current = property.yield_per_token;
    property.set_snapshot(holder, current);
    Ok(pending as u64)
}

/// A claim pays nothing twice: a successful `claim_yield` leaves the
/// holder's snapshot equal to the accumulator, and while the two stay
/// equal — no intervening deposit — nothing is pending, so an immediate
/// second claim fails `NoYield` by `claim_yield`'s contract.
pub proof fn lemma_repeat_claim_pends_nothing(property: Property, holder: HolderId, balance: u64)
    requires
        property.snapshot_of(holder) == property.yield_per_token,
    ensures
        pending_yield(
            property.yield_per_token as int,
            property.snapshot_of(holder) as int,
            balance,
        ) == 0,
{
}

/// Exact proportionality when the supply divides the deposit: two holders
/// whose balances together make up the whole supply receive exactly their
/// proportional shares of one deposit of `d`, and the two shares sum to
/// `d` — no dust.
pub proof fn lemma_proportional_claims(d: u64, s: u64, b1: u64, b2: u64)
    requires
        s > 0,
        d as int % s as int == 0,
        b1 as int + b2 as int == s as int,
    ensures
        pending_yield(yield_delta(d, s), 0, b1) == d as int * b1 as int / s as int,
        pending_yield(yield_delta(d, s), 0, b2) == d as int * b2 as int / s as int,
        pending_yield(yield_delta(d, s), 0, b1) + pending_yield(yield_delta(d, s), 0, b2) == d,
{
    let di = d as int;
    let si = s as int;
    let k = di / si;
    lemma_fundamental_div_mod(di, si);
    assert(di == si * k);
    lemma_div_pos_is_pos(di, si);
    lemma_proportional_claim_one(d, s, b1);
    lemma_proportional_claim_one(d, s, b2);
    assert(k * b1 as int + k * b2 as int == k * si) by (nonlinear_arith)
        requires
            b1 as int + b2 as int == si,
    ;
    assert(k * si == si * k) by (nonlinear_arith);
    assert(d as int * b1 as int / s as int == k * b1 as int);
    assert(d as int * b2 as int / s as int == k * b2 as int);
}

/// One holder's exact share when the supply divides the deposit: with
/// `d == k * s`, the accumulator rises by exactly `k * PRECISION`, and a
/// balance of `b` pends exactly `k * b == d * b / s`.
proof fn lemma_proportional_claim_one(d: u64, s: u64, b: u64)
    requires
        s > 0,
        d as int % s as int == 0,
    ensures
        pending_yield(yield_delta(d, s), 0, b) == d as int * b as int / s as int,
        pending_yield(yield_delta(d, s), 0, b) == (d as int / s as int) * b as int,
{
    let p = PRECISION as int;
    let di = d as int;
    let si = s as int;
    let bi = b as int;
    let k = di / si;
    lemma_fundamental_div_mod(di, si);
    assert(di == si * k);
    lemma_div_pos_is_pos(di, si);
    // the accumulator rises by exactly k * PRECISION
    assert(di * p == si * (k * p)) by (nonlinear_arith)
        requires
            di == si * k,
    ;
    lemma_div_multiples_vanish(k * p, si);
    assert(yield_delta(d, s) == k * p);
    // the pending amount is exactly k * b
    assert(k * p * bi == p * (k * bi)) by (nonlinear_arith);
    lemma_div_multiples_vanish(k * bi, p);
    assert(pending_yield(k * p, 0, b) == k * bi);
    // and k * b is the exact proportional share d * b / s
    assert(di * bi == si * (k * bi)) by (nonlinear_arith)
        requires
            di == si * k,
    ;
    lemma_div_multiples_vanish(k * bi, si);
    assert(di * bi / si == k * bi);
}

/// The share balances of a set of holders, summed.
pub open spec fn sum_balances(balances: Seq<u64>) -> int
    decreases balances.len(),
{
    if balances.len() == 0 {
        0
    } else {
        sum_balances(balances.drop_last()) + balances.last()
    }
}

/// What a set of holders can claim, in sum, out of one accumulator rise of
/// `delta`: each holder's balance times the rise, scaled out of fixed
/// point and rounded down.
pub open spec fn sum_claims(delta: int, balances: Seq<u64>) -> int
    decreases balances.len(),
{
    if balances.len() == 0 {
        0
    } else {
        sum_claims(delta, balances.drop_last()) + (delta * balances.last() as int) / (
        PRECISION as int)
    }
}

/// A sum of unsigned balances is never negative.
proof fn lemma_sum_balances_nonneg(balances: Seq<u64>)
    ensures
        sum_balances(balances) >= 0,
    decreases balances.len(),
{
    if balances.len() > 0 {
        lemma_sum_balances_nonneg(balances.drop_last());
    }
}

/// Rounding down each addend loses against rounding down the sum.
proof fn lemma_precision_div_add_le(a: int, b: int)
    requires
        a >= 0,
        b >= 0,
    ensures
        a / (PRECISION as int) + b / (PRECISION as int) <= (a + b) / (PRECISION as int),
{
    let p = PRECISION as int;
    lemma_fundamental_div_mod(a, p);
    lemma_fundamental_div_mod(b, p);
    lemma_fundamental_div_mod(a + b, p);
    lemma_mod_bound(a, p);
    lemma_mod_bound(b, p);
    lemma_mod_bound(a + b, p);
}

/// Summing per-holder claims never beats claiming on the summed balance:
/// the floor is applied once per holder instead of once.
proof fn lemma_sum_claims_le(delta: int, balances: Seq<u64>)
    requires
        delta >= 0,
    ensures
        0 <= sum_claims(delta, balances),
        sum_claims(delta, balances) <= (delta * sum_balances(balances)) / (PRECISION as int),
    decreases balances.len(),
{
    let p = PRECISION as int;
    if balances.len() == 0 {
    } else {
        let rest = balances.drop_last();
        let b = balances.last();
        lemma_sum_claims_le(delta, rest);
        lemma_sum_balances_nonneg(rest);
        lemma_mul_nonnegative(delta, b as int);
        lemma_mul_nonnegative(delta, sum_balances(rest));
        lemma_div_pos_is_pos(delta * b as int, p);
        lemma_precision_div_add_le(delta * sum_balances(rest), delta * b as int);
        lemma_mul_is_distributive_add(delta, sum_balances(rest), b as int);
    }
}

/// Bounded rounding loss per deposit: a deposit of `d` against a supply of
/// `s` raises the accumulator by `yield_delta(d, s)`, entitling the whole
/// supply to `yield_delta(d, s) * s` scaled units — at most the deposit
/// and short of it by less than `s` scaled units. Whatever balances the
/// holders have, the sum of their claims out of this one rise never
/// exceeds `d`, so the pool can always cover every claim.
pub proof fn lemma_deposit_rounding_bound(d: u64, s: u64, balances: Seq<u64>)
    requires
        s > 0,
        sum_balances(balances) <= s,
    ensures
        0 <= sum_claims(yield_delta(d, s), balances) <= d,
        yield_delta(d, s) * s as int <= d as int * PRECISION as int,
        yield_delta(d, s) * s as int >= d as int * PRECISION as int - (s as int - 1),
{
    let p = PRECISION as int;
    let di = d as int;
    let si = s as int;
    let delta = yield_delta(d, s);
    lemma_div_pos_is_pos(di * p, si);
    lemma_fundamental_div_mod(di * p, si);
    lemma_mod_bound(di * p, si);
    assert(si * delta == delta * si) by (nonlinear_arith);
    // delta * s == d * PRECISION - (d * PRECISION) % s, which the mod bound pins
    lemma_sum_claims_le(delta, balances);
    lemma_sum_balances_nonneg(balances);
    lemma_mul_inequality(sum_balances(balances), si, delta);
    assert(delta * sum_balances(balances) == sum_balances(balances) * delta) by (nonlinear_arith);
    lemma_div_is_ordered(delta * sum_balances(balances), di * p, p);
    lemma_div_multiples_vanish(di, p);
    assert(p * di == di * p) by (nonlinear_arith);
}

} // verus!
