//! Purchase settlement: selling remaining unsold shares at a fixed price.
//!
//! The core validates the purchase, fixes the cost and decrements the
//! unsold supply; the host then performs the two ledger transfers (payment
//! to the owner, shares to the buyer) as one indivisible unit with this
//! update. Correctness under concurrent purchases of the same asset relies
//! on the host serializing all operations that touch one record.

use vstd::prelude::*;

use crate::errors::ErrorCode;
use crate::property::Property;

verus! {

/// Sells `amount` shares of `property`: checks the remaining supply, fixes
/// the cost at `price_per_token_usdc * amount`, and decrements
/// `tokens_left`. Returns the cost the buyer owes the owner. On any error
/// the record is unchanged.
pub fn buy_tokens(property: &mut Property, amount: u64) -> (r: Result<u64, ErrorCode>)
    ensures
        r is Ok <==> amount <= old(property).tokens_left
            && old(property).price_per_token_usdc * amount <= u64::MAX,
        r matches Ok(cost) ==> {
            &&& cost == old(property).price_per_token_usdc * amount
            &&& final(property).tokens_left == old(property).tokens_left - amount
            &&& *final(property) == (Property {
                tokens_left: final(property).tokens_left,
                ..*old(property)
            })
        },
        r is Err ==> *final(property) == *old(property),
        amount > old(property).tokens_left ==> r == Err::<u64, ErrorCode>(
            ErrorCode::InsufficientTokens,
        ),
        amount <= old(property).tokens_left && old(property).price_per_token_usdc * amount
            > u64::MAX ==> r == Err::<u64, ErrorCode>(ErrorCode::ArithmeticOverflow),
        old(property).wf() ==> final(property).wf(),
{
    if amount > property.tokens_left {
        return Err(ErrorCode::InsufficientTokens);
    }
    let cost = match property.price_per_token_usdc.checked_mul(amount) {
        Some(c) => c,
        None => {
            return Err(ErrorCode::ArithmeticOverflow);
        },
    };
    property.tokens_left = property.tokens_left - amount;
    Ok(cost)
}

/// The total number of shares bought by a sequence of purchases.
pub open spec fn sum_amounts(amounts: Seq<u64>) -> int
    decreases amounts.len(),
{
    if amounts.len() == 0 {
        0
    } else {
        sum_amounts(amounts.drop_last()) + amounts.last()
    }
}

/// The unsold supply left after a sequence of successful purchases, each
/// decrementing it by its amount as `buy_tokens` ensures.
pub open spec fn tokens_after(tokens_left: int, amounts: Seq<u64>) -> int
    decreases amounts.len(),
{
    if amounts.len() == 0 {
        tokens_left
    } else {
        tokens_after(tokens_left, amounts.drop_last()) - amounts.last()
    }
}

/// Each purchase in turn asks for no more than remains: the supply-side
/// condition under which `buy_tokens` succeeds.
pub open spec fn purchases_fit(tokens_left: int, amounts: Seq<u64>) -> bool
    decreases amounts.len(),
{
    if amounts.len() == 0 {
        true
    } else {
        purchases_fit(tokens_left, amounts.drop_last()) && amounts.last() <= tokens_after(
            tokens_left,
            amounts.drop_last(),
        )
    }
}

/// Conservation of supply: after any sequence of successful purchases on
/// one asset, the unsold supply equals the initial supply minus the sum of
/// the amounts bought, and that sum never exceeds the initial supply — an
/// attempt beyond it fails `InsufficientTokens` and changes nothing.
pub proof fn lemma_purchase_conservation(total_tokens: u64, amounts: Seq<u64>)
    requires
        purchases_fit(total_tokens as int, amounts),
    ensures
        tokens_after(total_tokens as int, amounts) == total_tokens - sum_amounts(amounts),
        0 <= sum_amounts(amounts) <= total_tokens,
    decreases amounts.len(),
{
    if amounts.len() > 0 {
        lemma_purchase_conservation(total_tokens, amounts.drop_last());
    }
}

} // verus!
