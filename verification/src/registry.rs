//! Asset creation.
//!
//! The registry produces the one `Property` record per real-world asset.
//! Issuing the freshly minted share supply into the owner's holding area is
//! the external ledger's work; the host performs it with the `total_tokens`
//! recorded here.

use vstd::prelude::*;

use crate::errors::ErrorCode;
use crate::holder::HolderId;
use crate::property::Property;

verus! {

/// Creates an asset record with `total_tokens` shares, all still unsold, a
/// zeroed yield accumulator and no snapshots.
///
/// A zero share supply is refused: the deposit path divides by
/// `total_tokens`, so positivity must be established once, here, to hold
/// for the record's whole lifetime.
pub fn create_property(
    owner: HolderId,
    metadata_hash: [u8; 32],
    metadata_uri: String,
    annual_return_bp: u16,
    total_tokens: u64,
    price_per_token_usdc: u64,
) -> (r: Result<Property, ErrorCode>)
    ensures
        r is Ok <==> total_tokens > 0,
        r is Err ==> r == Err::<Property, ErrorCode>(ErrorCode::InvalidAmount),
        r matches Ok(p) ==> {
            &&& p.owner == owner
            &&& p.metadata_hash == metadata_hash
            &&& p.metadata_uri == metadata_uri
            &&& p.annual_return_bp == annual_return_bp
            &&& p.total_tokens == total_tokens
            &&& p.tokens_left == total_tokens
            &&& p.price_per_token_usdc == price_per_token_usdc
            &&& p.yield_per_token == 0
            &&& p.last_yield@.len() == 0
            &&& p.wf()
        },
{
    if total_tokens == 0 {
        return Err(ErrorCode::InvalidAmount);
    }
    Ok(
        Property {
            owner,
            metadata_hash,
            metadata_uri,
            annual_return_bp,
            total_tokens,
            tokens_left: total_tokens,
            price_per_token_usdc,
            yield_per_token: 0,
            last_yield: Vec::new(),
        },
    )
}

} // verus!
