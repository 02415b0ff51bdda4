//! Shared hop plumbing: locating the pool a step addresses and validating
//! its dex identifier and parameter blob.

use vstd::prelude::*;
use crate::math::FEE_DENOM;
use crate::params::{decode_mira_params, decoded_fee, MIRA_DEX_ID};
use crate::pool::{find_pool, lemma_find_pool_props, PoolBook};
use crate::types::{RouterError, SwapStep};

verus! {

/// Resolves the pool index and fee a step addresses: the dex identifier must
/// be known, the parameter blob must decode, the fee must lie under the
/// denominator, and the keyed pool must exist.
pub open spec fn spec_hop_target(pools: Seq<crate::pool::Pool>, step: SwapStep) -> Result<
    (int, u64),
    RouterError,
> {
    if step.dex_id != MIRA_DEX_ID {
        Err(RouterError::UnsupportedOperation)
    } else {
        match decoded_fee(step.params@) {
            None => Err(RouterError::AdapterFailure),
            Some((fee, stable)) => {
                if fee >= FEE_DENOM {
                    Err(RouterError::AdapterFailure)
                } else {
                    match find_pool(pools, step.asset_in, step.asset_out, stable) {
                        None => Err(RouterError::AdapterFailure),
                        Some(i) => Ok((i, fee)),
                    }
                }
            },
        }
    }
}

/// Locates the pool and fee for one step.
pub(crate) fn hop_target(book: &PoolBook, step: &SwapStep) -> (r: Result<(usize, u64), RouterError>)
    ensures
        match r {
            Ok((i, fee)) => spec_hop_target(book@, *step) == Ok::<(int, u64), RouterError>(
                (i as int, fee),
            ) && i < book@.len() && fee < FEE_DENOM && ((book@[i as int].asset_0 == step.asset_in
                && book@[i as int].asset_1 == step.asset_out) || (book@[i as int].asset_1
                == step.asset_in && book@[i as int].asset_0 == step.asset_out)),
            Err(e) => spec_hop_target(book@, *step) == Err::<(int, u64), RouterError>(e),
        },
{
    if step.dex_id != MIRA_DEX_ID {
        return Err(RouterError::UnsupportedOperation);
    }
    match decode_mira_params(&step.params) {
        None => Err(RouterError::AdapterFailure),
        Some((fee, stable)) => {
            if fee >= FEE_DENOM {
                return Err(RouterError::AdapterFailure);
            }
            match book.find(step.asset_in, step.asset_out, stable) {
                None => Err(RouterError::AdapterFailure),
                Some(i) => {
                    proof {
                        lemma_find_pool_props(book@, step.asset_in, step.asset_out, stable);
                    }
                    Ok((i, fee))
                },
            }
        },
    }
}

} // verus!
