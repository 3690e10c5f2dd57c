//! Creating the pool of an asset.

use vstd::prelude::*;
use anchor_lang::prelude::Pubkey;
use crate::error::CustomError;
use crate::state::{byte_len, State, MAX_METADATA_LEN};

verus! {

/// What creating a pool reads and rewrites.
#[derive(Debug, PartialEq, Eq)]
pub struct Initialize {
    /// The place where the pool of this asset is kept: empty until the pool
    /// has been created.
    pub state: Option<State>,
    /// The mint address of the asset that the pool will manage.
    pub mint: Pubkey,
}

impl Initialize {
    /// The pool that `initialize` creates: bound to the mint, with nothing in
    /// circulation and nothing in reserve.
    pub open spec fn fresh_pool(
        self,
        base_price: u64,
        slope: u64,
        metadata_uri: String,
    ) -> State {
        State { mint: self.mint, reserve: 0, supply: 0, base_price, slope, metadata_uri }
    }

    /// What creating the pool makes of this place, or why it is refused.
    pub open spec fn initialized(
        self,
        base_price: u64,
        slope: u64,
        metadata_uri: String,
    ) -> Result<Initialize, CustomError> {
        if self.state is Some {
            Err(CustomError::AlreadyExists)
        } else if byte_len(metadata_uri@) > MAX_METADATA_LEN {
            Err(CustomError::InvalidMetadata)
        } else {
            Ok(
                Initialize {
                    state: Some(self.fresh_pool(base_price, slope, metadata_uri)),
                    mint: self.mint,
                },
            )
        }
    }
}

/// Creates the pool of the asset, with the given curve and metadata URI.
///
/// It is refused when the asset has a pool already, and when the URI is
/// longer than `MAX_METADATA_LEN` bytes; nothing has changed then. The pool
/// created is a consistent one.
pub fn initialize(ctx: &mut Initialize, base_price: u64, slope: u64, metadata_uri: String) -> (r:
    Result<(), CustomError>)
    ensures
        match old(ctx).initialized(base_price, slope, metadata_uri) {
            Ok(after) => r is Ok && *final(ctx) == after && after.state->Some_0.wf(),
            Err(why) => r == Err::<(), CustomError>(why) && *final(ctx) == *old(ctx),
        },
{
    if ctx.state.is_some() {
        return Err(CustomError::AlreadyExists);
    }
    if metadata_uri.as_str().as_bytes().len() > MAX_METADATA_LEN {
        return Err(CustomError::InvalidMetadata);
    }
    assert(base_price * 0 + slope * 0 * (0 - 1) / 2 == 0) by (nonlinear_arith);
    ctx.state = Some(
        State { mint: ctx.mint, reserve: 0, supply: 0, base_price, slope, metadata_uri },
    );
    Ok(())
}

} // verus!
