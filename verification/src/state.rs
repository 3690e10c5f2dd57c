//! The pool: the record that a trade reads and rewrites.

use vstd::prelude::*;
use vstd::utf8::encode_utf8;
use anchor_lang::prelude::Pubkey;
use crate::curve::{required_reserve, reserve_for};

verus! {

/// Declares `solana_program::pubkey::Pubkey`, which `anchor_lang::prelude`
/// re-exports, as a type whose values are carried and compared but never
/// looked into. Nothing is claimed of it.
#[verifier::external_type_specification]
#[verifier::external_body]
pub struct ExPubkey(anchor_lang::prelude::Pubkey);

/// The longest metadata URI, in bytes, that a pool stores.
pub const MAX_METADATA_LEN: usize = 200;

/// Number of bytes that a string takes when stored.
pub open spec fn byte_len(text: Seq<char>) -> nat {
    encode_utf8(text).len()
}

/// The pool of one asset.
#[derive(Debug, PartialEq, Eq)]
pub struct State {
    /// The mint address this curve is bound to.
    pub mint: Pubkey,
    /// Value held in reserve for the units in circulation.
    pub reserve: u64,
    /// Units minted so far and not yet burned.
    pub supply: u64,
    /// Price of the first unit.
    pub base_price: u64,
    /// By how much each further unit is dearer than the one before it.
    pub slope: u64,
    /// Where the asset's description is found; no meaning is read into it.
    pub metadata_uri: String,
}

impl Clone for State {
    fn clone(&self) -> (copy: Self)
        ensures
            copy == *self,
    {
        State {
            mint: self.mint,
            reserve: self.reserve,
            supply: self.supply,
            base_price: self.base_price,
            slope: self.slope,
            metadata_uri: self.metadata_uri.clone(),
        }
    }
}

impl State {
    /// The reserve is exactly what the supply cost to mint from zero.
    pub open spec fn reserve_matches_supply(&self) -> bool {
        self.reserve as int == reserve_for(
            self.supply as int,
            self.base_price as int,
            self.slope as int,
        )
    }

    /// The pool is one that trading from a fresh pool can have produced: the
    /// reserve matches the supply and the metadata is short enough to store.
    pub open spec fn wf(&self) -> bool {
        &&& self.reserve_matches_supply()
        &&& byte_len(self.metadata_uri@) <= MAX_METADATA_LEN
    }

    /// Whether the pool is consistent: whether its reserve is exactly what
    /// its supply calls for and its metadata is short enough to store.
    pub fn is_consistent(&self) -> (b: bool)
        ensures
            b == self.wf(),
    {
        if self.metadata_uri.as_str().as_bytes().len() > MAX_METADATA_LEN {
            return false;
        }
        match required_reserve(self.supply, self.base_price, self.slope) {
            Some(needed) => needed == self.reserve,
            None => false,
        }
    }

    /// The same pool with another supply and reserve.
    pub open spec fn with_balances(self, supply: u64, reserve: u64) -> State {
        State { supply, reserve, ..self }
    }
}

} // verus!
