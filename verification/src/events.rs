//! The closed set of events the target program's decoder can recognize.
//! Decoding the raw instruction bytes into one of these is the decoder's
//! business; this library consumes the typed result and turns it into
//! output rows.

use vstd::prelude::*;

verus! {

/// Mint parameters attached to a pool-creation event.
#[derive(Debug, PartialEq, Eq)]
pub struct MintParams {
    pub name: String,
    pub symbol: String,
    pub uri: String,
    pub decimals: u32,
}

/// Vesting parameters attached to a pool-creation event.
#[derive(Debug, PartialEq, Eq)]
pub struct VestingParams {
    pub total_locked_amount: u64,
    pub cliff_period: u64,
    pub unlock_period: u64,
}

/// A new pool was created.
#[derive(Debug, PartialEq, Eq)]
pub struct PoolCreateEvent {
    pub trx_hash: String,
    pub platform_id: String,
    pub pool_state: String,
    pub creator: String,
    pub config: String,
    pub base_mint_param: MintParams,
    pub curve_param: u64,
    pub vesting_param: VestingParams,
}

/// A trade ran against a pool.
#[derive(Debug, PartialEq, Eq)]
pub struct TradeEvent {
    pub trx_hash: String,
    pub platform_id: String,
    pub total_base_sell: u64,
    pub virtual_base: u64,
    pub virtual_quote: u64,
    pub real_base_before: u64,
    pub real_quote_before: u64,
    pub real_base_after: u64,
    pub real_quote_after: u64,
    pub amount_in: u64,
    pub amount_out: u64,
    pub protocol_fee: u64,
    pub platform_fee: u64,
    pub share_fee: u64,
    pub trade_direction: i32,
    pub pool_status: i32,
}

/// A vesting schedule was created.
#[derive(Debug, PartialEq, Eq)]
pub struct CreateVestingEvent {
    pub trx_hash: String,
    pub pool_state: String,
    pub beneficiary: String,
    pub share_amount: u64,
}

/// Vested shares were claimed.
#[derive(Debug, PartialEq, Eq)]
pub struct ClaimVestedEvent {
    pub trx_hash: String,
    pub pool_state: String,
    pub beneficiary: String,
    pub claim_amount: u64,
}

/// One decoded event of the target program.
#[derive(Debug, PartialEq, Eq)]
pub enum FrensEvent {
    PoolCreate(PoolCreateEvent),
    Trade(TradeEvent),
    CreateVesting(CreateVestingEvent),
    ClaimVested(ClaimVestedEvent),
}

} // verus!
