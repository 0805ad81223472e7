//! Chain bootstrapping policy: how many blocks must be mined to an address
//! before the miner wallet holds a spendable balance. Coinbase rewards
//! mature only after a fixed depth of confirming blocks, so the bootstrap
//! mines one block more than that depth.

use vstd::prelude::*;

verus! {

/// Blocks that must confirm a coinbase output before it is spendable.
pub const COINBASE_MATURITY: u64 = 100;

/// The fixed number of blocks the bootstrap mines: one more than the
/// maturity depth, so exactly the first block's reward has matured.
pub fn bootstrap_block_count() -> (n: u64)
    ensures
        n == COINBASE_MATURITY + 1,
        spec_reward_spendable(n),
{
    101
}

/// After mining `mined` blocks to one address, does that address hold at
/// least one spendable (matured) coinbase reward?
pub open spec fn spec_reward_spendable(mined: u64) -> bool {
    mined > COINBASE_MATURITY
}

/// Exec mirror of `spec_reward_spendable`: the check a caller makes before
/// relying on the bootstrapped balance.
pub fn reward_spendable(mined: u64) -> (r: bool)
    ensures
        r == spec_reward_spendable(mined),
{
    mined > COINBASE_MATURITY
}

} // verus!
