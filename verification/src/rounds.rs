//! Rows for the stakes of the round-based staking contract: each stake
//! event becomes one row of text and 32-bit numbers.

use vstd::prelude::*;
use crate::primitives::{
    decimal_text, hex_text, render_address, render_amount, render_hash, Address, Amount, TxHash,
};

verus! {

/// The row of a stake that a staker placed on itself in a round.
#[derive(Clone, Debug, PartialEq, Eq)]
pub struct SelfStakeRow {
    pub round_id: i32,
    pub staker: String,
    pub amount: String,
    pub staked: bool,
    pub block_number: i32,
    pub tx_hash: String,
}

/// The row of a stake that a staker placed on another user in a round.
#[derive(Clone, Debug, PartialEq, Eq)]
pub struct XStakeRow {
    pub round_id: i32,
    pub staker: String,
    pub user: String,
    pub amount: String,
    pub staked: bool,
    pub block_number: i32,
    pub tx_hash: String,
}

/// The low 32 bits of a number, read as a signed number in two's
/// complement.
pub open spec fn low_bits_signed(value: nat) -> int {
    if value % 0x1_0000_0000 < 0x8000_0000 {
        (value % 0x1_0000_0000) as int
    } else {
        value % 0x1_0000_0000 - 0x1_0000_0000
    }
}

/// The row of a self stake: the round and the block as they are, the
/// staker and the transaction in hexadecimal, the amount in decimal. The
/// round and the block must fit the row's signed 32-bit columns.
pub fn self_stake_row(
    round_id: &Amount,
    staker: &Address,
    amount: &Amount,
    staked: bool,
    block_number: u32,
    transaction_hash: &TxHash,
) -> (row: SelfStakeRow)
    requires
        round_id@ <= i32::MAX,
        block_number <= i32::MAX,
    ensures
        row.round_id == round_id@,
        row.staker@ == hex_text(staker@),
        row.amount@ == decimal_text(amount@),
        row.staked == staked,
        row.block_number == block_number,
        row.tx_hash@ == hex_text(transaction_hash@),
{
    SelfStakeRow {
        round_id: round_id.limbs[0] as i32,
        staker: render_address(staker),
        amount: render_amount(amount),
        staked,
        block_number: block_number as i32,
        tx_hash: render_hash(transaction_hash),
    }
}

/// The row of a stake on another user. The round is cut to its low 32
/// bits and read as a signed number, whatever its size;
/// the block must fit the row's signed 32-bit column.
pub fn x_stake_row(
    round_id: &Amount,
    staker: &Address,
    user: &Address,
    amount: &Amount,
    staked: bool,
    block_number: u32,
    transaction_hash: &TxHash,
) -> (row: XStakeRow)
    requires
        block_number <= i32::MAX,
    ensures
        row.round_id == low_bits_signed(round_id@),
        row.staker@ == hex_text(staker@),
        row.user@ == hex_text(user@),
        row.amount@ == decimal_text(amount@),
        row.staked == staked,
        row.block_number == block_number,
        row.tx_hash@ == hex_text(transaction_hash@),
{
    let low: u64 = round_id.limbs[0] % 0x1_0000_0000;
    proof {
        let above = round_id.limbs@[1] * 0x1_0000_0000 + round_id.limbs@[2]
            * 0x1_0000_0000_0000_0000_0000_0000 + round_id.limbs@[3]
            * 0x1_0000_0000_0000_0000_0000_0000_0000_0000_0000_0000;
        assert(round_id@ == 0x1_0000_0000 * above + round_id.limbs@[0]);
        vstd::arithmetic::div_mod::lemma_mod_multiples_vanish(
            above,
            round_id.limbs@[0] as int,
            0x1_0000_0000,
        );
    }
    let round: i32 = if low < 0x8000_0000 {
        low as i32
    } else {
        (low as i64 - 0x1_0000_0000) as i32
    };
    XStakeRow {
        round_id: round,
        staker: render_address(staker),
        user: render_address(user),
        amount: render_amount(amount),
        staked,
        block_number: block_number as i32,
        tx_hash: render_hash(transaction_hash),
    }
}

} // verus!
