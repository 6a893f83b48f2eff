//! Decoded contract events and the ledger mutations they stand for.

use vstd::prelude::*;
use crate::primitives::{Address, Amount, Chain, TxHash};

verus! {

/// The kind of contract event behind a ledger mutation.
#[derive(Clone, Copy, Debug, PartialEq, Eq, Structural)]
pub enum StakeEventType {
    SelfStake,
    CommunityStake,
    SelfStakeWithdraw,
    CommunityStakeWithdraw,
    Slash,
    Release,
}

/// The direction in which an amount update moves a record's balance.
#[derive(Clone, Copy, Debug, PartialEq, Eq, Structural)]
pub enum StakeAmountOperation {
    Add,
    Subtract,
}

/// A staker locks tokens on itself.
#[derive(Clone, Copy, Debug, PartialEq, Eq)]
pub struct SelfStake {
    pub staker: Address,
    pub amount: Amount,
    pub unlock_time: u64,
    pub lock_duration: u64,
}

/// A staker locks tokens on behalf of a stakee.
#[derive(Clone, Copy, Debug, PartialEq, Eq)]
pub struct CommunityStake {
    pub staker: Address,
    pub stakee: Address,
    pub amount: Amount,
    pub unlock_time: u64,
    pub lock_duration: u64,
}

/// A staker takes back tokens it had locked on itself.
#[derive(Clone, Copy, Debug, PartialEq, Eq)]
pub struct SelfStakeWithdrawn {
    pub staker: Address,
    pub amount: Amount,
}

/// A staker takes back tokens it had locked on a stakee.
#[derive(Clone, Copy, Debug, PartialEq, Eq)]
pub struct CommunityStakeWithdrawn {
    pub staker: Address,
    pub stakee: Address,
    pub amount: Amount,
}

/// Part of a stake is withheld as a penalty.
#[derive(Clone, Copy, Debug, PartialEq, Eq)]
pub struct Slash {
    pub staker: Address,
    pub stakee: Address,
    pub amount: Amount,
}

/// Previously withheld tokens return to a stake.
#[derive(Clone, Copy, Debug, PartialEq, Eq)]
pub struct Release {
    pub staker: Address,
    pub stakee: Address,
    pub amount: Amount,
}

/// One decoded log of the staking contract.
#[derive(Clone, Copy, Debug, PartialEq, Eq)]
pub enum DecodedEvent {
    SelfStake(SelfStake),
    CommunityStake(CommunityStake),
    SelfStakeWithdrawn(SelfStakeWithdrawn),
    CommunityStakeWithdrawn(CommunityStakeWithdrawn),
    Slash(Slash),
    Release(Release),
    /// Any other log of the contract; it changes no stake.
    Other,
}

/// Where a log comes from: its block and its transaction.
#[derive(Clone, Copy, Debug, PartialEq, Eq)]
pub struct LogMeta {
    pub block_number: u64,
    pub transaction_hash: TxHash,
}

/// What identifies a ledger record.
pub struct StakeKey {
    pub chain: u64,
    pub staker: Seq<u8>,
    pub stakee: Seq<u8>,
}

/// The key of the record that holds what `staker` staked on `stakee` on
/// `chain`.
pub open spec fn stake_key(chain: Chain, staker: Address, stakee: Address) -> StakeKey {
    StakeKey { chain: chain.id, staker: staker@, stakee: stakee@ }
}

/// Request to add to a stake and push its lock out, creating the record if
/// there is none yet.
#[derive(Clone, Debug, PartialEq, Eq)]
pub struct StakeExtension {
    pub event_type: StakeEventType,
    pub chain: Chain,
    pub staker: Address,
    pub stakee: Address,
    pub amount: Amount,
    pub unlock_time: u64,
    pub lock_duration: u64,
    pub block_number: u64,
    pub tx_hash: String,
}

/// Request to move the balance of an existing stake up or down.
#[derive(Clone, Debug, PartialEq, Eq)]
pub struct AmountUpdate {
    pub event_type: StakeEventType,
    pub chain: Chain,
    pub staker: Address,
    pub stakee: Address,
    pub amount: Amount,
    pub operation: StakeAmountOperation,
    pub block_number: u64,
    pub tx_hash: String,
}

/// The single mutation that an event asks of the ledger.
#[derive(Clone, Debug, PartialEq, Eq)]
pub enum LedgerCommand {
    AddOrExtend(StakeExtension),
    UpdateAmount(AmountUpdate),
}

/// A [`StakeExtension`] as plain mathematics.
pub struct ExtensionView {
    pub event_type: StakeEventType,
    pub key: StakeKey,
    pub amount: nat,
    pub unlock_time: u64,
    pub lock_duration: u64,
    pub block_number: u64,
    pub tx_hash: Seq<char>,
}

/// An [`AmountUpdate`] as plain mathematics.
pub struct UpdateView {
    pub event_type: StakeEventType,
    pub key: StakeKey,
    pub amount: nat,
    pub operation: StakeAmountOperation,
    pub block_number: u64,
    pub tx_hash: Seq<char>,
}

/// A [`LedgerCommand`] as plain mathematics.
pub enum CommandView {
    AddOrExtend(ExtensionView),
    UpdateAmount(UpdateView),
}

impl CommandView {
    /// The record that the command is about.
    pub open spec fn key(self) -> StakeKey {
        match self {
            CommandView::AddOrExtend(request) => request.key,
            CommandView::UpdateAmount(request) => request.key,
        }
    }

    /// The amount that the command moves.
    pub open spec fn amount(self) -> nat {
        match self {
            CommandView::AddOrExtend(request) => request.amount,
            CommandView::UpdateAmount(request) => request.amount,
        }
    }

    /// The block of the event behind the command.
    pub open spec fn block_number(self) -> u64 {
        match self {
            CommandView::AddOrExtend(request) => request.block_number,
            CommandView::UpdateAmount(request) => request.block_number,
        }
    }
}

impl View for StakeExtension {
    type V = ExtensionView;

    open spec fn view(&self) -> ExtensionView {
        ExtensionView {
            event_type: self.event_type,
            key: stake_key(self.chain, self.staker, self.stakee),
            amount: self.amount@,
            unlock_time: self.unlock_time,
            lock_duration: self.lock_duration,
            block_number: self.block_number,
            tx_hash: self.tx_hash@,
        }
    }
}

impl View for AmountUpdate {
    type V = UpdateView;

    open spec fn view(&self) -> UpdateView {
        UpdateView {
            event_type: self.event_type,
            key: stake_key(self.chain, self.staker, self.stakee),
            amount: self.amount@,
            operation: self.operation,
            block_number: self.block_number,
            tx_hash: self.tx_hash@,
        }
    }
}

impl View for LedgerCommand {
    type V = CommandView;

    open spec fn view(&self) -> CommandView {
        match self {
            LedgerCommand::AddOrExtend(request) => CommandView::AddOrExtend(request@),
            LedgerCommand::UpdateAmount(request) => CommandView::UpdateAmount(request@),
        }
    }
}

/// The request that adds `amount` to the stake of `staker` on `stakee` and
/// extends its lock.
pub open spec fn extension(
    event_type: StakeEventType,
    chain: Chain,
    staker: Address,
    stakee: Address,
    amount: Amount,
    unlock_time: u64,
    lock_duration: u64,
    block_number: u64,
    tx_hash: Seq<char>,
) -> CommandView {
    CommandView::AddOrExtend(
        ExtensionView {
            event_type,
            key: stake_key(chain, staker, stakee),
            amount: amount@,
            unlock_time,
            lock_duration,
            block_number,
            tx_hash,
        },
    )
}

/// The request that moves the stake of `staker` on `stakee` by `amount`.
pub open spec fn update(
    event_type: StakeEventType,
    chain: Chain,
    staker: Address,
    stakee: Address,
    amount: Amount,
    operation: StakeAmountOperation,
    block_number: u64,
    tx_hash: Seq<char>,
) -> CommandView {
    CommandView::UpdateAmount(
        UpdateView {
            event_type,
            key: stake_key(chain, staker, stakee),
            amount: amount@,
            operation,
            block_number,
            tx_hash,
        },
    )
}

/// The dispatch table: the one mutation that each event asks for, and none
/// for an event that changes no stake. A self event is keyed by the staker
/// on both sides.
pub open spec fn command_of(
    event: DecodedEvent,
    chain: Chain,
    block_number: u64,
    tx_hash: Seq<char>,
) -> Option<CommandView> {
    match event {
        DecodedEvent::SelfStake(e) => Some(
            extension(
                StakeEventType::SelfStake,
                chain,
                e.staker,
                e.staker,
                e.amount,
                e.unlock_time,
                e.lock_duration,
                block_number,
                tx_hash,
            ),
        ),
        DecodedEvent::CommunityStake(e) => Some(
            extension(
                StakeEventType::CommunityStake,
                chain,
                e.staker,
                e.stakee,
                e.amount,
                e.unlock_time,
                e.lock_duration,
                block_number,
                tx_hash,
            ),
        ),
        DecodedEvent::SelfStakeWithdrawn(e) => Some(
            update(
                StakeEventType::SelfStakeWithdraw,
                chain,
                e.staker,
                e.staker,
                e.amount,
                StakeAmountOperation::Subtract,
                block_number,
                tx_hash,
            ),
        ),
        DecodedEvent::CommunityStakeWithdrawn(e) => Some(
            update(
                StakeEventType::CommunityStakeWithdraw,
                chain,
                e.staker,
                e.stakee,
                e.amount,
                StakeAmountOperation::Subtract,
                block_number,
                tx_hash,
            ),
        ),
        DecodedEvent::Slash(e) => Some(
            update(
                StakeEventType::Slash,
                chain,
                e.staker,
                e.stakee,
                e.amount,
                StakeAmountOperation::Subtract,
                block_number,
                tx_hash,
            ),
        ),
        DecodedEvent::Release(e) => Some(
            update(
                StakeEventType::Release,
                chain,
                e.staker,
                e.stakee,
                e.amount,
                StakeAmountOperation::Add,
                block_number,
                tx_hash,
            ),
        ),
        DecodedEvent::Other => None,
    }
}

impl SelfStake {
    /// The mutation for a self stake seen in the given block and transaction.
    pub fn command(&self, chain: &Chain, block_number: u64, tx_hash: &String) -> (command:
        LedgerCommand)
        ensures
            Some(command@) == command_of(
                DecodedEvent::SelfStake(*self),
                *chain,
                block_number,
                tx_hash@,
            ),
    {
        LedgerCommand::AddOrExtend(
            StakeExtension {
                event_type: StakeEventType::SelfStake,
                chain: *chain,
                staker: self.staker,
                stakee: self.staker,
                amount: self.amount,
                unlock_time: self.unlock_time,
                lock_duration: self.lock_duration,
                block_number,
                tx_hash: tx_hash.clone(),
            },
        )
    }
}

impl CommunityStake {
    /// The mutation for a community stake seen in the given block and
    /// transaction.
    pub fn command(&self, chain: &Chain, block_number: u64, tx_hash: &String) -> (command:
        LedgerCommand)
        ensures
            Some(command@) == command_of(
                DecodedEvent::CommunityStake(*self),
                *chain,
                block_number,
                tx_hash@,
            ),
    {
        LedgerCommand::AddOrExtend(
            StakeExtension {
                event_type: StakeEventType::CommunityStake,
                chain: *chain,
                staker: self.staker,
                stakee: self.stakee,
                amount: self.amount,
                unlock_time: self.unlock_time,
                lock_duration: self.lock_duration,
                block_number,
                tx_hash: tx_hash.clone(),
            },
        )
    }
}

impl SelfStakeWithdrawn {
    /// The mutation for a self stake withdrawal seen in the given block and
    /// transaction.
    pub fn command(&self, chain: &Chain, block_number: u64, tx_hash: &String) -> (command:
        LedgerCommand)
        ensures
            Some(command@) == command_of(
                DecodedEvent::SelfStakeWithdrawn(*self),
                *chain,
                block_number,
                tx_hash@,
            ),
    {
        LedgerCommand::UpdateAmount(
            AmountUpdate {
                event_type: StakeEventType::SelfStakeWithdraw,
                chain: *chain,
                staker: self.staker,
                stakee: self.staker,
                amount: self.amount,
                operation: StakeAmountOperation::Subtract,
                block_number,
                tx_hash: tx_hash.clone(),
            },
        )
    }
}

impl CommunityStakeWithdrawn {
    /// The mutation for a community stake withdrawal seen in the given block
    /// and transaction.
    pub fn command(&self, chain: &Chain, block_number: u64, tx_hash: &String) -> (command:
        LedgerCommand)
        ensures
            Some(command@) == command_of(
                DecodedEvent::CommunityStakeWithdrawn(*self),
                *chain,
                block_number,
                tx_hash@,
            ),
    {
        LedgerCommand::UpdateAmount(
            AmountUpdate {
                event_type: StakeEventType::CommunityStakeWithdraw,
                chain: *chain,
                staker: self.staker,
                stakee: self.stakee,
                amount: self.amount,
                operation: StakeAmountOperation::Subtract,
                block_number,
                tx_hash: tx_hash.clone(),
            },
        )
    }
}

impl Slash {
    /// The mutation for a slash seen in the given block and transaction.
    pub fn command(&self, chain: &Chain, block_number: u64, tx_hash: &String) -> (command:
        LedgerCommand)
        ensures
            Some(command@) == command_of(
                DecodedEvent::Slash(*self),
                *chain,
                block_number,
                tx_hash@,
            ),
    {
        LedgerCommand::UpdateAmount(
            AmountUpdate {
                event_type: StakeEventType::Slash,
                chain: *chain,
                staker: self.staker,
                stakee: self.stakee,
                amount: self.amount,
                operation: StakeAmountOperation::Subtract,
                block_number,
                tx_hash: tx_hash.clone(),
            },
        )
    }
}

impl Release {
    /// The mutation for a release seen in the given block and transaction.
    pub fn command(&self, chain: &Chain, block_number: u64, tx_hash: &String) -> (command:
        LedgerCommand)
        ensures
            Some(command@) == command_of(
                DecodedEvent::Release(*self),
                *chain,
                block_number,
                tx_hash@,
            ),
    {
        LedgerCommand::UpdateAmount(
            AmountUpdate {
                event_type: StakeEventType::Release,
                chain: *chain,
                staker: self.staker,
                stakee: self.stakee,
                amount: self.amount,
                operation: StakeAmountOperation::Add,
                block_number,
                tx_hash: tx_hash.clone(),
            },
        )
    }
}

impl DecodedEvent {
    /// The mutation that this event asks of the ledger, if it asks for one.
    pub fn command(&self, chain: &Chain, block_number: u64, tx_hash: &String) -> (command: Option<
        LedgerCommand,
    >)
        ensures
            match command {
                Some(c) => Some(c@) == command_of(*self, *chain, block_number, tx_hash@),
                None => command_of(*self, *chain, block_number, tx_hash@).is_none(),
            },
    {
        match self {
            DecodedEvent::SelfStake(e) => Some(e.command(chain, block_number, tx_hash)),
            DecodedEvent::CommunityStake(e) => Some(e.command(chain, block_number, tx_hash)),
            DecodedEvent::SelfStakeWithdrawn(e) => Some(e.command(chain, block_number, tx_hash)),
            DecodedEvent::CommunityStakeWithdrawn(e) => Some(
                e.command(chain, block_number, tx_hash),
            ),
            DecodedEvent::Slash(e) => Some(e.command(chain, block_number, tx_hash)),
            DecodedEvent::Release(e) => Some(e.command(chain, block_number, tx_hash)),
            DecodedEvent::Other => None,
        }
    }
}

} // verus!
