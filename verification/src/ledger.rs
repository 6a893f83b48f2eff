//! The stake ledger: one record per (chain, staker, stakee), changed only by
//! the two mutations that events ask for, and for each chain the cursor,
//! the highest block of any event carried out.

use std::collections::HashMap;
use vstd::prelude::*;
use crate::events::{
    stake_key, AmountUpdate, CommandView, ExtensionView, LedgerCommand, StakeAmountOperation,
    StakeExtension, StakeKey, UpdateView,
};
use crate::primitives::{
    amount_checked_add, amount_checked_sub, amount_limit, Address, Amount, Chain,
};

verus! {

/// Why the ledger turned a mutation down. A mutation that is turned down
/// leaves the ledger as it was.
#[derive(Clone, Copy, Debug, PartialEq, Eq, Structural)]
pub enum LedgerError {
    /// The balance would no longer fit in 256 bits.
    AmountOverflow,
    /// An amount update names a pair that never staked.
    UnknownRecord,
    /// A subtraction asks for more than the record holds.
    InsufficientBalance,
}

/// The accumulated stake of one staker on one stakee, with the block and the
/// transaction of the event applied to it last.
#[derive(Clone, Debug, PartialEq, Eq)]
pub struct StakeRecord {
    pub chain: Chain,
    pub staker: Address,
    pub stakee: Address,
    pub amount: Amount,
    pub unlock_time: u64,
    pub lock_duration: u64,
    pub block_number: u64,
    pub tx_hash: String,
}

/// A [`StakeRecord`] as plain mathematics.
pub struct RecordView {
    pub key: StakeKey,
    pub amount: nat,
    pub unlock_time: u64,
    pub lock_duration: u64,
    pub block_number: u64,
    pub tx_hash: Seq<char>,
}

impl View for StakeRecord {
    type V = RecordView;

    open spec fn view(&self) -> RecordView {
        RecordView {
            key: stake_key(self.chain, self.staker, self.stakee),
            amount: self.amount@,
            unlock_time: self.unlock_time,
            lock_duration: self.lock_duration,
            block_number: self.block_number,
            tx_hash: self.tx_hash@,
        }
    }
}

/// The greater of two numbers.
pub open spec fn greater(a: u64, b: u64) -> u64 {
    if a >= b {
        a
    } else {
        b
    }
}

/// Whether some record has the given key.
pub open spec fn holds(records: Seq<RecordView>, key: StakeKey) -> bool {
    exists|i: int| 0 <= i < records.len() && #[trigger] records[i].key == key
}

/// Where the record with the given key stands, if there is one.
pub open spec fn position(records: Seq<RecordView>, key: StakeKey) -> int {
    choose|i: int| 0 <= i < records.len() && #[trigger] records[i].key == key
}

/// No two records share a key.
pub open spec fn distinct_keys(records: Seq<RecordView>) -> bool {
    forall|i: int, j: int|
        0 <= i < j < records.len() ==> (#[trigger] records[i]).key != (#[trigger] records[j]).key
}

/// The balance recorded under a key; a pair that never staked has none.
pub open spec fn balance(records: Seq<RecordView>, key: StakeKey) -> nat {
    if holds(records, key) {
        records[position(records, key)].amount
    } else {
        0
    }
}

/// The record that a first stake opens.
pub open spec fn opened(request: ExtensionView) -> RecordView {
    RecordView {
        key: request.key,
        amount: request.amount,
        unlock_time: request.unlock_time,
        lock_duration: request.lock_duration,
        block_number: request.block_number,
        tx_hash: request.tx_hash,
    }
}

/// A record after a further stake: the amount is added, the unlock time and
/// the lock duration each move to the greater of old and new, and the
/// provenance is that of the new event.
pub open spec fn extended(record: RecordView, request: ExtensionView) -> RecordView {
    RecordView {
        key: record.key,
        amount: record.amount + request.amount,
        unlock_time: greater(record.unlock_time, request.unlock_time),
        lock_duration: greater(record.lock_duration, request.lock_duration),
        block_number: request.block_number,
        tx_hash: request.tx_hash,
    }
}

/// A record after its balance moved to `amount` under the given update.
pub open spec fn adjusted(record: RecordView, amount: nat, request: UpdateView) -> RecordView {
    RecordView {
        key: record.key,
        amount,
        unlock_time: record.unlock_time,
        lock_duration: record.lock_duration,
        block_number: request.block_number,
        tx_hash: request.tx_hash,
    }
}

/// The ledger as plain mathematics: the records, and for each chain that
/// has seen an event the highest block of any event carried out.
pub struct LedgerView {
    pub records: Seq<RecordView>,
    pub cursors: Map<u64, u64>,
}

/// The cursor of a chain: the highest block of any event carried out for
/// it, and 0 while none has been.
pub open spec fn high_water(state: LedgerView, chain: u64) -> u64 {
    if state.cursors.dom().contains(chain) {
        state.cursors[chain]
    } else {
        0
    }
}

/// The ledger once a command has been carried out: the records as the
/// command leaves them, and the cursor of the command's chain at the
/// greater of where it stood and the command's block.
pub open spec fn carried_out(
    state: LedgerView,
    records: Seq<RecordView>,
    command: CommandView,
) -> LedgerView {
    LedgerView {
        records,
        cursors: state.cursors.insert(
            command.key().chain,
            greater(high_water(state, command.key().chain), command.block_number()),
        ),
    }
}

/// The ledger's invariant: one record per key, every balance within 256
/// bits, and no record from a block above the cursor of its chain.
pub open spec fn well_formed(state: LedgerView) -> bool {
    &&& distinct_keys(state.records)
    &&& forall|i: int|
        0 <= i < state.records.len() ==> (#[trigger] state.records[i]).amount < amount_limit()
    &&& forall|i: int|
        0 <= i < state.records.len() ==> (#[trigger] state.records[i]).block_number <= high_water(
            state,
            state.records[i].key.chain,
        )
}

/// What adding or extending a stake does: a new record for a pair that has
/// none, else the extended record in its place; turned down when the
/// balance would overflow.
pub open spec fn extend_outcome(state: LedgerView, request: ExtensionView) -> Result<
    LedgerView,
    LedgerError,
> {
    let records = state.records;
    let command = CommandView::AddOrExtend(request);
    if holds(records, request.key) {
        let at = position(records, request.key);
        if records[at].amount + request.amount >= amount_limit() {
            Err(LedgerError::AmountOverflow)
        } else {
            Ok(carried_out(state, records.update(at, extended(records[at], request)), command))
        }
    } else {
        Ok(carried_out(state, records.push(opened(request)), command))
    }
}

/// What an amount update does: the balance of an existing record moves up
/// or down; turned down for an unknown pair, for a sum that would
/// overflow, and for a subtraction beyond the balance.
pub open spec fn update_outcome(state: LedgerView, request: UpdateView) -> Result<
    LedgerView,
    LedgerError,
> {
    let records = state.records;
    let command = CommandView::UpdateAmount(request);
    if !holds(records, request.key) {
        Err(LedgerError::UnknownRecord)
    } else {
        let at = position(records, request.key);
        match request.operation {
            StakeAmountOperation::Add => if records[at].amount + request.amount >= amount_limit() {
                Err(LedgerError::AmountOverflow)
            } else {
                Ok(
                    carried_out(
                        state,
                        records.update(
                            at,
                            adjusted(records[at], records[at].amount + request.amount, request),
                        ),
                        command,
                    ),
                )
            },
            StakeAmountOperation::Subtract => if request.amount > records[at].amount {
                Err(LedgerError::InsufficientBalance)
            } else {
                Ok(
                    carried_out(
                        state,
                        records.update(
                            at,
                            adjusted(
                                records[at],
                                (records[at].amount - request.amount) as nat,
                                request,
                            ),
                        ),
                        command,
                    ),
                )
            },
        }
    }
}

/// What a command does to the ledger, or why it is turned down.
pub open spec fn outcome(state: LedgerView, command: CommandView) -> Result<
    LedgerView,
    LedgerError,
> {
    match command {
        CommandView::AddOrExtend(request) => extend_outcome(state, request),
        CommandView::UpdateAmount(request) => update_outcome(state, request),
    }
}

/// What the ledger answers to the caller: that the mutation was carried
/// out, or why it was turned down.
pub open spec fn answer(outcome: Result<LedgerView, LedgerError>) -> Result<(), LedgerError> {
    match outcome {
        Ok(_) => Ok(()),
        Err(error) => Err(error),
    }
}

/// The ledger once a command has been tried: changed as the command asks,
/// or untouched, cursor included, where it is turned down.
pub open spec fn settled(state: LedgerView, command: CommandView) -> LedgerView {
    match outcome(state, command) {
        Ok(after) => after,
        Err(_) => state,
    }
}

/// The ledger, held in memory.
#[derive(Debug)]
pub struct Ledger {
    records: Vec<StakeRecord>,
    cursors: HashMap<u64, u64>,
}

impl View for Ledger {
    type V = LedgerView;

    closed spec fn view(&self) -> LedgerView {
        LedgerView {
            records: self.records@.map_values(|record: StakeRecord| record@),
            cursors: self.cursors@,
        }
    }
}

impl Ledger {
    /// The ledger's invariant, [`well_formed`].
    pub open spec fn wf(&self) -> bool {
        well_formed(self@)
    }

    /// A ledger without records, every cursor at 0.
    pub fn new() -> (ledger: Ledger)
        ensures
            ledger.wf(),
            ledger@.records == Seq::<RecordView>::empty(),
            ledger@.cursors == Map::<u64, u64>::empty(),
    {
        broadcast use vstd::std_specs::hash::group_hash_axioms;

        let ledger = Ledger { records: Vec::new(), cursors: HashMap::new() };
        assert(ledger@.records =~= Seq::<RecordView>::empty());
        ledger
    }

    /// The number of records.
    pub fn len(&self) -> (count: usize)
        ensures
            count == self@.records.len(),
    {
        self.records.len()
    }

    fn find(&self, chain: &Chain, staker: &Address, stakee: &Address) -> (found: Option<usize>)
        requires
            self.wf(),
        ensures
            match found {
                Some(at) => holds(self@.records, stake_key(*chain, *staker, *stakee)) && at
                    == position(self@.records, stake_key(*chain, *staker, *stakee)) && at
                    < self.records.len(),
                None => !holds(self@.records, stake_key(*chain, *staker, *stakee)),
            },
    {
        let ghost key = stake_key(*chain, *staker, *stakee);
        let mut i: usize = 0;
        while i < self.records.len()
            invariant
                i <= self.records.len(),
                self.wf(),
                key == stake_key(*chain, *staker, *stakee),
                forall|j: int| 0 <= j < i ==> (#[trigger] self@.records[j]).key != key,
            decreases self.records.len() - i,
        {
            let record = &self.records[i];
            if record.chain == *chain && record.staker == *staker && record.stakee == *stakee {
                assert(self@.records[i as int].key == key);
                return Some(i);
            }
            i += 1;
        }
        None
    }

    /// Moves the cursor of a chain up to a block, if it stands below it.
    fn mark(&mut self, chain: &Chain, block_number: u64)
        ensures
            final(self).records == old(self).records,
            final(self).cursors@ == old(self).cursors@.insert(
                chain.id,
                greater(high_water(old(self)@, chain.id), block_number),
            ),
    {
        broadcast use vstd::std_specs::hash::group_hash_axioms;

        let seen = match self.cursors.get(&chain.id) {
            Some(block) => *block,
            None => 0,
        };
        let next = if seen >= block_number {
            seen
        } else {
            block_number
        };
        self.cursors.insert(chain.id, next);
    }

    /// The record of a pair, if the pair ever staked.
    pub fn record(&self, chain: &Chain, staker: &Address, stakee: &Address) -> (found: Option<
        StakeRecord,
    >)
        requires
            self.wf(),
        ensures
            match found {
                Some(record) => holds(self@.records, stake_key(*chain, *staker, *stakee))
                    && record@ == self@.records[position(
                    self@.records,
                    stake_key(*chain, *staker, *stakee),
                )],
                None => !holds(self@.records, stake_key(*chain, *staker, *stakee)),
            },
    {
        match self.find(chain, staker, stakee) {
            Some(at) => {
                let record = &self.records[at];
                Some(
                    StakeRecord {
                        chain: record.chain,
                        staker: record.staker,
                        stakee: record.stakee,
                        amount: record.amount,
                        unlock_time: record.unlock_time,
                        lock_duration: record.lock_duration,
                        block_number: record.block_number,
                        tx_hash: record.tx_hash.clone(),
                    },
                )
            },
            None => None,
        }
    }

    /// Adds to the stake of a pair and pushes its lock out, opening the
    /// record on the pair's first stake.
    pub fn add_or_extend_stake(&mut self, request: &StakeExtension) -> (result: Result<
        (),
        LedgerError,
    >)
        requires
            old(self).wf(),
        ensures
            final(self).wf(),
            final(self)@ == settled(old(self)@, CommandView::AddOrExtend(request@)),
            result == answer(extend_outcome(old(self)@, request@)),
            forall|chain: u64|
                high_water(old(self)@, chain) <= #[trigger] high_water(final(self)@, chain),
    {
        let result = match self.find(&request.chain, &request.staker, &request.stakee) {
            Some(at) => {
                let record = &self.records[at];
                match amount_checked_add(&record.amount, &request.amount) {
                    Some(total) => {
                        let unlock_time = if record.unlock_time >= request.unlock_time {
                            record.unlock_time
                        } else {
                            request.unlock_time
                        };
                        let lock_duration = if record.lock_duration >= request.lock_duration {
                            record.lock_duration
                        } else {
                            request.lock_duration
                        };
                        let next = StakeRecord {
                            chain: record.chain,
                            staker: record.staker,
                            stakee: record.stakee,
                            amount: total,
                            unlock_time,
                            lock_duration,
                            block_number: request.block_number,
                            tx_hash: request.tx_hash.clone(),
                        };
                        self.records[at] = next;
                        assert(self@.records =~= old(self)@.records.update(
                            at as int,
                            extended(old(self)@.records[at as int], request@),
                        ));
                        Ok(())
                    },
                    None => Err(LedgerError::AmountOverflow),
                }
            },
            None => {
                let first = StakeRecord {
                    chain: request.chain,
                    staker: request.staker,
                    stakee: request.stakee,
                    amount: request.amount,
                    unlock_time: request.unlock_time,
                    lock_duration: request.lock_duration,
                    block_number: request.block_number,
                    tx_hash: request.tx_hash.clone(),
                };
                self.records.push(first);
                assert(self@.records =~= old(self)@.records.push(opened(request@)));
                Ok(())
            },
        };
        if result.is_ok() {
            self.mark(&request.chain, request.block_number);
        }
        proof {
            lemma_cursor_is_high_water(old(self)@, CommandView::AddOrExtend(request@));
        }
        result
    }

    /// Moves the balance of an existing record up or down.
    pub fn update_stake_amount(&mut self, request: &AmountUpdate) -> (result: Result<
        (),
        LedgerError,
    >)
        requires
            old(self).wf(),
        ensures
            final(self).wf(),
            final(self)@ == settled(old(self)@, CommandView::UpdateAmount(request@)),
            result == answer(update_outcome(old(self)@, request@)),
            forall|chain: u64|
                high_water(old(self)@, chain) <= #[trigger] high_water(final(self)@, chain),
    {
        let result = match self.find(&request.chain, &request.staker, &request.stakee) {
            Some(at) => {
                let record = &self.records[at];
                let moved = match request.operation {
                    StakeAmountOperation::Add => amount_checked_add(
                        &record.amount,
                        &request.amount,
                    ),
                    StakeAmountOperation::Subtract => amount_checked_sub(
                        &record.amount,
                        &request.amount,
                    ),
                };
                match moved {
                    Some(amount) => {
                        let next = StakeRecord {
                            chain: record.chain,
                            staker: record.staker,
                            stakee: record.stakee,
                            amount,
                            unlock_time: record.unlock_time,
                            lock_duration: record.lock_duration,
                            block_number: request.block_number,
                            tx_hash: request.tx_hash.clone(),
                        };
                        self.records[at] = next;
                        assert(self@.records =~= old(self)@.records.update(
                            at as int,
                            adjusted(old(self)@.records[at as int], amount@, request@),
                        ));
                        Ok(())
                    },
                    None => match request.operation {
                        StakeAmountOperation::Add => Err(LedgerError::AmountOverflow),
                        StakeAmountOperation::Subtract => Err(LedgerError::InsufficientBalance),
                    },
                }
            },
            None => Err(LedgerError::UnknownRecord),
        };
        if result.is_ok() {
            self.mark(&request.chain, request.block_number);
        }
        proof {
            lemma_cursor_is_high_water(old(self)@, CommandView::UpdateAmount(request@));
        }
        result
    }

    /// Carries out one command.
    pub fn apply(&mut self, command: &LedgerCommand) -> (result: Result<(), LedgerError>)
        requires
            old(self).wf(),
        ensures
            final(self).wf(),
            final(self)@ == settled(old(self)@, command@),
            result == answer(outcome(old(self)@, command@)),
            forall|chain: u64|
                high_water(old(self)@, chain) <= #[trigger] high_water(final(self)@, chain),
    {
        match command {
            LedgerCommand::AddOrExtend(request) => self.add_or_extend_stake(request),
            LedgerCommand::UpdateAmount(request) => self.update_stake_amount(request),
        }
    }

    /// The cursor of a chain: the highest block of any event carried out
    /// for it, and 0 while none has been.
    pub fn latest_block(&self, chain: &Chain) -> (block: u64)
        ensures
            block == high_water(self@, chain.id),
    {
        broadcast use vstd::std_specs::hash::group_hash_axioms;

        match self.cursors.get(&chain.id) {
            Some(block) => *block,
            None => 0,
        }
    }
}

/// With one record per key, a key found at some place stands there and
/// nowhere else.
pub proof fn lemma_position(records: Seq<RecordView>, key: StakeKey, at: int)
    requires
        distinct_keys(records),
        0 <= at < records.len(),
        records[at].key == key,
    ensures
        holds(records, key),
        position(records, key) == at,
        balance(records, key) == records[at].amount,
{
}

/// What a command leaves of the records: still one record per key; every
/// record but the one the command is about as it was; no record gone; and
/// at most one record more, opened for the command's key. The record the
/// command is about is as it was, or bears the command's block.
pub proof fn lemma_settled_shape(state: LedgerView, command: CommandView)
    requires
        distinct_keys(state.records),
    ensures
        distinct_keys(settled(state, command).records),
        settled(state, command).records.len() >= state.records.len(),
        settled(state, command).records.len() <= state.records.len() + 1,
        forall|i: int|
            0 <= i < state.records.len() ==> (#[trigger] settled(state, command).records[i]).key
                == state.records[i].key,
        forall|i: int|
            0 <= i < state.records.len() && state.records[i].key != command.key()
                ==> #[trigger] settled(state, command).records[i] == state.records[i],
        forall|i: int|
            state.records.len() <= i < settled(state, command).records.len() ==> (
            #[trigger] settled(state, command).records[i]).key == command.key() && settled(
                state,
                command,
            ).records[i].block_number == command.block_number(),
        forall|i: int|
            0 <= i < state.records.len() && state.records[i].key == command.key()
                ==> #[trigger] settled(state, command).records[i] == state.records[i] || settled(
                state,
                command,
            ).records[i].block_number == command.block_number(),
{
    let after = settled(state, command).records;
    if holds(state.records, command.key()) {
        assert forall|i: int|
            0 <= i < state.records.len() && state.records[i].key == command.key()
                implies #[trigger] after[i] == state.records[i] || after[i].block_number
            == command.block_number() by {
            lemma_position(state.records, command.key(), i);
        }
    }
}

/// The cursor is a high-water mark. Whatever the command and whatever its
/// block, no chain's cursor is lower afterwards than before. A command
/// that is carried out leaves the cursor of its chain at the greater of
/// where it stood and the command's block; a command that is turned down
/// leaves the whole ledger as it was; and the cursor of every other chain
/// stays where it is. The invariant holds on. The command's amount is one
/// that 256 bits can hold, as every amount of an event is.
pub proof fn lemma_cursor_is_high_water(state: LedgerView, command: CommandView)
    requires
        well_formed(state),
        command.amount() < amount_limit(),
    ensures
        well_formed(settled(state, command)),
        forall|chain: u64|
            high_water(state, chain) <= #[trigger] high_water(settled(state, command), chain),
        forall|chain: u64|
            chain != command.key().chain ==> #[trigger] high_water(settled(state, command), chain)
                == high_water(state, chain),
        outcome(state, command).is_ok() ==> high_water(
            settled(state, command),
            command.key().chain,
        ) == greater(high_water(state, command.key().chain), command.block_number()),
        outcome(state, command).is_err() ==> settled(state, command) == state,
{
    let after = settled(state, command);
    lemma_settled_shape(state, command);
    assert forall|i: int| 0 <= i < after.records.len() implies (
    #[trigger] after.records[i]).block_number <= high_water(after, after.records[i].key.chain) by {
        if i < state.records.len() {
            assert(state.records[i].block_number <= high_water(
                state,
                state.records[i].key.chain,
            ));
        }
    }
}

/// Stakes add up: the ledger keeps no trace of which events it has seen,
/// so the same stake applied twice counts twice. Each time the stake is
/// either carried out, and the balance grows by exactly its amount, or
/// turned down because the balance would leave 256 bits, and the ledger
/// stays as it was; nothing else happens. Once the pair has a record, a
/// second application adds no record and leaves the unlock time and the
/// lock duration, each the greater of old and new, where the first left
/// them. The stake's amount is one that 256 bits can hold.
pub proof fn lemma_repeated_stake_counts_twice(state: LedgerView, request: ExtensionView)
    requires
        distinct_keys(state.records),
        request.amount < amount_limit(),
    ensures
        ({
            let once = settled(state, CommandView::AddOrExtend(request));
            let twice = settled(once, CommandView::AddOrExtend(request));
            let before = balance(state.records, request.key);
            &&& before + request.amount < amount_limit() || !holds(state.records, request.key) ==> {
                &&& holds(once.records, request.key)
                &&& balance(once.records, request.key) == before + request.amount
            }
            &&& before + request.amount >= amount_limit() && holds(state.records, request.key)
                ==> once == state
            &&& holds(once.records, request.key) && before + 2 * request.amount < amount_limit()
                ==> balance(twice.records, request.key) == before + 2 * request.amount
            &&& holds(once.records, request.key) && balance(once.records, request.key)
                + request.amount >= amount_limit() ==> twice == once
            &&& holds(once.records, request.key) ==> {
                &&& holds(twice.records, request.key)
                &&& twice.records.len() == once.records.len()
                &&& position(twice.records, request.key) == position(once.records, request.key)
                &&& twice.records[position(twice.records, request.key)].unlock_time
                    == once.records[position(once.records, request.key)].unlock_time
                &&& twice.records[position(twice.records, request.key)].lock_duration
                    == once.records[position(once.records, request.key)].lock_duration
            }
            &&& holds(state.records, request.key) && before + request.amount < amount_limit() ==> {
                &&& once.records[position(once.records, request.key)].unlock_time == greater(
                    state.records[position(state.records, request.key)].unlock_time,
                    request.unlock_time,
                )
                &&& once.records[position(once.records, request.key)].lock_duration == greater(
                    state.records[position(state.records, request.key)].lock_duration,
                    request.lock_duration,
                )
            }
        }),
{
    let command = CommandView::AddOrExtend(request);
    let once = settled(state, command);
    lemma_settled_shape(state, command);
    if holds(state.records, request.key) {
        let at = position(state.records, request.key);
        lemma_position(state.records, request.key, at);
        lemma_position(once.records, request.key, at);
    } else {
        lemma_position(once.records, request.key, state.records.len() as int);
    }
    let at = position(once.records, request.key);
    let twice = settled(once, command);
    lemma_settled_shape(once, command);
    lemma_position(twice.records, request.key, at);
}

/// No balance is overdrawn: a subtraction of more than the record holds
/// is turned down and changes nothing, one of at most the balance leaves
/// exactly the difference, and no other record's balance moves.
pub proof fn lemma_subtraction_never_overdraws(state: LedgerView, request: UpdateView)
    requires
        distinct_keys(state.records),
        request.operation == StakeAmountOperation::Subtract,
    ensures
        request.amount > balance(state.records, request.key) ==> update_outcome(
            state,
            request,
        ).is_err() && settled(state, CommandView::UpdateAmount(request)) == state,
        holds(state.records, request.key) && request.amount > balance(state.records, request.key)
            ==> update_outcome(state, request) == Err::<LedgerView, LedgerError>(
            LedgerError::InsufficientBalance,
        ),
        holds(state.records, request.key) && request.amount <= balance(
            state.records,
            request.key,
        ) ==> update_outcome(state, request).is_ok() && balance(
            settled(state, CommandView::UpdateAmount(request)).records,
            request.key,
        ) == balance(state.records, request.key) - request.amount,
        forall|other: StakeKey|
            other != request.key ==> #[trigger] balance(
                settled(state, CommandView::UpdateAmount(request)).records,
                other,
            ) == balance(state.records, other),
{
    let command = CommandView::UpdateAmount(request);
    let after = settled(state, command);
    lemma_settled_shape(state, command);
    if holds(state.records, request.key) {
        let at = position(state.records, request.key);
        lemma_position(after.records, request.key, at);
    }
    assert forall|other: StakeKey| other != request.key implies #[trigger] balance(
        after.records,
        other,
    ) == balance(state.records, other) by {
        lemma_other_balance_stays(state, command, other);
    }
}

/// A command moves the balance of no record but the one it is about.
pub proof fn lemma_other_balance_stays(state: LedgerView, command: CommandView, other: StakeKey)
    requires
        distinct_keys(state.records),
        other != command.key(),
    ensures
        holds(settled(state, command).records, other) == holds(state.records, other),
        balance(settled(state, command).records, other) == balance(state.records, other),
{
    let after = settled(state, command);
    lemma_settled_shape(state, command);
    if holds(state.records, other) {
        let at = position(state.records, other);
        lemma_position(state.records, other, at);
        lemma_position(after.records, other, at);
    }
}

} // verus!
