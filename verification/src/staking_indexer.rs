//! The indexer of one chain: it turns decoded events into ledger
//! mutations, walks the backlog, follows the live feed, and decides when
//! a silent feed must be restarted.

use vstd::prelude::*;
use crate::backfill::{advanced, Backfill};
use crate::events::{
    command_of, CommandView, CommunityStake, CommunityStakeWithdrawn, DecodedEvent, LogMeta,
    Release, SelfStake, SelfStakeWithdrawn, Slash,
};
use crate::ledger::{
    high_water, lemma_cursor_is_high_water, outcome, settled, well_formed, Ledger, LedgerError,
    LedgerView,
};
use crate::primitives::{hex_text, render_hash, Address, Chain};

verus! {

/// How long the cursor may stand still before the feed counts as stalled.
pub const WATCHDOG_WINDOW_SECS: u64 = 900;

/// Why the pair of feed and watchdog of a chain came to an end.
#[derive(Clone, Copy, Debug, PartialEq, Eq, Structural)]
pub enum IndexerFault {
    /// The cursor of the chain did not move for a whole watchdog window.
    StalledFeed { chain: Chain },
    /// The connection to the node failed, or a log could not be decoded.
    Transport,
}

/// What became of one event.
#[derive(Clone, Copy, Debug, PartialEq, Eq, Structural)]
pub enum Applied {
    /// The ledger carried out the mutation.
    Stored,
    /// The ledger turned the mutation down and stayed as it was.
    Rejected(LedgerError),
    /// The event asks for no mutation.
    Ignored,
}

/// What the live feed does after a delivery.
#[derive(Clone, Copy, Debug, PartialEq, Eq, Structural)]
pub enum FeedStatus {
    /// An event was handled; the feed goes on.
    Listening(Applied),
    /// The subscription came to its end.
    Closed,
    /// The feed broke off.
    Faulted(IndexerFault),
}

/// One delivery of the live subscription.
#[derive(Clone, Copy, Debug, PartialEq, Eq)]
pub enum Delivery {
    /// A decoded log with its provenance.
    Log(DecodedEvent, LogMeta),
    /// The connection failed, or a log could not be decoded.
    Failed,
    /// The subscription delivers nothing more.
    Closed,
}

/// Why the supervisor starts the pair of a chain.
#[derive(Clone, Copy, Debug, PartialEq, Eq, Structural)]
pub enum RestartReason {
    /// Nothing ran before.
    FirstStart,
    /// The pair ended without a fault.
    EndedWithoutError,
    /// The watchdog found the feed stalled.
    FeedStalled,
    /// The pair ended with any other fault.
    EndedWithError,
}

/// The next run of a chain's pair.
#[derive(Clone, Copy, Debug, PartialEq, Eq, Structural)]
pub struct Restart {
    /// The cursor from which the run resumes.
    pub start_block: u64,
    pub reason: RestartReason,
}

/// The mutation that an event of this chain asks for, with the
/// transaction hash written out as text.
pub open spec fn command_for(chain: Chain, event: DecodedEvent, meta: LogMeta) -> Option<
    CommandView,
> {
    command_of(event, chain, meta.block_number, hex_text(meta.transaction_hash@))
}

/// What becomes of a command that is tried on the given ledger.
pub open spec fn verdict_of(state: LedgerView, command: Option<CommandView>) -> Applied {
    match command {
        Some(c) => match outcome(state, c) {
            Ok(_) => Applied::Stored,
            Err(error) => Applied::Rejected(error),
        },
        None => Applied::Ignored,
    }
}

/// The ledger after a command has been tried on it, if there is one.
pub open spec fn ledger_after(state: LedgerView, command: Option<CommandView>) -> LedgerView {
    match command {
        Some(c) => settled(state, c),
        None => state,
    }
}

/// The ledger after a run of logs has been applied in order. A log whose
/// mutation is turned down changes nothing and holds up none of the logs
/// after it.
pub open spec fn replayed(state: LedgerView, chain: Chain, logs: Seq<
    (DecodedEvent, LogMeta),
>) -> LedgerView
    decreases logs.len(),
{
    if logs.len() == 0 {
        state
    } else {
        ledger_after(
            replayed(state, chain, logs.drop_last()),
            command_for(chain, logs.last().0, logs.last().1),
        )
    }
}

/// The logs that a range query returned; none where the query failed.
pub open spec fn returned_logs(answer: Option<&Vec<(DecodedEvent, LogMeta)>>) -> Seq<
    (DecodedEvent, LogMeta),
> {
    match answer {
        Some(logs) => logs@,
        None => Seq::empty(),
    }
}

/// The mutation that a delivery of the live subscription asks for, if any.
pub open spec fn delivered_command(chain: Chain, delivery: Delivery) -> Option<CommandView> {
    match delivery {
        Delivery::Log(event, meta) => command_for(chain, event, meta),
        Delivery::Failed => None,
        Delivery::Closed => None,
    }
}

/// What the live feed does after a delivery.
pub open spec fn status_after(state: LedgerView, chain: Chain, delivery: Delivery) -> FeedStatus {
    match delivery {
        Delivery::Log(event, meta) => FeedStatus::Listening(
            verdict_of(state, command_for(chain, event, meta)),
        ),
        Delivery::Failed => FeedStatus::Faulted(IndexerFault::Transport),
        Delivery::Closed => FeedStatus::Closed,
    }
}

/// What the watchdog finds at the end of a window: a stalled feed where
/// the cursor stands at the baseline, else the cursor as the baseline of
/// the next window.
pub open spec fn watchdog_verdict(chain: Chain, cursor: u64, baseline: u64) -> Result<
    u64,
    IndexerFault,
> {
    if cursor == baseline {
        Err(IndexerFault::StalledFeed { chain })
    } else {
        Ok(cursor)
    }
}

/// Why the supervisor starts a run, given how the run before it ended.
pub open spec fn restart_reason(previous: Option<Result<(), IndexerFault>>) -> RestartReason {
    match previous {
        None => RestartReason::FirstStart,
        Some(Ok(_)) => RestartReason::EndedWithoutError,
        Some(Err(IndexerFault::StalledFeed { .. })) => RestartReason::FeedStalled,
        Some(Err(IndexerFault::Transport)) => RestartReason::EndedWithError,
    }
}

/// The indexer of one chain, with the ledger it writes to.
#[derive(Debug)]
pub struct StakingIndexer {
    pub ledger: Ledger,
    pub rpc_url: String,
    pub chain: Chain,
    pub contract_address: Address,
}

impl StakingIndexer {
    /// The indexer's invariant: that of its ledger.
    pub open spec fn wf(&self) -> bool {
        self.ledger.wf()
    }

    /// Whether two states of an indexer differ in the ledger at most.
    pub open spec fn same_setup(&self, other: &StakingIndexer) -> bool {
        &&& self.rpc_url == other.rpc_url
        &&& self.chain == other.chain
        &&& self.contract_address == other.contract_address
    }

    /// The cursor of this indexer's chain.
    pub open spec fn cursor(&self) -> u64 {
        high_water(self.ledger@, self.chain.id)
    }

    /// An indexer for the staking contract at `contract_address` on `chain`.
    pub fn new(ledger: Ledger, rpc_url: String, chain: Chain, contract_address: Address) -> (indexer:
        StakingIndexer)
        ensures
            indexer.ledger == ledger,
            indexer.rpc_url == rpc_url,
            indexer.chain == chain,
            indexer.contract_address == contract_address,
    {
        StakingIndexer { ledger, rpc_url, chain, contract_address }
    }

    /// The supervisor's decision once a run has ended, or before the first
    /// one: whatever happened, the pair starts again, from the cursor as
    /// the ledger has it now.
    pub fn listen_with_timeout_reset(&self, previous: Option<Result<(), IndexerFault>>) -> (restart:
        Restart)
        ensures
            restart.start_block == self.cursor(),
            restart.reason == restart_reason(previous),
    {
        let reason = match previous {
            None => RestartReason::FirstStart,
            Some(Ok(_)) => RestartReason::EndedWithoutError,
            Some(Err(IndexerFault::StalledFeed { .. })) => RestartReason::FeedStalled,
            Some(Err(IndexerFault::Transport)) => RestartReason::EndedWithError,
        };
        Restart { start_block: self.ledger.latest_block(&self.chain), reason }
    }

    /// The watchdog's check at the end of a window that began with the
    /// cursor at `starting_event_block`: a cursor that has not moved is a
    /// stalled feed; one that has moved is the baseline of the next window.
    pub fn throw_when_no_events_logged(&self, starting_event_block: &u64) -> (result: Result<
        u64,
        IndexerFault,
    >)
        ensures
            result == watchdog_verdict(self.chain, self.cursor(), *starting_event_block),
    {
        let latest_logged_block = self.ledger.latest_block(&self.chain);
        if latest_logged_block == *starting_event_block {
            Err(IndexerFault::StalledFeed { chain: self.chain })
        } else {
            Ok(latest_logged_block)
        }
    }

    /// Applies one decoded log: the mutation its event asks for is tried
    /// on the ledger under the log's block and transaction. A mutation
    /// that is turned down is reported and changes nothing.
    pub fn process_staking_event(&mut self, event: &DecodedEvent, meta: &LogMeta) -> (applied:
        Applied)
        requires
            old(self).wf(),
        ensures
            final(self).wf(),
            final(self).same_setup(old(self)),
            final(self).ledger@ == ledger_after(
                old(self).ledger@,
                command_for(old(self).chain, *event, *meta),
            ),
            applied == verdict_of(old(self).ledger@, command_for(old(self).chain, *event, *meta)),
            old(self).cursor() <= final(self).cursor(),
    {
        proof {
            if let Some(command) = command_for(self.chain, *event, *meta) {
                lemma_cursor_is_high_water(self.ledger@, command);
            }
        }
        let block_number = meta.block_number;
        let tx_hash = render_hash(&meta.transaction_hash);
        match event {
            DecodedEvent::SelfStake(e) => self.process_self_stake_event(e, block_number, &tx_hash),
            DecodedEvent::CommunityStake(e) => self.process_community_stake_event(
                e,
                block_number,
                &tx_hash,
            ),
            DecodedEvent::SelfStakeWithdrawn(e) => self.process_self_stake_withdrawn_event(
                e,
                block_number,
                &tx_hash,
            ),
            DecodedEvent::CommunityStakeWithdrawn(e) => self.process_community_stake_withdrawn_event(
                e,
                block_number,
                &tx_hash,
            ),
            DecodedEvent::Slash(e) => self.process_slash_event(e, block_number, &tx_hash),
            DecodedEvent::Release(e) => self.process_release_event(e, block_number, &tx_hash),
            DecodedEvent::Other => Applied::Ignored,
        }
    }

    /// Applies a run of decoded logs in the order given. A log whose
    /// mutation is turned down holds up none of the logs after it. The
    /// result tells, log by log, what became of each.
    pub fn process_staking_events(&mut self, logs: &Vec<(DecodedEvent, LogMeta)>) -> (verdicts:
        Vec<Applied>)
        requires
            old(self).wf(),
        ensures
            final(self).wf(),
            final(self).same_setup(old(self)),
            final(self).ledger@ == replayed(old(self).ledger@, old(self).chain, logs@),
            verdicts@.len() == logs@.len(),
            forall|i: int|
                0 <= i < logs@.len() ==> #[trigger] verdicts@[i] == verdict_of(
                    replayed(old(self).ledger@, old(self).chain, logs@.take(i)),
                    command_for(old(self).chain, logs@[i].0, logs@[i].1),
                ),
            old(self).cursor() <= final(self).cursor(),
    {
        proof {
            lemma_cursor_never_falls_back(self.ledger@, self.chain, logs@);
        }
        let mut verdicts: Vec<Applied> = Vec::new();
        let mut i: usize = 0;
        while i < logs.len()
            invariant
                i <= logs@.len(),
                self.wf(),
                self.same_setup(old(self)),
                self.ledger@ == replayed(old(self).ledger@, old(self).chain, logs@.take(i as int)),
                verdicts@.len() == i,
                forall|j: int|
                    0 <= j < i ==> #[trigger] verdicts@[j] == verdict_of(
                        replayed(old(self).ledger@, old(self).chain, logs@.take(j)),
                        command_for(old(self).chain, logs@[j].0, logs@[j].1),
                    ),
            decreases logs@.len() - i,
        {
            proof {
                assert(logs@.take(i + 1).drop_last() =~= logs@.take(i as int));
            }
            let applied = self.process_staking_event(&logs[i].0, &logs[i].1);
            verdicts.push(applied);
            i += 1;
        }
        proof {
            assert(logs@.take(i as int) =~= logs@);
        }
        verdicts
    }

    /// One round of the backfill: the logs that the node returned for the
    /// next range are applied in order, or none where the query failed,
    /// and the backfill moves past the range either way.
    pub fn backfill_chunk(
        &mut self,
        backfill: &mut Backfill,
        answer: Option<&Vec<(DecodedEvent, LogMeta)>>,
    ) -> (verdicts: Vec<Applied>)
        requires
            old(self).wf(),
        ensures
            final(self).wf(),
            final(self).same_setup(old(self)),
            final(backfill).last_queried_block == advanced(
                old(backfill).last_queried_block,
                old(backfill).current_block,
            ),
            final(backfill).current_block == old(backfill).current_block,
            final(self).ledger@ == replayed(
                old(self).ledger@,
                old(self).chain,
                returned_logs(answer),
            ),
            verdicts@.len() == returned_logs(answer).len(),
            forall|i: int|
                0 <= i < returned_logs(answer).len() ==> #[trigger] verdicts@[i] == verdict_of(
                    replayed(old(self).ledger@, old(self).chain, returned_logs(answer).take(i)),
                    command_for(
                        old(self).chain,
                        returned_logs(answer)[i].0,
                        returned_logs(answer)[i].1,
                    ),
                ),
            old(self).cursor() <= final(self).cursor(),
    {
        let _ = backfill.advance();
        match answer {
            Some(logs) => self.process_staking_events(logs),
            None => Vec::new(),
        }
    }

    /// Handles one delivery of the live subscription: a log is applied and
    /// the feed goes on; a failure ends the feed with a transport fault and
    /// is not retried here; the end of the subscription ends the feed.
    pub fn follow(&mut self, delivery: &Delivery) -> (status: FeedStatus)
        requires
            old(self).wf(),
        ensures
            final(self).wf(),
            final(self).same_setup(old(self)),
            final(self).ledger@ == ledger_after(
                old(self).ledger@,
                delivered_command(old(self).chain, *delivery),
            ),
            status == status_after(old(self).ledger@, old(self).chain, *delivery),
            old(self).cursor() <= final(self).cursor(),
    {
        match delivery {
            Delivery::Log(event, meta) => FeedStatus::Listening(
                self.process_staking_event(event, meta),
            ),
            Delivery::Failed => FeedStatus::Faulted(IndexerFault::Transport),
            Delivery::Closed => FeedStatus::Closed,
        }
    }

    /// Adds a self stake to the staker's own record and extends its lock.
    /// The ledger is asked once. What it answers is reported and is no
    /// fault of the handler: a mutation that is turned down changes
    /// nothing and stops nothing.
    pub fn process_self_stake_event(&mut self, event: &SelfStake, block_number: u64, tx_hash: &String) -> (applied:
        Applied)
        requires
            old(self).wf(),
        ensures
            final(self).wf(),
            final(self).same_setup(old(self)),
            final(self).ledger@ == ledger_after(
                old(self).ledger@,
                command_of(DecodedEvent::SelfStake(*event), old(self).chain, block_number, tx_hash@),
            ),
            applied == verdict_of(
                old(self).ledger@,
                command_of(DecodedEvent::SelfStake(*event), old(self).chain, block_number, tx_hash@),
            ),
            applied != Applied::Ignored,
    {
        let command = event.command(&self.chain, block_number, tx_hash);
        match self.ledger.apply(&command) {
            Ok(_) => Applied::Stored,
            Err(error) => Applied::Rejected(error),
        }
    }

    /// Adds a community stake to the record of staker and stakee and
    /// extends its lock.
    /// The ledger is asked once. What it answers is reported and is no
    /// fault of the handler: a mutation that is turned down changes
    /// nothing and stops nothing.
    pub fn process_community_stake_event(&mut self, event: &CommunityStake, block_number: u64, tx_hash: &String) -> (applied:
        Applied)
        requires
            old(self).wf(),
        ensures
            final(self).wf(),
            final(self).same_setup(old(self)),
            final(self).ledger@ == ledger_after(
                old(self).ledger@,
                command_of(DecodedEvent::CommunityStake(*event), old(self).chain, block_number, tx_hash@),
            ),
            applied == verdict_of(
                old(self).ledger@,
                command_of(DecodedEvent::CommunityStake(*event), old(self).chain, block_number, tx_hash@),
            ),
            applied != Applied::Ignored,
    {
        let command = event.command(&self.chain, block_number, tx_hash);
        match self.ledger.apply(&command) {
            Ok(_) => Applied::Stored,
            Err(error) => Applied::Rejected(error),
        }
    }

    /// Takes a withdrawal off the staker's own record.
    /// The ledger is asked once. What it answers is reported and is no
    /// fault of the handler: a mutation that is turned down changes
    /// nothing and stops nothing.
    pub fn process_self_stake_withdrawn_event(&mut self, event: &SelfStakeWithdrawn, block_number: u64, tx_hash: &String) -> (applied:
        Applied)
        requires
            old(self).wf(),
        ensures
            final(self).wf(),
            final(self).same_setup(old(self)),
            final(self).ledger@ == ledger_after(
                old(self).ledger@,
                command_of(DecodedEvent::SelfStakeWithdrawn(*event), old(self).chain, block_number, tx_hash@),
            ),
            applied == verdict_of(
                old(self).ledger@,
                command_of(DecodedEvent::SelfStakeWithdrawn(*event), old(self).chain, block_number, tx_hash@),
            ),
            applied != Applied::Ignored,
    {
        let command = event.command(&self.chain, block_number, tx_hash);
        match self.ledger.apply(&command) {
            Ok(_) => Applied::Stored,
            Err(error) => Applied::Rejected(error),
        }
    }

    /// Takes a withdrawal off the record of staker and stakee.
    /// The ledger is asked once. What it answers is reported and is no
    /// fault of the handler: a mutation that is turned down changes
    /// nothing and stops nothing.
    pub fn process_community_stake_withdrawn_event(&mut self, event: &CommunityStakeWithdrawn, block_number: u64, tx_hash: &String) -> (applied:
        Applied)
        requires
            old(self).wf(),
        ensures
            final(self).wf(),
            final(self).same_setup(old(self)),
            final(self).ledger@ == ledger_after(
                old(self).ledger@,
                command_of(DecodedEvent::CommunityStakeWithdrawn(*event), old(self).chain, block_number, tx_hash@),
            ),
            applied == verdict_of(
                old(self).ledger@,
                command_of(DecodedEvent::CommunityStakeWithdrawn(*event), old(self).chain, block_number, tx_hash@),
            ),
            applied != Applied::Ignored,
    {
        let command = event.command(&self.chain, block_number, tx_hash);
        match self.ledger.apply(&command) {
            Ok(_) => Applied::Stored,
            Err(error) => Applied::Rejected(error),
        }
    }

    /// Takes a penalty off the record of staker and stakee.
    /// The ledger is asked once. What it answers is reported and is no
    /// fault of the handler: a mutation that is turned down changes
    /// nothing and stops nothing.
    pub fn process_slash_event(&mut self, event: &Slash, block_number: u64, tx_hash: &String) -> (applied:
        Applied)
        requires
            old(self).wf(),
        ensures
            final(self).wf(),
            final(self).same_setup(old(self)),
            final(self).ledger@ == ledger_after(
                old(self).ledger@,
                command_of(DecodedEvent::Slash(*event), old(self).chain, block_number, tx_hash@),
            ),
            applied == verdict_of(
                old(self).ledger@,
                command_of(DecodedEvent::Slash(*event), old(self).chain, block_number, tx_hash@),
            ),
            applied != Applied::Ignored,
    {
        let command = event.command(&self.chain, block_number, tx_hash);
        match self.ledger.apply(&command) {
            Ok(_) => Applied::Stored,
            Err(error) => Applied::Rejected(error),
        }
    }

    /// Returns withheld tokens to the record of staker and stakee.
    /// The ledger is asked once. What it answers is reported and is no
    /// fault of the handler: a mutation that is turned down changes
    /// nothing and stops nothing.
    pub fn process_release_event(&mut self, event: &Release, block_number: u64, tx_hash: &String) -> (applied:
        Applied)
        requires
            old(self).wf(),
        ensures
            final(self).wf(),
            final(self).same_setup(old(self)),
            final(self).ledger@ == ledger_after(
                old(self).ledger@,
                command_of(DecodedEvent::Release(*event), old(self).chain, block_number, tx_hash@),
            ),
            applied == verdict_of(
                old(self).ledger@,
                command_of(DecodedEvent::Release(*event), old(self).chain, block_number, tx_hash@),
            ),
            applied != Applied::Ignored,
    {
        let command = event.command(&self.chain, block_number, tx_hash);
        match self.ledger.apply(&command) {
            Ok(_) => Applied::Stored,
            Err(error) => Applied::Rejected(error),
        }
    }
}

/// A run never moves a cursor back: whatever logs are applied, from
/// whatever blocks, in whatever order, and whichever of them are turned
/// down, the cursor of every chain is afterwards at least what it was.
pub proof fn lemma_cursor_never_falls_back(
    state: LedgerView,
    chain: Chain,
    logs: Seq<(DecodedEvent, LogMeta)>,
)
    requires
        well_formed(state),
    ensures
        well_formed(replayed(state, chain, logs)),
        forall|any: u64|
            high_water(state, any) <= #[trigger] high_water(replayed(state, chain, logs), any),
    decreases logs.len(),
{
    if logs.len() > 0 {
        let before = replayed(state, chain, logs.drop_last());
        lemma_cursor_never_falls_back(state, chain, logs.drop_last());
        match command_for(chain, logs.last().0, logs.last().1) {
            Some(command) => {
                lemma_cursor_is_high_water(before, command);
                assert forall|any: u64|
                    high_water(state, any) <= #[trigger] high_water(
                        replayed(state, chain, logs),
                        any,
                    ) by {
                    assert(high_water(state, any) <= high_water(before, any));
                    assert(high_water(before, any) <= high_water(settled(before, command), any));
                }
            },
            None => {},
        }
    }
}

/// The ledger after a number of runs, one after another. Each run applies
/// its logs in order; the restart between two runs writes nothing.
pub open spec fn restarted(
    state: LedgerView,
    chain: Chain,
    runs: Seq<Seq<(DecodedEvent, LogMeta)>>,
) -> LedgerView
    decreases runs.len(),
{
    if runs.len() == 0 {
        state
    } else {
        replayed(restarted(state, chain, runs.drop_last()), chain, runs.last())
    }
}

/// The block from which the supervisor starts run `k`: the cursor as the
/// ledger has it once the `k` runs before it have ended.
pub open spec fn start_block(
    state: LedgerView,
    chain: Chain,
    runs: Seq<Seq<(DecodedEvent, LogMeta)>>,
    k: int,
) -> u64 {
    high_water(restarted(state, chain, runs.take(k)), chain.id)
}

/// The cursor never falls back across restarts. The first run starts at
/// the cursor as it stood; each later run starts at or above the start of
/// the run before it, whatever that run applied and however it ended; and
/// so the cursor after any number of restarts is at least what it was
/// before the first.
pub proof fn lemma_restarts_never_go_back(
    state: LedgerView,
    chain: Chain,
    runs: Seq<Seq<(DecodedEvent, LogMeta)>>,
)
    requires
        well_formed(state),
    ensures
        well_formed(restarted(state, chain, runs)),
        start_block(state, chain, runs, 0) == high_water(state, chain.id),
        forall|k: int|
            0 <= k < runs.len() ==> start_block(state, chain, runs, k) <= #[trigger] start_block(
                state,
                chain,
                runs,
                k + 1,
            ),
        high_water(state, chain.id) <= high_water(restarted(state, chain, runs), chain.id),
    decreases runs.len(),
{
    assert(runs.take(0) =~= Seq::<Seq<(DecodedEvent, LogMeta)>>::empty());
    if runs.len() > 0 {
        let front = runs.drop_last();
        lemma_restarts_never_go_back(state, chain, front);
        let before = restarted(state, chain, front);
        lemma_cursor_never_falls_back(before, chain, runs.last());
        assert forall|k: int| 0 <= k < runs.len() implies start_block(state, chain, runs, k)
            <= #[trigger] start_block(state, chain, runs, k + 1) by {
            if k + 1 < runs.len() {
                assert(runs.take(k) =~= front.take(k));
                assert(runs.take(k + 1) =~= front.take(k + 1));
                assert(start_block(state, chain, front, k) <= start_block(
                    state,
                    chain,
                    front,
                    k + 1,
                ));
            } else {
                assert(runs.take(k) =~= front);
                assert(runs.take(k + 1) =~= runs);
            }
        }
    }
}

/// A stalled feed is always restarted, and only a stalled feed is called
/// one: the watchdog reports a fault exactly when the cursor stands where
/// the window began, the fault names the chain, and the supervisor
/// answers it, as it answers every end of a run, with a restart.
pub proof fn lemma_stalled_feed_restarts(chain: Chain, cursor: u64, baseline: u64)
    ensures
        watchdog_verdict(chain, cursor, baseline).is_err() <==> cursor == baseline,
        cursor == baseline ==> restart_reason(
            Some(Err(watchdog_verdict(chain, cursor, baseline).unwrap_err())),
        ) == RestartReason::FeedStalled,
        cursor != baseline ==> watchdog_verdict(chain, cursor, baseline) == Ok::<
            u64,
            IndexerFault,
        >(cursor),
{
}

} // verus!
