use indexer::backfill::Backfill;
use indexer::events::{
    AmountUpdate, CommunityStake, CommunityStakeWithdrawn, DecodedEvent, LedgerCommand, LogMeta,
    Release, SelfStake, SelfStakeWithdrawn, Slash, StakeAmountOperation, StakeEventType,
    StakeExtension,
};
use indexer::ledger::{Ledger, LedgerError};
use indexer::primitives::{Address, Amount, Chain, TxHash};
use indexer::staking_indexer::{
    Applied, Delivery, FeedStatus, IndexerFault, Restart, RestartReason, StakingIndexer,
    WATCHDOG_WINDOW_SECS,
};

const CHAIN: Chain = Chain { id: 10 };

fn addr(tag: u8) -> Address {
    Address { bytes: [tag; 20] }
}

fn tx(last: u8) -> TxHash {
    let mut bytes = [0u8; 32];
    bytes[31] = last;
    TxHash { bytes }
}

fn tx_text(last: &str) -> String {
    format!("0x{}{}", "00".repeat(31), last)
}

fn meta(block_number: u64, last: u8) -> LogMeta {
    LogMeta { block_number, transaction_hash: tx(last) }
}

fn indexer() -> StakingIndexer {
    StakingIndexer::new(Ledger::new(), "ws://localhost:8545".to_string(), CHAIN, addr(0xee))
}

fn self_stake(staker: u8, amount: u64, unlock: u64, lock: u64) -> DecodedEvent {
    DecodedEvent::SelfStake(SelfStake {
        staker: addr(staker),
        amount: Amount::from_u64(amount),
        unlock_time: unlock,
        lock_duration: lock,
    })
}

fn community_stake(staker: u8, stakee: u8, amount: u64, unlock: u64, lock: u64) -> DecodedEvent {
    DecodedEvent::CommunityStake(CommunityStake {
        staker: addr(staker),
        stakee: addr(stakee),
        amount: Amount::from_u64(amount),
        unlock_time: unlock,
        lock_duration: lock,
    })
}

fn self_withdrawn(staker: u8, amount: u64) -> DecodedEvent {
    DecodedEvent::SelfStakeWithdrawn(SelfStakeWithdrawn { staker: addr(staker), amount: Amount::from_u64(amount) })
}

fn balance(indexer: &StakingIndexer, staker: u8, stakee: u8) -> Option<Amount> {
    indexer.ledger.record(&CHAIN, &addr(staker), &addr(stakee)).map(|record| record.amount)
}

#[test]
fn new_keeps_what_it_is_given() {
    let built = StakingIndexer::new(Ledger::new(), "wss://node".to_string(), Chain { id: 7 }, addr(9));
    assert_eq!(built.rpc_url, "wss://node");
    assert_eq!(built.chain, Chain { id: 7 });
    assert_eq!(built.contract_address, addr(9));
    assert_eq!(built.ledger.len(), 0);
}

#[test]
fn end_to_end_scenario() {
    let a = 0xa1;
    let b = 0xb2;
    let mut indexer = indexer();
    // the chain's cursor stands at block 100
    assert_eq!(indexer.process_staking_event(&self_stake(0x77, 1, 0, 0), &meta(100, 0x01)), Applied::Stored);
    let restart = indexer.listen_with_timeout_reset(None);
    assert_eq!(restart, Restart { start_block: 100, reason: RestartReason::FirstStart });

    let unlock = 1_700_000_000;
    let lock = 7_776_000;
    let logs = vec![
        (self_stake(a, 50, unlock, lock), meta(105, 0xaa)),
        (community_stake(a, b, 30, unlock, lock), meta(110, 0xbb)),
        (self_withdrawn(a, 20), meta(120, 0xcc)),
    ];
    let mut backfill = Backfill::start(restart.start_block, Some(121));
    let range = backfill.next_chunk().unwrap();
    assert_eq!((range.from_block, range.to_block), (101, 120));
    let verdicts = indexer.backfill_chunk(&mut backfill, Some(&logs));
    assert_eq!(verdicts, vec![Applied::Stored, Applied::Stored, Applied::Stored]);
    assert_eq!(backfill.next_chunk(), None);
    assert_eq!(backfill.live_start_block(), 121);

    assert_eq!(balance(&indexer, a, a), Some(Amount::from_u64(30)));
    assert_eq!(balance(&indexer, a, b), Some(Amount::from_u64(30)));
    assert_eq!(indexer.ledger.latest_block(&CHAIN), 120);

    let own = indexer.ledger.record(&CHAIN, &addr(a), &addr(a)).unwrap();
    assert_eq!(own.unlock_time, unlock);
    assert_eq!(own.lock_duration, lock);
    assert_eq!(own.block_number, 120);
    assert_eq!(own.tx_hash, tx_text("cc"));
    let community = indexer.ledger.record(&CHAIN, &addr(a), &addr(b)).unwrap();
    assert_eq!(community.block_number, 110);
    assert_eq!(community.tx_hash, tx_text("bb"));
}

#[test]
fn transaction_hash_is_recorded_as_full_lower_case_hex() {
    let mut indexer = indexer();
    let mut bytes = [0u8; 32];
    for (i, byte) in bytes.iter_mut().enumerate() {
        *byte = (i as u8) * 8 + 7;
    }
    bytes[0] = 0x0a;
    bytes[31] = 0xFF;
    let meta = LogMeta { block_number: 5, transaction_hash: TxHash { bytes } };
    assert_eq!(indexer.process_staking_event(&self_stake(1, 1, 0, 0), &meta), Applied::Stored);
    let record = indexer.ledger.record(&CHAIN, &addr(1), &addr(1)).unwrap();
    assert_eq!(
        record.tx_hash,
        "0x0a0f171f272f373f474f575f676f777f878f979fa7afb7bfc7cfd7dfe7eff7ff"
    );
    assert_eq!(record.tx_hash.len(), 66);
}

#[test]
fn dispatch_table_maps_each_event_to_its_command() {
    let text = "0x01".to_string();
    let amount = Amount::from_u64(5);
    let stake = SelfStake { staker: addr(1), amount, unlock_time: 8, lock_duration: 9 };
    assert_eq!(
        DecodedEvent::SelfStake(stake).command(&CHAIN, 77, &text),
        Some(LedgerCommand::AddOrExtend(StakeExtension {
            event_type: StakeEventType::SelfStake,
            chain: CHAIN,
            staker: addr(1),
            stakee: addr(1),
            amount,
            unlock_time: 8,
            lock_duration: 9,
            block_number: 77,
            tx_hash: text.clone(),
        }))
    );
    let community = CommunityStake { staker: addr(1), stakee: addr(2), amount, unlock_time: 8, lock_duration: 9 };
    assert_eq!(
        DecodedEvent::CommunityStake(community).command(&CHAIN, 77, &text),
        Some(LedgerCommand::AddOrExtend(StakeExtension {
            event_type: StakeEventType::CommunityStake,
            chain: CHAIN,
            staker: addr(1),
            stakee: addr(2),
            amount,
            unlock_time: 8,
            lock_duration: 9,
            block_number: 77,
            tx_hash: text.clone(),
        }))
    );
    let update = |event_type, stakee: u8, operation| {
        Some(LedgerCommand::UpdateAmount(AmountUpdate {
            event_type,
            chain: CHAIN,
            staker: addr(1),
            stakee: addr(stakee),
            amount,
            operation,
            block_number: 77,
            tx_hash: "0x01".to_string(),
        }))
    };
    assert_eq!(
        DecodedEvent::SelfStakeWithdrawn(SelfStakeWithdrawn { staker: addr(1), amount }).command(&CHAIN, 77, &text),
        update(StakeEventType::SelfStakeWithdraw, 1, StakeAmountOperation::Subtract)
    );
    assert_eq!(
        DecodedEvent::CommunityStakeWithdrawn(CommunityStakeWithdrawn { staker: addr(1), stakee: addr(2), amount })
            .command(&CHAIN, 77, &text),
        update(StakeEventType::CommunityStakeWithdraw, 2, StakeAmountOperation::Subtract)
    );
    assert_eq!(
        DecodedEvent::Slash(Slash { staker: addr(1), stakee: addr(2), amount }).command(&CHAIN, 77, &text),
        update(StakeEventType::Slash, 2, StakeAmountOperation::Subtract)
    );
    assert_eq!(
        DecodedEvent::Release(Release { staker: addr(1), stakee: addr(2), amount }).command(&CHAIN, 77, &text),
        update(StakeEventType::Release, 2, StakeAmountOperation::Add)
    );
    assert_eq!(DecodedEvent::Other.command(&CHAIN, 77, &text), None);
}

#[test]
fn each_handler_changes_the_record_it_is_about() {
    let mut indexer = indexer();
    let text = "0x0b".to_string();
    let amount = |n| Amount::from_u64(n);
    assert_eq!(
        indexer.process_self_stake_event(&SelfStake { staker: addr(1), amount: amount(100), unlock_time: 5, lock_duration: 6 }, 10, &text),
        Applied::Stored
    );
    assert_eq!(
        indexer.process_community_stake_event(
            &CommunityStake { staker: addr(1), stakee: addr(2), amount: amount(200), unlock_time: 7, lock_duration: 8 },
            11,
            &text
        ),
        Applied::Stored
    );
    assert_eq!(balance(&indexer, 1, 1), Some(amount(100)));
    assert_eq!(balance(&indexer, 1, 2), Some(amount(200)));
    assert_eq!(
        indexer.process_self_stake_withdrawn_event(&SelfStakeWithdrawn { staker: addr(1), amount: amount(40) }, 12, &text),
        Applied::Stored
    );
    assert_eq!(balance(&indexer, 1, 1), Some(amount(60)));
    assert_eq!(balance(&indexer, 1, 2), Some(amount(200)));
    assert_eq!(
        indexer.process_community_stake_withdrawn_event(
            &CommunityStakeWithdrawn { staker: addr(1), stakee: addr(2), amount: amount(50) },
            13,
            &text
        ),
        Applied::Stored
    );
    assert_eq!(balance(&indexer, 1, 2), Some(amount(150)));
    assert_eq!(indexer.process_slash_event(&Slash { staker: addr(1), stakee: addr(2), amount: amount(30) }, 14, &text), Applied::Stored);
    assert_eq!(balance(&indexer, 1, 2), Some(amount(120)));
    assert_eq!(indexer.process_release_event(&Release { staker: addr(1), stakee: addr(2), amount: amount(10) }, 15, &text), Applied::Stored);
    assert_eq!(balance(&indexer, 1, 2), Some(amount(130)));
    assert_eq!(balance(&indexer, 1, 1), Some(amount(60)));
    assert_eq!(indexer.ledger.latest_block(&CHAIN), 15);
    assert_eq!(indexer.ledger.len(), 2);
}

#[test]
fn handlers_report_what_the_ledger_turned_down() {
    let mut indexer = indexer();
    let text = "0x0b".to_string();
    assert_eq!(
        indexer.process_slash_event(&Slash { staker: addr(1), stakee: addr(2), amount: Amount::from_u64(1) }, 14, &text),
        Applied::Rejected(LedgerError::UnknownRecord)
    );
    assert_eq!(
        indexer.process_release_event(&Release { staker: addr(1), stakee: addr(2), amount: Amount::from_u64(1) }, 14, &text),
        Applied::Rejected(LedgerError::UnknownRecord)
    );
    assert_eq!(
        indexer.process_self_stake_event(&SelfStake { staker: addr(1), amount: Amount::from_u64(5), unlock_time: 0, lock_duration: 0 }, 15, &text),
        Applied::Stored
    );
    assert_eq!(
        indexer.process_self_stake_withdrawn_event(&SelfStakeWithdrawn { staker: addr(1), amount: Amount::from_u64(6) }, 16, &text),
        Applied::Rejected(LedgerError::InsufficientBalance)
    );
    assert_eq!(
        indexer.process_self_stake_event(
            &SelfStake { staker: addr(1), amount: Amount { limbs: [u64::MAX; 4] }, unlock_time: 0, lock_duration: 0 },
            17,
            &text
        ),
        Applied::Rejected(LedgerError::AmountOverflow)
    );
    assert_eq!(balance(&indexer, 1, 1), Some(Amount::from_u64(5)));
    assert_eq!(indexer.ledger.latest_block(&CHAIN), 15);
}

#[test]
fn stake_on_a_full_balance_is_reported_and_changes_nothing() {
    let mut indexer = indexer();
    let text = "0x0c".to_string();
    let full = SelfStake { staker: addr(1), amount: Amount { limbs: [u64::MAX; 4] }, unlock_time: 3, lock_duration: 4 };
    assert_eq!(indexer.process_self_stake_event(&full, 100, &text), Applied::Stored);
    let more = SelfStake { staker: addr(1), amount: Amount::from_u64(50), unlock_time: 9, lock_duration: 9 };
    assert_eq!(
        indexer.process_self_stake_event(&more, 105, &text),
        Applied::Rejected(LedgerError::AmountOverflow)
    );
    let record = indexer.ledger.record(&CHAIN, &addr(1), &addr(1)).unwrap();
    assert_eq!(record.amount, Amount { limbs: [u64::MAX; 4] });
    assert_eq!(record.unlock_time, 3);
    assert_eq!(record.lock_duration, 4);
    assert_eq!(record.block_number, 100);
    assert_eq!(indexer.ledger.latest_block(&CHAIN), 100);
}

#[test]
fn same_half_range_stake_twice_is_stored_then_reported() {
    let mut indexer = indexer();
    let text = "0x0d".to_string();
    let half = SelfStake { staker: addr(1), amount: Amount { limbs: [0, 0, 0, 1 << 63] }, unlock_time: 3, lock_duration: 4 };
    assert_eq!(indexer.process_self_stake_event(&half, 7, &text), Applied::Stored);
    assert_eq!(
        indexer.process_self_stake_event(&half, 7, &text),
        Applied::Rejected(LedgerError::AmountOverflow)
    );
    assert_eq!(balance(&indexer, 1, 1), Some(Amount { limbs: [0, 0, 0, 1 << 63] }));
    assert_eq!(indexer.ledger.len(), 1);
}

#[test]
fn withdrawal_without_a_record_is_reported_and_changes_nothing() {
    let mut indexer = indexer();
    let text = "0xcc".to_string();
    let event = SelfStakeWithdrawn { staker: addr(1), amount: Amount::from_u64(20) };
    assert_eq!(
        indexer.process_self_stake_withdrawn_event(&event, 120, &text),
        Applied::Rejected(LedgerError::UnknownRecord)
    );
    assert_eq!(indexer.ledger.len(), 0);
    assert_eq!(indexer.ledger.latest_block(&CHAIN), 0);
    let community = CommunityStakeWithdrawn { staker: addr(1), stakee: addr(2), amount: Amount::from_u64(20) };
    assert_eq!(
        indexer.process_community_stake_withdrawn_event(&community, 121, &text),
        Applied::Rejected(LedgerError::UnknownRecord)
    );
    assert_eq!(indexer.ledger.len(), 0);
}

#[test]
fn withdrawal_beyond_the_balance_is_reported_and_leaves_the_record() {
    let mut indexer = indexer();
    let text = "0xcd".to_string();
    let stake = SelfStake { staker: addr(1), amount: Amount::from_u64(10), unlock_time: 3, lock_duration: 4 };
    assert_eq!(indexer.process_self_stake_event(&stake, 100, &text), Applied::Stored);
    let before = indexer.ledger.record(&CHAIN, &addr(1), &addr(1)).unwrap();
    let event = SelfStakeWithdrawn { staker: addr(1), amount: Amount::from_u64(25) };
    assert_eq!(
        indexer.process_self_stake_withdrawn_event(&event, 120, &text),
        Applied::Rejected(LedgerError::InsufficientBalance)
    );
    assert_eq!(indexer.ledger.record(&CHAIN, &addr(1), &addr(1)).unwrap(), before);
}

#[test]
fn unhandled_event_is_ignored() {
    let mut indexer = indexer();
    assert_eq!(indexer.process_staking_event(&DecodedEvent::Other, &meta(50, 1)), Applied::Ignored);
    assert_eq!(indexer.ledger.len(), 0);
    assert_eq!(indexer.ledger.latest_block(&CHAIN), 0);
}

#[test]
fn failed_mutation_does_not_hold_up_the_batch() {
    let mut indexer = indexer();
    let logs = vec![
        (self_withdrawn(1, 5), meta(10, 1)),
        (self_stake(1, 50, 0, 0), meta(11, 2)),
        (DecodedEvent::Other, meta(12, 3)),
        (self_withdrawn(1, 60), meta(13, 4)),
        (self_withdrawn(1, 20), meta(14, 5)),
    ];
    let verdicts = indexer.process_staking_events(&logs);
    assert_eq!(
        verdicts,
        vec![
            Applied::Rejected(LedgerError::UnknownRecord),
            Applied::Stored,
            Applied::Ignored,
            Applied::Rejected(LedgerError::InsufficientBalance),
            Applied::Stored,
        ]
    );
    assert_eq!(balance(&indexer, 1, 1), Some(Amount::from_u64(30)));
    assert_eq!(indexer.ledger.latest_block(&CHAIN), 14);
}

#[test]
fn empty_batch_changes_nothing() {
    let mut indexer = indexer();
    assert_eq!(indexer.process_staking_events(&Vec::new()), Vec::new());
    assert_eq!(indexer.ledger.len(), 0);
}

#[test]
fn backfill_moves_past_a_failed_query() {
    let mut indexer = indexer();
    let mut backfill = Backfill::start(0, Some(5000));
    let verdicts = indexer.backfill_chunk(&mut backfill, None);
    assert!(verdicts.is_empty());
    assert_eq!(backfill.last_queried_block, 2000);
    assert_eq!(backfill.current_block, 5000);
    assert_eq!(indexer.ledger.len(), 0);
    let logs = vec![(self_stake(1, 5, 0, 0), meta(2500, 1))];
    let verdicts = indexer.backfill_chunk(&mut backfill, Some(&logs));
    assert_eq!(verdicts, vec![Applied::Stored]);
    assert_eq!(backfill.last_queried_block, 4000);
    indexer.backfill_chunk(&mut backfill, Some(&Vec::new()));
    assert_eq!(backfill.last_queried_block, 4999);
    assert_eq!(backfill.next_chunk(), None);
    assert_eq!(backfill.live_start_block(), 5000);
}

#[test]
fn events_are_keyed_by_the_indexers_chain() {
    let mut indexer = indexer();
    indexer.process_staking_event(&self_stake(1, 5, 0, 0), &meta(10, 1));
    assert!(indexer.ledger.record(&CHAIN, &addr(1), &addr(1)).is_some());
    assert!(indexer.ledger.record(&Chain { id: 11 }, &addr(1), &addr(1)).is_none());
    assert_eq!(indexer.ledger.latest_block(&Chain { id: 11 }), 0);
}

#[test]
fn live_delivery_is_applied_and_feed_goes_on() {
    let mut indexer = indexer();
    let status = indexer.follow(&Delivery::Log(self_stake(1, 5, 0, 0), meta(10, 1)));
    assert_eq!(status, FeedStatus::Listening(Applied::Stored));
    assert_eq!(balance(&indexer, 1, 1), Some(Amount::from_u64(5)));
    let status = indexer.follow(&Delivery::Log(self_withdrawn(1, 6), meta(11, 2)));
    assert_eq!(status, FeedStatus::Listening(Applied::Rejected(LedgerError::InsufficientBalance)));
    let status = indexer.follow(&Delivery::Log(DecodedEvent::Other, meta(12, 3)));
    assert_eq!(status, FeedStatus::Listening(Applied::Ignored));
    assert_eq!(balance(&indexer, 1, 1), Some(Amount::from_u64(5)));
}

#[test]
fn live_failure_ends_the_feed_with_a_transport_fault() {
    let mut indexer = indexer();
    indexer.follow(&Delivery::Log(self_stake(1, 5, 0, 0), meta(10, 1)));
    assert_eq!(indexer.follow(&Delivery::Failed), FeedStatus::Faulted(IndexerFault::Transport));
    assert_eq!(indexer.follow(&Delivery::Closed), FeedStatus::Closed);
    assert_eq!(balance(&indexer, 1, 1), Some(Amount::from_u64(5)));
    assert_eq!(indexer.ledger.latest_block(&CHAIN), 10);
}

#[test]
fn watchdog_raises_a_fault_when_the_cursor_stands_still() {
    let mut indexer = indexer();
    indexer.process_staking_event(&self_stake(1, 5, 0, 0), &meta(100, 1));
    assert_eq!(
        indexer.throw_when_no_events_logged(&100),
        Err(IndexerFault::StalledFeed { chain: CHAIN })
    );
    let empty = StakingIndexer::new(Ledger::new(), String::new(), Chain { id: 3 }, addr(0));
    assert_eq!(
        empty.throw_when_no_events_logged(&0),
        Err(IndexerFault::StalledFeed { chain: Chain { id: 3 } })
    );
}

#[test]
fn watchdog_takes_a_moved_cursor_as_the_next_baseline() {
    let mut indexer = indexer();
    indexer.process_staking_event(&self_stake(1, 5, 0, 0), &meta(100, 1));
    let baseline = indexer.listen_with_timeout_reset(None).start_block;
    indexer.process_staking_event(&self_stake(1, 5, 0, 0), &meta(101, 2));
    let next = indexer.throw_when_no_events_logged(&baseline);
    assert_eq!(next, Ok(101));
    assert_eq!(
        indexer.throw_when_no_events_logged(&next.unwrap()),
        Err(IndexerFault::StalledFeed { chain: CHAIN })
    );
    assert_eq!(indexer.throw_when_no_events_logged(&500), Ok(101));
}

#[test]
fn watchdog_window_is_fifteen_minutes() {
    assert_eq!(WATCHDOG_WINDOW_SECS, 15 * 60);
}

#[test]
fn supervisor_restarts_after_every_end_from_the_current_cursor() {
    let mut indexer = indexer();
    assert_eq!(
        indexer.listen_with_timeout_reset(None),
        Restart { start_block: 0, reason: RestartReason::FirstStart }
    );
    indexer.process_staking_event(&self_stake(1, 5, 0, 0), &meta(321, 1));
    assert_eq!(
        indexer.listen_with_timeout_reset(Some(Ok(()))),
        Restart { start_block: 321, reason: RestartReason::EndedWithoutError }
    );
    let stalled = indexer.throw_when_no_events_logged(&321).unwrap_err();
    assert_eq!(
        indexer.listen_with_timeout_reset(Some(Err(stalled))),
        Restart { start_block: 321, reason: RestartReason::FeedStalled }
    );
    assert_eq!(
        indexer.listen_with_timeout_reset(Some(Err(IndexerFault::Transport))),
        Restart { start_block: 321, reason: RestartReason::EndedWithError }
    );
}

#[test]
fn cursor_never_falls_back_across_restarts() {
    let mut indexer = indexer();
    indexer.process_staking_event(&self_stake(1, 1000, 0, 0), &meta(100, 1));
    indexer.process_staking_event(&self_stake(2, 1000, 0, 0), &meta(90, 2));
    let before = indexer.listen_with_timeout_reset(None).start_block;
    assert_eq!(before, 100);
    let runs: Vec<Vec<(DecodedEvent, LogMeta)>> = vec![
        vec![(self_withdrawn(1, 1), meta(130, 3)), (self_withdrawn(1, 1), meta(120, 4))],
        vec![],
        vec![(self_withdrawn(2, 5000), meta(140, 5)), (DecodedEvent::Other, meta(150, 6))],
        vec![(self_withdrawn(2, 1), meta(125, 7))],
    ];
    let mut cursor = before;
    let mut starts = Vec::new();
    for logs in runs {
        let start = indexer.listen_with_timeout_reset(Some(Err(IndexerFault::Transport))).start_block;
        assert!(start >= cursor);
        starts.push(start);
        indexer.process_staking_events(&logs);
        cursor = start;
    }
    assert_eq!(starts, vec![100, 130, 130, 130]);
    let after = indexer.listen_with_timeout_reset(Some(Ok(()))).start_block;
    assert!(after >= before);
    assert_eq!(after, 130);
    let last = indexer.ledger.record(&CHAIN, &addr(2), &addr(2)).unwrap();
    assert_eq!(last.block_number, 125);
}

#[test]
fn event_from_a_block_below_the_cursor_leaves_the_cursor() {
    let mut indexer = indexer();
    assert_eq!(indexer.process_staking_event(&self_stake(1, 5, 0, 0), &meta(100, 1)), Applied::Stored);
    assert_eq!(indexer.process_staking_event(&self_stake(1, 5, 0, 0), &meta(50, 2)), Applied::Stored);
    assert_eq!(indexer.ledger.latest_block(&CHAIN), 100);
    assert_eq!(indexer.listen_with_timeout_reset(None).start_block, 100);
    assert_eq!(indexer.throw_when_no_events_logged(&100), Err(IndexerFault::StalledFeed { chain: CHAIN }));
    let record = indexer.ledger.record(&CHAIN, &addr(1), &addr(1)).unwrap();
    assert_eq!(record.block_number, 50);
    assert_eq!(record.amount, Amount::from_u64(10));
}

#[test]
fn same_event_delivered_twice_counts_twice() {
    let mut indexer = indexer();
    let event = community_stake(1, 2, 30, 700, 80);
    let log = meta(110, 0xbb);
    assert_eq!(indexer.process_staking_event(&event, &log), Applied::Stored);
    assert_eq!(indexer.process_staking_event(&event, &log), Applied::Stored);
    let record = indexer.ledger.record(&CHAIN, &addr(1), &addr(2)).unwrap();
    assert_eq!(record.amount, Amount::from_u64(60));
    assert_eq!(record.unlock_time, 700);
    assert_eq!(record.lock_duration, 80);
    assert_eq!(indexer.ledger.len(), 1);
}
