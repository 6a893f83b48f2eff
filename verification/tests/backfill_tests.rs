use indexer::backfill::{Backfill, BlockRange, CHUNK_SIZE, FALLBACK_HEAD};

fn drain(backfill: &mut Backfill) -> Vec<BlockRange> {
    let mut ranges = Vec::new();
    while let Some(range) = backfill.next_chunk() {
        assert_eq!(backfill.advance(), Some(range));
        ranges.push(range);
    }
    ranges
}

#[test]
fn constants() {
    assert_eq!(CHUNK_SIZE, 2000);
    assert_eq!(FALLBACK_HEAD, 2);
}

#[test]
fn ten_thousand_blocks_take_five_queries() {
    let mut backfill = Backfill::start(0, Some(10_001));
    let ranges = drain(&mut backfill);
    assert_eq!(
        ranges,
        vec![
            BlockRange { from_block: 1, to_block: 2000 },
            BlockRange { from_block: 2001, to_block: 4000 },
            BlockRange { from_block: 4001, to_block: 6000 },
            BlockRange { from_block: 6001, to_block: 8000 },
            BlockRange { from_block: 8001, to_block: 10_000 },
        ]
    );
    assert_eq!(backfill.last_queried_block, 10_000);
    assert_eq!(backfill.current_block, 10_001);
    assert_eq!(backfill.next_chunk(), None);
    assert_eq!(backfill.advance(), None);
    assert_eq!(backfill.last_queried_block, 10_000);
}

#[test]
fn ranges_tile_the_backlog_without_gap_or_overlap() {
    let start = 12_345u64;
    let head = 23_456u64;
    let mut backfill = Backfill::start(start, Some(head));
    let ranges = drain(&mut backfill);
    assert_eq!(ranges.len(), 6);
    let mut expected_from = start + 1;
    for range in &ranges {
        assert_eq!(range.from_block, expected_from);
        assert!(range.to_block >= range.from_block);
        assert!(range.to_block - range.from_block + 1 <= 2000);
        expected_from = range.to_block + 1;
    }
    assert_eq!(ranges.last().unwrap().to_block, head - 1);
}

#[test]
fn last_range_is_cut_one_below_the_head() {
    let backfill = Backfill::start(100, Some(121));
    assert_eq!(backfill.next_chunk(), Some(BlockRange { from_block: 101, to_block: 120 }));
}

#[test]
fn range_of_one_block() {
    let mut backfill = Backfill::start(100, Some(102));
    assert_eq!(backfill.advance(), Some(BlockRange { from_block: 101, to_block: 101 }));
    assert_eq!(backfill.next_chunk(), None);
}

#[test]
fn nothing_to_backfill_at_or_near_the_head() {
    assert_eq!(Backfill::start(100, Some(101)).next_chunk(), None);
    assert_eq!(Backfill::start(100, Some(100)).next_chunk(), None);
    assert_eq!(Backfill::start(100, Some(50)).next_chunk(), None);
    assert_eq!(Backfill::start(0, Some(0)).next_chunk(), None);
    assert_eq!(Backfill::start(0, Some(1)).next_chunk(), None);
    assert_eq!(Backfill::start(5, Some(0)).next_chunk(), None);
}

#[test]
fn unknown_head_falls_back_to_two() {
    let backfill = Backfill::start(0, None);
    assert_eq!(backfill.current_block, 2);
    assert_eq!(backfill.next_chunk(), Some(BlockRange { from_block: 1, to_block: 1 }));
    let resumed = Backfill::start(500, None);
    assert_eq!(resumed.current_block, 2);
    assert_eq!(resumed.next_chunk(), None);
    assert_eq!(resumed.live_start_block(), 501);
}

#[test]
fn full_chunk_when_exactly_chunk_size_is_left() {
    let backfill = Backfill::start(0, Some(2001));
    assert_eq!(backfill.next_chunk(), Some(BlockRange { from_block: 1, to_block: 2000 }));
    let longer = Backfill::start(0, Some(2002));
    assert_eq!(longer.next_chunk(), Some(BlockRange { from_block: 1, to_block: 2000 }));
}

#[test]
fn chunks_near_the_top_of_the_block_range() {
    let mut backfill = Backfill::start(u64::MAX - 3000, Some(u64::MAX));
    let ranges = drain(&mut backfill);
    assert_eq!(
        ranges,
        vec![
            BlockRange { from_block: u64::MAX - 2999, to_block: u64::MAX - 1000 },
            BlockRange { from_block: u64::MAX - 999, to_block: u64::MAX - 1 },
        ]
    );
    assert_eq!(backfill.live_start_block(), u64::MAX);
}

#[test]
fn live_feed_starts_at_the_head_after_a_backfill() {
    let mut backfill = Backfill::start(100, Some(5000));
    let ranges = drain(&mut backfill);
    assert_eq!(ranges.last().unwrap().to_block, 4999);
    assert_eq!(backfill.live_start_block(), 5000);
    for range in &ranges {
        assert!(range.to_block < backfill.live_start_block());
    }
}

#[test]
fn live_feed_starts_after_the_cursor_when_the_head_is_behind() {
    assert_eq!(Backfill::start(100, Some(50)).live_start_block(), 101);
    assert_eq!(Backfill::start(100, Some(100)).live_start_block(), 101);
    assert_eq!(Backfill::start(100, Some(101)).live_start_block(), 101);
    assert_eq!(Backfill::start(100, Some(102)).live_start_block(), 102);
    assert_eq!(Backfill::start(0, Some(0)).live_start_block(), 1);
}

#[test]
fn advance_keeps_the_head() {
    let mut backfill = Backfill { last_queried_block: 10, current_block: 9000 };
    backfill.advance();
    assert_eq!(backfill, Backfill { last_queried_block: 2010, current_block: 9000 });
}
