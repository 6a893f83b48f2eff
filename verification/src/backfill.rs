//! Draining the backlog between the cursor and the chain head in bounded
//! ranges, and the block at which the live feed takes over.

use vstd::prelude::*;

verus! {

/// The widest range of blocks asked of a node in one query.
pub const CHUNK_SIZE: u64 = 2000;

/// The head assumed while the node cannot report its own.
pub const FALLBACK_HEAD: u64 = 2;

/// A range of blocks, both ends included.
#[derive(Clone, Copy, Debug, PartialEq, Eq, Structural)]
pub struct BlockRange {
    pub from_block: u64,
    pub to_block: u64,
}

/// The head to work with: the one the node reported, or the fallback.
pub open spec fn resolved_head(reported: Option<u64>) -> u64 {
    match reported {
        Some(head) => head,
        None => FALLBACK_HEAD,
    }
}

/// Whether blocks are left to backfill. The block at the head itself is
/// held back, so the backlog ends one block below the head.
pub open spec fn behind(last: u64, head: u64) -> bool {
    last < head - 1
}

/// The next range to query: it starts right after the last block queried
/// and spans at most [`CHUNK_SIZE`] blocks, ending one below the head at
/// the latest. There is none once the backlog is drained.
pub open spec fn next_range(last: u64, head: u64) -> Option<BlockRange> {
    if behind(last, head) {
        Some(
            BlockRange {
                from_block: (last + 1) as u64,
                to_block: if last + CHUNK_SIZE <= head - 1 {
                    (last + CHUNK_SIZE) as u64
                } else {
                    (head - 1) as u64
                },
            },
        )
    } else {
        None
    }
}

/// The last block queried once the next range has been asked for; the
/// same block as before where there is no next range.
pub open spec fn advanced(last: u64, head: u64) -> u64 {
    match next_range(last, head) {
        Some(range) => range.to_block,
        None => last,
    }
}

/// The last block queried once the whole backlog is drained.
pub open spec fn drained(last: u64, head: u64) -> u64 {
    if behind(last, head) {
        (head - 1) as u64
    } else {
        last
    }
}

/// All the ranges that a backfill asks for, in order, from the block last
/// queried up to one below the head.
pub open spec fn chunk_plan(last: u64, head: u64) -> Seq<BlockRange>
    decreases head - last,
{
    match next_range(last, head) {
        Some(range) => seq![range] + chunk_plan(range.to_block, head),
        None => Seq::empty(),
    }
}

/// How many ranges a backfill asks for: the backlog divided by the chunk
/// size, rounded up.
pub open spec fn chunk_count(last: u64, head: u64) -> int {
    if behind(last, head) {
        (head - 1 - last + (CHUNK_SIZE - 1)) / (CHUNK_SIZE as int)
    } else {
        0
    }
}

/// The first block of the live subscription: the block after the last one
/// queried, or the head where that is later.
pub open spec fn live_start(last: u64, head: u64) -> int {
    if last + 1 >= head {
        last + 1
    } else {
        head as int
    }
}

/// The progress of one backfill towards a head that was read once, when
/// the backfill began.
#[derive(Clone, Copy, Debug, PartialEq, Eq, Structural)]
pub struct Backfill {
    /// The last block whose range has been asked for.
    pub last_queried_block: u64,
    /// The head as read when the backfill began.
    pub current_block: u64,
}

impl Backfill {
    /// A backfill that resumes after `query_start_block`, towards the head
    /// the node reported, or towards [`FALLBACK_HEAD`] where it reported
    /// none.
    pub fn start(query_start_block: u64, reported_head: Option<u64>) -> (backfill: Backfill)
        ensures
            backfill.last_queried_block == query_start_block,
            backfill.current_block == resolved_head(reported_head),
    {
        let current_block = match reported_head {
            Some(head) => head,
            None => FALLBACK_HEAD,
        };
        Backfill { last_queried_block: query_start_block, current_block }
    }

    /// The next range to query, or nothing once the backlog is drained.
    pub fn next_chunk(&self) -> (range: Option<BlockRange>)
        ensures
            range == next_range(self.last_queried_block, self.current_block),
    {
        if self.current_block == 0 {
            return None;
        }
        let limit = self.current_block - 1;
        if self.last_queried_block >= limit {
            return None;
        }
        let to_block = if limit - self.last_queried_block <= CHUNK_SIZE {
            limit
        } else {
            self.last_queried_block + CHUNK_SIZE
        };
        Some(BlockRange { from_block: self.last_queried_block + 1, to_block })
    }

    /// Moves past the next range, whether or not its query succeeded, and
    /// returns that range; changes nothing once the backlog is drained.
    pub fn advance(&mut self) -> (range: Option<BlockRange>)
        ensures
            range == next_range(old(self).last_queried_block, old(self).current_block),
            final(self).last_queried_block == advanced(
                old(self).last_queried_block,
                old(self).current_block,
            ),
            final(self).current_block == old(self).current_block,
    {
        let range = self.next_chunk();
        match range {
            Some(chunk) => {
                self.last_queried_block = chunk.to_block;
            },
            None => {},
        }
        range
    }

    /// The block at which the live subscription starts.
    pub fn live_start_block(&self) -> (block: u64)
        requires
            self.last_queried_block < u64::MAX,
        ensures
            block == live_start(self.last_queried_block, self.current_block),
    {
        let next = self.last_queried_block + 1;
        if next >= self.current_block {
            next
        } else {
            self.current_block
        }
    }
}

/// Each range of a backfill has a closed form: range `i` starts
/// `i` chunks after the block that follows the cursor and ends a chunk
/// later or one below the head, whichever comes first; and there are as
/// many ranges as [`chunk_count`] says.
pub proof fn lemma_chunk_plan_closed_form(last: u64, head: u64)
    ensures
        chunk_plan(last, head).len() == chunk_count(last, head),
        forall|i: int|
            0 <= i < chunk_plan(last, head).len() ==> {
                &&& (#[trigger] chunk_plan(last, head)[i]).from_block == last + 1 + CHUNK_SIZE * i
                &&& chunk_plan(last, head)[i].to_block == if last + CHUNK_SIZE * (i + 1) <= head
                    - 1 {
                    last + CHUNK_SIZE * (i + 1)
                } else {
                    head - 1
                }
            },
    decreases head - last,
{
    match next_range(last, head) {
        Some(range) => {
            let rest = chunk_plan(range.to_block, head);
            lemma_chunk_plan_closed_form(range.to_block, head);
            assert forall|i: int| 0 <= i < chunk_plan(last, head).len() implies {
                &&& (#[trigger] chunk_plan(last, head)[i]).from_block == last + 1 + CHUNK_SIZE * i
                &&& chunk_plan(last, head)[i].to_block == if last + CHUNK_SIZE * (i + 1) <= head
                    - 1 {
                    last + CHUNK_SIZE * (i + 1)
                } else {
                    head - 1
                }
            } by {
                if i > 0 {
                    assert(chunk_plan(last, head)[i] == rest[i - 1]);
                }
            }
        },
        None => {},
    }
}

/// A backfill leaves no block out and asks for none twice: its ranges are
/// never empty, span at most [`CHUNK_SIZE`] blocks each, begin right after
/// the cursor, follow one another without a gap, and end one block below
/// the head. Their number is the backlog divided by the chunk size,
/// rounded up.
pub proof fn lemma_chunks_tile_backlog(last: u64, head: u64)
    requires
        behind(last, head),
    ensures
        chunk_plan(last, head).len() == chunk_count(last, head),
        chunk_plan(last, head).len() >= 1,
        chunk_plan(last, head).first().from_block == last + 1,
        chunk_plan(last, head).last().to_block == head - 1,
        forall|i: int|
            0 <= i < chunk_plan(last, head).len() ==> {
                &&& (#[trigger] chunk_plan(last, head)[i]).from_block <= chunk_plan(
                    last,
                    head,
                )[i].to_block
                &&& chunk_plan(last, head)[i].to_block - chunk_plan(last, head)[i].from_block
                    < CHUNK_SIZE
            },
        forall|i: int|
            0 <= i < chunk_plan(last, head).len() - 1 ==> (#[trigger] chunk_plan(last, head)[i
                + 1]).from_block == chunk_plan(last, head)[i].to_block + 1,
{
    lemma_chunk_plan_closed_form(last, head);
    let plan = chunk_plan(last, head);
    assert forall|i: int| 0 <= i < plan.len() - 1 implies (#[trigger] plan[i + 1]).from_block
        == plan[i].to_block + 1 by {
        assert(plan[i].from_block == last + 1 + CHUNK_SIZE * i);
    }
}

/// Draining the backlog range by range ends where [`drained`] says: one
/// block below the head, or at the cursor where nothing was left to do.
pub proof fn lemma_plan_ends_drained(last: u64, head: u64)
    ensures
        !behind(drained(last, head), head),
        chunk_plan(last, head).len() > 0 ==> chunk_plan(last, head).last().to_block == drained(
            last,
            head,
        ),
        chunk_plan(last, head).len() == 0 ==> drained(last, head) == last,
{
    if behind(last, head) {
        lemma_chunks_tile_backlog(last, head);
    }
}

/// The live feed takes over exactly where the backfill stops. With the
/// head read once, the subscription starts at the block right after the
/// last one backfilled; every backfilled range lies above the cursor and
/// wholly below that block, so no block is both backfilled and streamed;
/// and where the cursor was below the head, that block is the head itself.
pub proof fn lemma_live_feed_follows_backfill(last: u64, head: u64)
    ensures
        live_start(drained(last, head), head) == drained(last, head) + 1,
        last < head ==> live_start(drained(last, head), head) == head,
        forall|i: int|
            0 <= i < chunk_plan(last, head).len() ==> last < (#[trigger] chunk_plan(
                last,
                head,
            )[i]).from_block && chunk_plan(last, head)[i].to_block < live_start(
                drained(last, head),
                head,
            ),
{
    lemma_chunk_plan_closed_form(last, head);
}

} // verus!
