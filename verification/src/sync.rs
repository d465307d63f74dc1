//! The block synchronisation loop as a state machine: which block to fetch
//! next, and what a fetch outcome does to the position.

use vstd::prelude::*;

verus! {

/// Seconds to wait before fetching a block again after it was missing or
/// the fetch failed.
pub const RETRY_WAIT_SECS: u64 = 30;

/// What came of fetching one block.
#[derive(Clone, Copy, Debug, PartialEq, Eq, Structural)]
pub enum BlockFetch {
    /// The block was there; its transactions have been processed.
    Found,
    /// The node does not have the block yet.
    Missing,
    /// The node could not be asked.
    Failed,
}

/// The next block height to synchronise and the last one to reach.
#[derive(Clone, Copy, Debug, PartialEq, Eq, Structural)]
pub struct SyncCursor {
    pub current: u64,
    pub end: u64,
}

/// What the loop does next.
#[derive(Clone, Copy, Debug, PartialEq, Eq, Structural)]
pub enum SyncAction {
    /// Fetch the block at this height and process its transactions.
    Fetch(u64),
    /// Every block up to the end has been processed.
    Finished,
}

/// The result of handing a fetch outcome to the cursor.
#[derive(Clone, Copy, Debug, PartialEq, Eq, Structural)]
pub enum SyncStep {
    /// Go on from `cursor` after waiting `wait_secs` seconds.
    Continue { cursor: SyncCursor, wait_secs: u64 },
    /// The block at `u64::MAX` was processed and the height cannot advance.
    HeightOverflow,
}

/// The cursor after a fetch with outcome `fetched`: a found block moves it on
/// by one, anything else leaves it where it is.
pub open spec fn next_cursor(c: SyncCursor, fetched: BlockFetch) -> SyncCursor {
    match fetched {
        BlockFetch::Found => SyncCursor { current: (c.current + 1) as u64, end: c.end },
        _ => c,
    }
}

/// The heights whose blocks are processed, in order, when the fetches from
/// cursor `c` on have the outcomes `outcomes` (the loop stops past the end,
/// and after processing the block at `u64::MAX`, where the height cannot
/// advance).
pub open spec fn processed_heights(c: SyncCursor, outcomes: Seq<BlockFetch>) -> Seq<u64>
    decreases outcomes.len(),
{
    if outcomes.len() == 0 || c.current > c.end {
        seq![]
    } else if outcomes[0] == BlockFetch::Found && c.current == u64::MAX {
        seq![c.current]
    } else {
        let rest = processed_heights(next_cursor(c, outcomes[0]), outcomes.drop_first());
        if outcomes[0] == BlockFetch::Found {
            seq![c.current].add(rest)
        } else {
            rest
        }
    }
}

/// How many of `outcomes` are found blocks.
pub open spec fn found_count(outcomes: Seq<BlockFetch>) -> nat
    decreases outcomes.len(),
{
    if outcomes.len() == 0 {
        0
    } else {
        found_count(outcomes.drop_first()) + if outcomes[0] == BlockFetch::Found {
            1nat
        } else {
            0nat
        }
    }
}

/// How many blocks are left to process from cursor `c`.
pub open spec fn blocks_left(c: SyncCursor) -> nat {
    if c.current <= c.end {
        (c.end - c.current + 1) as nat
    } else {
        0
    }
}

impl SyncCursor {
    /// A cursor that synchronises the blocks `start..=end`.
    pub fn new(start: u64, end: u64) -> (res: SyncCursor)
        ensures
            res.current == start,
            res.end == end,
    {
        SyncCursor { current: start, end }
    }

    /// Fetch the current block while it is not past the end.
    pub fn next_action(&self) -> (res: SyncAction)
        ensures
            res == (if self.current <= self.end {
                SyncAction::Fetch(self.current)
            } else {
                SyncAction::Finished
            }),
    {
        if self.current <= self.end {
            SyncAction::Fetch(self.current)
        } else {
            SyncAction::Finished
        }
    }

    /// Hands the outcome of fetching the current block to the cursor: a found
    /// block moves on to the next height at once; a missing block or a failed
    /// fetch is tried again after `RETRY_WAIT_SECS` seconds.
    pub fn step(&self, fetched: BlockFetch) -> (res: SyncStep)
        requires
            self.current <= self.end,
        ensures
            fetched == BlockFetch::Found && self.current == u64::MAX ==> res
                == SyncStep::HeightOverflow,
            !(fetched == BlockFetch::Found && self.current == u64::MAX) ==> res
                == (SyncStep::Continue {
                cursor: next_cursor(*self, fetched),
                wait_secs: if fetched == BlockFetch::Found {
                    0
                } else {
                    RETRY_WAIT_SECS
                },
            }),
    {
        match fetched {
            BlockFetch::Found => {
                if self.current == u64::MAX {
                    SyncStep::HeightOverflow
                } else {
                    SyncStep::Continue {
                        cursor: SyncCursor { current: self.current + 1, end: self.end },
                        wait_secs: 0,
                    }
                }
            },
            _ => SyncStep::Continue { cursor: *self, wait_secs: RETRY_WAIT_SECS },
        }
    }
}

/// Blocks are processed one after another from the cursor's height on, none
/// skipped and none twice, whatever misses and failures come between; and
/// every found block up to the end is processed, so the run covers
/// `min(found blocks, blocks left)` consecutive heights.
pub proof fn lemma_sync_in_order(c: SyncCursor, outcomes: Seq<BlockFetch>)
    ensures
        processed_heights(c, outcomes).len() == (if found_count(outcomes) < blocks_left(c) {
            found_count(outcomes)
        } else {
            blocks_left(c)
        }),
        forall|i: int|
            0 <= i < processed_heights(c, outcomes).len() ==> #[trigger] processed_heights(
                c,
                outcomes,
            )[i] == c.current + i,
    decreases outcomes.len(),
{
    if outcomes.len() == 0 || c.current > c.end {
    } else if outcomes[0] == BlockFetch::Found && c.current == u64::MAX {
        assert(found_count(outcomes) >= 1);
    } else {
        let next = next_cursor(c, outcomes[0]);
        let tail = outcomes.drop_first();
        lemma_sync_in_order(next, tail);
        let rest = processed_heights(next, tail);
        if outcomes[0] == BlockFetch::Found {
            let all = seq![c.current].add(rest);
            assert(processed_heights(c, outcomes) == all);
            assert forall|i: int| 0 <= i < all.len() implies #[trigger] all[i] == c.current + i by {
                if i > 0 {
                    assert(all[i] == rest[i - 1]);
                }
            }
        }
    }
}

/// A missing block or a failed fetch never moves the cursor, whatever the
/// end (following the chain tip with `end == u64::MAX` included); a found
/// block moves it on by exactly one height; the end never changes.
pub proof fn lemma_fetch_moves_cursor(c: SyncCursor)
    ensures
        next_cursor(c, BlockFetch::Missing) == c,
        next_cursor(c, BlockFetch::Failed) == c,
        next_cursor(c, BlockFetch::Found).end == c.end,
        c.current < u64::MAX ==> next_cursor(c, BlockFetch::Found).current == c.current + 1,
{
}

/// From any cursor, whatever the outcomes, the processed heights are
/// consecutive from the cursor's height, never past the end, and each one is
/// the height of a fetch that found its block.
pub proof fn lemma_sync_never_skips(c: SyncCursor, outcomes: Seq<BlockFetch>)
    ensures
        forall|i: int|
            0 <= i < processed_heights(c, outcomes).len() ==> {
                &&& #[trigger] processed_heights(c, outcomes)[i] == c.current + i
                &&& processed_heights(c, outcomes)[i] <= c.end
            },
        processed_heights(c, outcomes).len() <= found_count(outcomes),
{
    lemma_sync_in_order(c, outcomes);
}

} // verus!
