//! Where indexing starts, and what block it is at.

use vstd::prelude::*;

verus! {

/// The first block to index: the configured one; else the one behind the last
/// confirmed checkpoint; else the one behind the highest indexed block, where
/// the block index counts before the actions; else the first block.
///
/// The checkpoint only advances once batches complete contiguously, so it is
/// preferred over the highest indexed block, which can't tell "durably
/// confirmed" apart from "visible but a lower block is still in flight or
/// failed".
pub open spec fn start_block_of(
    configured: u32,
    checkpoint: Option<u32>,
    blocks: Option<u32>,
    actions: Option<u32>,
) -> int {
    if configured > 0 {
        configured as int
    } else if checkpoint is Some {
        checkpoint->0 + 1
    } else if blocks is Some {
        blocks->0 + 1
    } else if actions is Some {
        actions->0 + 1
    } else {
        1
    }
}

/// The first block to index; none if there is no block behind the last one.
pub fn start_block(
    configured: u32,
    checkpoint: Option<u32>,
    blocks: Option<u32>,
    actions: Option<u32>,
) -> (r: Option<u32>)
    ensures
        match r {
            Some(n) => n == start_block_of(configured, checkpoint, blocks, actions),
            None => start_block_of(configured, checkpoint, blocks, actions) > u32::MAX,
        },
{
    if configured > 0 {
        return Some(configured);
    }
    let found: Option<u32> = if checkpoint.is_some() {
        checkpoint
    } else if blocks.is_some() {
        blocks
    } else {
        actions
    };
    match found {
        Some(n) => n.checked_add(1),
        None => Some(1),
    }
}

/// The block that the processor is at.
pub struct Progress {
    pub last_block: u32,
}

impl Progress {
    /// Moves to a block, if a result is about one. Says whether the block was
    /// received before, or a later one was: a microfork, whose documents
    /// overwrite the earlier ones.
    pub fn enter(&mut self, block_num: Option<u32>) -> (microfork: bool)
        ensures
            final(self).last_block == match block_num {
                Some(n) => n,
                None => old(self).last_block,
            },
            microfork == (old(self).last_block > 0 && (block_num matches Some(n) && n <= old(
                self,
            ).last_block)),
    {
        match block_num {
            Some(n) => {
                let microfork: bool = self.last_block > 0 && n <= self.last_block;
                self.last_block = n;
                microfork
            },
            None => false,
        }
    }
}

/// Resuming behind a checkpoint starts at the first block that is not
/// confirmed.
pub proof fn law_resume_behind_checkpoint(
    checkpoint: u32,
    blocks: Option<u32>,
    actions: Option<u32>,
)
    ensures
        start_block_of(0, Some(checkpoint), blocks, actions) == checkpoint + 1,
{
}

} // verus!
