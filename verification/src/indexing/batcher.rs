//! When documents are sent: after a block that fills a batch, or when a part
//! of one has waited long enough.

use crate::config::Config;
use crate::indexing::batch;
use crate::indexing::batch::{BulkBatch, DeleteWithoutId};
use crate::indexing::docs::{Doc, DocModel};
use crate::indexing::progress::Progress;
use vstd::prelude::*;

verus! {

/// Gathers the documents of blocks into batches. Times are in milliseconds,
/// on a clock that never goes back.
pub struct Batcher {
    pub batch: BulkBatch,
    /// When a batch was sent last; at first, when the work began.
    pub last_flush: u64,
    /// The block that is worked on.
    pub progress: Progress,
    /// The chain whose indices the documents are for.
    pub chain: String,
    pub batch_size: usize,
    pub batch_max_bytes: usize,
    pub flush_interval_ms: u64,
}

impl Batcher {
    pub open spec fn well_formed(&self) -> bool {
        self.batch.well_formed()
    }

    /// Whether the settings are those of another one.
    pub open spec fn same_settings(&self, other: Batcher) -> bool {
        &&& self.chain == other.chain
        &&& self.batch_size == other.batch_size
        &&& self.batch_max_bytes == other.batch_max_bytes
        &&& self.flush_interval_ms == other.flush_interval_ms
    }

    /// Whether no documents wait.
    pub open spec fn is_empty(&self) -> bool {
        self.batch.body@.len() == 0 && self.batch.count == 0 && self.batch.max_block == 0
    }

    /// When documents that wait are to be sent, if there are any.
    pub open spec fn due_time(&self) -> Option<int> {
        if self.batch.count > 0 {
            Some(self.last_flush + self.flush_interval_ms)
        } else {
            None
        }
    }

    pub fn new(config: &Config, now: u64) -> (r: Self)
        ensures
            r.well_formed(),
            r.is_empty(),
            r.last_flush == now,
            r.progress.last_block == 0,
            r.chain@ == config.chain.name@,
            r.batch_size == config.indexer.batch_size,
            r.batch_max_bytes == config.indexer.batch_max_bytes,
            r.flush_interval_ms == config.indexer.flush_interval_ms,
    {
        Batcher {
            batch: BulkBatch::new(),
            last_flush: now,
            progress: Progress { last_block: 0 },
            chain: config.chain.name.clone(),
            batch_size: config.indexer.batch_size,
            batch_max_bytes: config.indexer.batch_max_bytes,
            flush_interval_ms: config.indexer.flush_interval_ms,
        }
    }

    /// How long the documents that wait may still do so at a time; nothing if
    /// there are none.
    pub fn time_left(&self, now: u64) -> (r: Option<u64>)
        ensures
            match self.due_time() {
                Some(due) => r == Some(
                    if due > now {
                        if due - now > u64::MAX {
                            u64::MAX
                        } else {
                            (due - now) as u64
                        }
                    } else {
                        0
                    },
                ),
                None => r is None,
            },
    {
        if self.batch.count == 0 {
            return None;
        }
        let due: u128 = self.last_flush as u128 + self.flush_interval_ms as u128;
        if due <= now as u128 {
            return Some(0);
        }
        let left: u128 = due - now as u128;
        if left > u64::MAX as u128 {
            Some(u64::MAX)
        } else {
            Some(left as u64)
        }
    }

    /// Adds the documents of the block that is worked on, each with its body
    /// as JSON text. Returns a batch that is to be sent: once there are enough
    /// documents, or they are large enough, or they have waited long enough.
    /// Until a batch is sent, the documents that wait stay due at the same
    /// time, whatever comes in.
    pub fn add_block(
        &mut self,
        made: &Vec<Doc>,
        bodies: &Vec<Vec<u8>>,
        now: u64,
    ) -> (res: Result<Option<BulkBatch>, DeleteWithoutId>)
        requires
            old(self).well_formed(),
            bodies@.len() == made@.len(),
            made@.len() <= u32::MAX,
        ensures
            final(self).well_formed(),
            final(self).same_settings(*old(self)),
            final(self).progress == old(self).progress,
            ({
                let n = batch::sendable(made.deep_view(), 0);
                let block = old(self).progress.last_block;
                let all = old(self).batch.body@ + batch::block_bytes(
                    old(self).chain@,
                    block,
                    made.deep_view(),
                    bodies.deep_view(),
                    n,
                );
                let count = old(self).batch.count + n;
                let reach = if n > 0 {
                    batch::later(old(self).batch.max_block, block)
                } else {
                    old(self).batch.max_block
                };
                let due = count > 0 && (count >= old(self).batch_size || all.len() >= old(
                    self,
                ).batch_max_bytes || now >= old(self).last_flush + old(self).flush_interval_ms);
                match res {
                    Ok(Some(sent)) => {
                        &&& n == made@.len() && due
                        &&& sent.body@ == all && sent.count == count && sent.max_block == reach
                        &&& final(self).is_empty() && final(self).last_flush == now
                    },
                    Ok(None) => {
                        &&& n == made@.len() && !due
                        &&& final(self).batch.body@ == all && final(self).batch.count == count
                            && final(self).batch.max_block == reach
                        &&& final(self).last_flush == old(self).last_flush
                        &&& old(self).due_time() is Some ==> final(self).due_time() == old(
                            self,
                        ).due_time()
                    },
                    Err(_) => {
                        &&& n < made@.len()
                        &&& final(self).batch.body@ == all && final(self).batch.count == count
                            && final(self).batch.max_block == reach
                        &&& final(self).last_flush == old(self).last_flush
                    },
                }
            }),
    {
        proof {
            lemma_sendable(made.deep_view(), 0);
        }
        self.batch.push_block(self.chain.as_str(), self.progress.last_block, made, bodies)?;
        let waited: bool = now as u128 >= self.last_flush as u128
            + self.flush_interval_ms as u128;
        if self.batch.is_due(self.batch_size, self.batch_max_bytes, waited) {
            self.last_flush = now;
            Ok(Some(self.batch.take()))
        } else {
            Ok(None)
        }
    }

    /// Takes out the documents that wait, to be sent: when they are due, and
    /// at the end.
    pub fn flush(&mut self, now: u64) -> (r: Option<BulkBatch>)
        requires
            old(self).well_formed(),
        ensures
            final(self).well_formed(),
            final(self).same_settings(*old(self)),
            final(self).progress == old(self).progress,
            match r {
                Some(sent) => {
                    &&& old(self).batch.count > 0 && sent == old(self).batch
                    &&& final(self).is_empty() && final(self).last_flush == now
                },
                None => old(self).batch.count == 0 && *final(self) == *old(self),
            },
    {
        if self.batch.count == 0 {
            return None;
        }
        self.last_flush = now;
        Some(self.batch.take())
    }
}

proof fn lemma_sendable(docs: Seq<DocModel>, from: nat)
    requires
        from <= docs.len(),
    ensures
        from <= batch::sendable(docs, from) <= docs.len(),
    decreases docs.len() - from,
{
    if from < docs.len() {
        lemma_sendable(docs, from + 1);
    }
}

} // verus!
