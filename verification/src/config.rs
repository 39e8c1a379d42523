//! The settings of the indexer and the API server.

use crate::chain::{ChainApiKind, ChainClient};
use crate::indexing::batch;
use crate::indexing::batch::index_name;
use crate::lists::no_items;
use crate::ship::requests::GetBlocksRequest;
use crate::text;
use vstd::prelude::*;

verus! {

#[derive(Debug, Clone)]
pub struct Config {
    pub chain: ChainConfig,
    pub indexer: IndexerConfig,
    pub elasticsearch: ElasticConfig,
    pub api: ApiConfig,
}

#[derive(Debug, Clone)]
pub struct ChainConfig {
    /// Short chain name, used as the index prefix (e.g. `wax`, `eos`).
    pub name: String,
    /// Chain API endpoint (nodeos REST or PulseVM JSON-RPC, see `api`).
    pub http: String,
    /// State-history websocket endpoint.
    pub ship: String,
    /// Chain API dialect: `antelope` (nodeos `/v1/chain/*` REST, default)
    /// or `pulsevm` (JSON-RPC 2.0, `pulsevm.*` methods).
    pub api: ChainApiKind,
    /// Privileged system account (`eosio` on Antelope, `pulse` on PulseVM);
    /// its `setabi` action updates the ABI cache inline.
    pub system_account: String,
}

#[derive(Debug, Clone)]
pub struct IndexerConfig {
    /// First block to index; 0 = resume from last indexed (or genesis).
    pub start_block: u32,
    /// Last block to index; 0 = follow the chain head indefinitely.
    pub stop_block: u32,
    pub fetch_block: bool,
    pub fetch_traces: bool,
    pub fetch_deltas: bool,
    pub max_messages_in_flight: u32,
    /// Concurrent raw block decoders; 0 decodes inline in the processor.
    pub decode_workers: usize,
    /// Documents per bulk request.
    pub batch_size: usize,
    /// Target maximum serialized bulk size, checked after each complete block.
    pub batch_max_bytes: usize,
    /// Max time a partial batch may wait before being flushed.
    pub flush_interval_ms: u64,
    /// Actions to skip, as `contract::action` (e.g. `eosio::onblock`).
    pub skip_actions: Vec<String>,
    /// Bulk requests allowed in flight at once. Each document carries an
    /// external version derived from its block position, so Elasticsearch
    /// itself rejects a stale write that lands out of order; completions are
    /// still confirmed in submission order so the resume checkpoint never
    /// advances past a batch that hasn't landed yet.
    pub writer_concurrency: usize,
}

#[derive(Debug, Clone)]
pub struct ElasticConfig {
    pub url: String,
    pub user: String,
    pub pass: String,
    /// Number of shards for new indices.
    pub shards: u32,
    pub replicas: u32,
}

#[derive(Debug, Clone)]
pub struct ApiConfig {
    pub listen: String,
    /// Hard cap on `limit` request parameters.
    pub max_limit: usize,
}

/// The system account of Antelope chains.
pub fn default_system_account() -> (r: String)
    ensures
        r@ == "eosio"@,
{
    "eosio".to_owned()
}

/// How many decoders are run by default: one less than there are processors,
/// but at most two; none if that number is not known.
pub open spec fn default_workers(cpus: Option<usize>) -> nat {
    match cpus {
        Some(n) => if n == 0 {
            0
        } else if n - 1 < 2 {
            (n - 1) as nat
        } else {
            2
        },
        None => 0,
    }
}

impl ChainConfig {
    pub fn client(&self) -> (r: ChainClient)
        ensures
            r.base() == text::trimmed_end(self.http@, '/'),
            r.dialect() == self.api,
    {
        ChainClient::new(self.http.as_str(), self.api)
    }
}

impl IndexerConfig {
    /// The default settings, on a machine with so many processors.
    pub fn for_cpus(cpus: Option<usize>) -> (r: Self)
        ensures
            r.start_block == 0,
            r.stop_block == 0,
            r.fetch_block && r.fetch_traces && r.fetch_deltas,
            r.max_messages_in_flight == 128,
            r.decode_workers == default_workers(cpus),
            r.batch_size == 2000,
            r.batch_max_bytes == 5_242_880,
            r.flush_interval_ms == 500,
            r.skip_actions@.len() == 0,
            r.writer_concurrency == 4,
    {
        let decode_workers: usize = match cpus {
            Some(n) => if n == 0 {
                0
            } else if n - 1 < 2 {
                n - 1
            } else {
                2
            },
            None => 0,
        };
        IndexerConfig {
            start_block: 0,
            stop_block: 0,
            fetch_block: true,
            fetch_traces: true,
            fetch_deltas: true,
            max_messages_in_flight: 128,
            decode_workers,
            batch_size: 2000,
            batch_max_bytes: 5_242_880,
            flush_interval_ms: 500,
            skip_actions: no_items(),
            writer_concurrency: 4,
        }
    }

    /// Whether the settings make sense, in the order in which they are
    /// checked.
    pub fn check(&self) -> (res: Result<(), &'static str>)
        ensures
            match res {
                Ok(_) => self.max_messages_in_flight > 0 && self.batch_size > 0
                    && self.batch_max_bytes > 0 && self.flush_interval_ms > 0,
                Err(e) => if self.max_messages_in_flight == 0 {
                    e@ == "max_messages_in_flight must be positive"@
                } else if self.batch_size == 0 {
                    e@ == "batch_size must be positive"@
                } else if self.batch_max_bytes == 0 {
                    e@ == "batch_max_bytes must be positive"@
                } else {
                    self.flush_interval_ms == 0 && e@ == "flush_interval_ms must be positive"@
                },
            },
    {
        if self.max_messages_in_flight == 0 {
            return Err("max_messages_in_flight must be positive");
        }
        if self.batch_size == 0 {
            return Err("batch_size must be positive");
        }
        if self.batch_max_bytes == 0 {
            return Err("batch_max_bytes must be positive");
        }
        if self.flush_interval_ms == 0 {
            return Err("flush_interval_ms must be positive");
        }
        Ok(())
    }

    /// The request for the blocks to index. The end of the range is exclusive.
    pub fn request(&self, start_block: u32) -> (r: GetBlocksRequest)
        requires
            self.stop_block < u32::MAX,
        ensures
            r == (GetBlocksRequest {
                start_block_num: start_block,
                end_block_num: if self.stop_block > 0 {
                    (self.stop_block + 1) as u32
                } else {
                    u32::MAX
                },
                max_messages_in_flight: self.max_messages_in_flight,
                irreversible_only: false,
                fetch_block: self.fetch_block,
                fetch_traces: self.fetch_traces,
                fetch_deltas: self.fetch_deltas,
            }),
    {
        GetBlocksRequest {
            start_block_num: start_block,
            end_block_num: if self.stop_block > 0 {
                self.stop_block + 1
            } else {
                u32::MAX
            },
            max_messages_in_flight: self.max_messages_in_flight,
            irreversible_only: false,
            fetch_block: self.fetch_block,
            fetch_traces: self.fetch_traces,
            fetch_deltas: self.fetch_deltas,
        }
    }
}

impl Default for ElasticConfig {
    fn default() -> (r: Self)
        ensures
            r.url@ == "http://127.0.0.1:9200"@,
            r.user@ == Seq::<char>::empty(),
            r.pass@ == Seq::<char>::empty(),
            r.shards == 1,
            r.replicas == 0,
    {
        ElasticConfig {
            url: "http://127.0.0.1:9200".to_owned(),
            user: String::new(),
            pass: String::new(),
            shards: 1,
            replicas: 0,
        }
    }
}

impl Default for ApiConfig {
    fn default() -> (r: Self)
        ensures
            r.listen@ == "127.0.0.1:7000"@,
            r.max_limit == 1000,
    {
        ApiConfig { listen: "127.0.0.1:7000".to_owned(), max_limit: 1000 }
    }
}

impl Config {
    /// Index name for a document type, e.g. `wax-action`.
    pub fn index(&self, kind: &str) -> (r: String)
        ensures
            r@ == batch::index_text(self.chain.name@, kind@),
    {
        index_name(self.chain.name.as_str(), kind)
    }
}

} // verus!
