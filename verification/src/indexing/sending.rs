//! What is sent to the index: every document of a block once, in its order,
//! under a version that tells the block and the place in it.

use crate::indexing::batch;
use crate::indexing::batcher::Batcher;
use crate::indexing::docs::{DocModel, Op};
use crate::indexing::progress;
use vstd::prelude::*;

verus! {

/// The bytes of each document that is sent stand in those of the block, in its
/// place: behind those of the documents before it and in front of those behind
/// it, with its own body, its own index, and a version of its own.
pub proof fn law_every_document_is_sent(
    chain: Seq<char>,
    block: u32,
    docs: Seq<DocModel>,
    bodies: Seq<Seq<u8>>,
    n: nat,
    k: int,
) -> (after: Seq<u8>)
    requires
        0 <= k < n <= docs.len(),
        bodies.len() == docs.len(),
        n <= u32::MAX,
    ensures
        batch::block_bytes(chain, block, docs, bodies, n) == batch::block_bytes(
            chain,
            block,
            docs,
            bodies,
            k as nat,
        ) + batch::entry_bytes(
            docs[k],
            chain + seq!['-'] + docs[k].kind,
            bodies[k],
            (block * 0x1_0000_0000 + k) as u64,
        ) + after,
        batch::block_bytes(chain, block, docs, bodies, 0).len() == 0,
    decreases n,
{
    let all = batch::block_bytes(chain, block, docs, bodies, n);
    let before = batch::block_bytes(chain, block, docs, bodies, k as nat);
    let own = batch::entry_bytes(
        docs[k],
        chain + seq!['-'] + docs[k].kind,
        bodies[k],
        (block * 0x1_0000_0000 + k) as u64,
    );
    if k == n - 1 {
        assert(all =~= before + own + Seq::<u8>::empty());
        Seq::empty()
    } else {
        let m = (n - 1) as nat;
        let tail = law_every_document_is_sent(chain, block, docs, bodies, m, k);
        let last = batch::entry_bytes(
            docs[m as int],
            batch::index_text(chain, docs[m as int].kind),
            bodies[m as int],
            batch::document_version(block, m as u32) as u64,
        );
        assert(all =~= before + own + (tail + last));
        tail + last
    }
}

/// What is sent of a document: a line that says what is done, and its body on a
/// line of its own exactly if it is indexed.
pub proof fn law_bodies_are_sent(doc: DocModel, index: Seq<char>, body: Seq<u8>, version: u64)
    ensures
        ({
            let line = vstd::utf8::encode_utf8(
                batch::meta_line(doc.op, index, doc.id, version),
            );
            let sent = batch::entry_bytes(doc, index, body, version);
            &&& doc.op == Op::Index ==> sent == line + body + seq![10u8]
            &&& doc.op == Op::Delete ==> sent == line
        }),
{
}

/// All documents are sent exactly if none is to be deleted without an id; else
/// those in front of the first such one are.
pub proof fn law_sendable(docs: Seq<DocModel>, from: nat)
    requires
        from <= docs.len(),
    ensures
        ({
            let n = batch::sendable(docs, from);
            &&& from <= n <= docs.len()
            &&& forall|i: int|
                from <= i < n ==> !((#[trigger] docs[i]).op == Op::Delete && docs[i].id is None)
            &&& n < docs.len() ==> docs[n as int].op == Op::Delete && docs[n as int].id is None
        }),
    decreases docs.len() - from,
{
    if from < docs.len() && !(docs[from as int].op == Op::Delete && docs[from as int].id is None) {
        law_sendable(docs, from + 1);
    }
}

/// A batch reaches as far as the latest block in it.
pub proof fn law_batches_reach_the_latest(a: u32, b: u32, block: u32, place: u32)
    ensures
        batch::later(a, b) >= a,
        batch::later(a, b) >= b,
        batch::later(a, b) == a || batch::later(a, b) == b,
        batch::version_block((block * 0x1_0000_0000 + place) as u64) == block,
{
    batch::law_version_tells_block(block, place);
}

/// Documents that wait are due one interval after the last batch was sent; if
/// none wait, nothing is due.
pub proof fn law_waiting_documents_are_due(b: Batcher)
    ensures
        b.batch.count > 0 ==> b.due_time() == Some(b.last_flush + b.flush_interval_ms),
        b.batch.count == 0 ==> b.due_time() is None,
        b.is_empty() ==> b.batch.count == 0 && b.batch.body@.len() == 0,
{
}

/// Indexing starts at the configured block if there is one. Else it goes on
/// behind the checkpoint; without one, behind the highest block that is
/// indexed; without one, behind the highest block of an action; and else with
/// the first block. No block that is known to be done is done again, and none
/// behind it is left out.
pub proof fn law_start_block(
    configured: u32,
    checkpoint: Option<u32>,
    blocks: Option<u32>,
    actions: Option<u32>,
)
    ensures
        ({
            let start = progress::start_block_of(configured, checkpoint, blocks, actions);
            &&& start >= 1
            &&& configured > 0 ==> start == configured
            &&& configured == 0 ==> {
                &&& checkpoint matches Some(n) ==> start - 1 == n
                &&& checkpoint is None ==> (blocks matches Some(n) ==> start - 1 == n)
                &&& checkpoint is None && blocks is None ==> (actions matches Some(n) ==> start - 1
                    == n)
                &&& checkpoint is None && blocks is None && actions is None ==> start == 1
            }
        }),
{
}

} // verus!
