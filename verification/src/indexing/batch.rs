//! Bulk requests: documents framed as newline-delimited JSON, each under a
//! version that grows with its block.

use crate::bytes::append_bytes;
use crate::foreign;
use crate::indexing::docs::{Doc, DocModel, Op};
use crate::lists;
use crate::text;
use vstd::prelude::*;
use vstd::string::*;

verus! {

/// Documents that are sent together.
#[derive(Default)]
pub struct BulkBatch {
    pub body: Vec<u8>,
    pub count: usize,
    /// Highest block any document in this batch belongs to, so the writer
    /// can advance the resume checkpoint once the batch is durably written.
    pub max_block: u32,
}

/// A document cannot be deleted: it has no id.
#[derive(Debug)]
pub struct DeleteWithoutId;

/// The line before a document: what is done, in which index, under which id
/// and version.
pub open spec fn meta_line(
    op: Op,
    index: Seq<char>,
    id: Option<Seq<char>>,
    version: u64,
) -> Seq<char> {
    (if op == Op::Index {
        "{\"index\":{\"_index\":"@
    } else {
        "{\"delete\":{\"_index\":"@
    }) + foreign::json_literal(index) + match id {
        Some(i) => ",\"_id\":"@ + foreign::json_literal(i),
        None => seq![],
    } + ",\"version_type\":\"external\",\"version\":"@ + text::decimal(version as nat) + "}}\n"@
}

/// The bytes of a document in a batch: the line before it, and its body on a
/// line of its own unless it is deleted.
pub open spec fn entry_bytes(
    doc: DocModel,
    index: Seq<char>,
    body: Seq<u8>,
    version: u64,
) -> Seq<u8> {
    let meta = vstd::utf8::encode_utf8(meta_line(doc.op, index, doc.id, version));
    if doc.op == Op::Index {
        meta + body + seq![10u8]
    } else {
        meta
    }
}

/// The block that a version belongs to.
pub open spec fn version_block(version: u64) -> u32 {
    (version / 0x1_0000_0000) as u32
}

/// The version of a document: high bits = block, low bits = position within
/// the block. It always increases across blocks, and disambiguates multiple
/// updates to the same entity (e.g. a permission touched twice) within one.
pub open spec fn document_version(block: u32, seq: u32) -> nat {
    block as nat * 0x1_0000_0000 + seq as nat
}

pub fn version_of(block: u32, seq: u32) -> (r: u64)
    ensures
        r == document_version(block, seq),
{
    block as u64 * 0x1_0000_0000 + seq as u64
}

/// The larger of two block numbers.
pub open spec fn later(a: u32, b: u32) -> u32 {
    if a >= b {
        a
    } else {
        b
    }
}

/// The name of the index for documents of a kind, e.g. `wax-action`.
pub open spec fn index_text(chain: Seq<char>, kind: Seq<char>) -> Seq<char> {
    chain + seq!['-'] + kind
}

pub fn index_name(chain: &str, kind: &str) -> (r: String)
    ensures
        r@ == index_text(chain@, kind@),
{
    let mut out: String = chain.to_owned();
    out.push('-');
    out.append(kind);
    assert(out@ == index_text(chain@, kind@));
    out
}

/// How many of the documents from the first on can be sent: up to one that is
/// to be deleted and has no id.
pub open spec fn sendable(docs: Seq<DocModel>, from: nat) -> nat
    decreases docs.len() - from,
{
    if from >= docs.len() {
        docs.len()
    } else if docs[from as int].op == Op::Delete && docs[from as int].id is None {
        from
    } else {
        sendable(docs, from + 1)
    }
}

/// The bytes of the first `n` documents of a block.
pub open spec fn block_bytes(
    chain: Seq<char>,
    block: u32,
    docs: Seq<DocModel>,
    bodies: Seq<Seq<u8>>,
    n: nat,
) -> Seq<u8>
    decreases n,
{
    if n == 0 {
        seq![]
    } else {
        let doc = docs[n - 1];
        block_bytes(chain, block, docs, bodies, (n - 1) as nat) + entry_bytes(
            doc,
            index_text(chain, doc.kind),
            bodies[n - 1],
            document_version(block, (n - 1) as u32) as u64,
        )
    }
}

impl BulkBatch {
    /// Every document takes at least a byte.
    pub open spec fn well_formed(&self) -> bool {
        self.count <= self.body@.len()
    }

    pub fn new() -> (r: Self)
        ensures
            r.well_formed(),
            r.body@ == Seq::<u8>::empty(),
            r.count == 0,
            r.max_block == 0,
    {
        BulkBatch { body: Vec::new(), count: 0, max_block: 0 }
    }

    /// `version`'s high 32 bits are the document's block number, used both as
    /// the external version, so a write that arrives out of order is rejected
    /// rather than silently overwriting a newer document, and to track how far
    /// this batch's content reaches for the resume checkpoint. `body` is the
    /// document's body as JSON text.
    pub fn push(&mut self, index: &str, doc: &Doc, body: &[u8], version: u64) -> (res: Result<
        (),
        DeleteWithoutId,
    >)
        requires
            old(self).well_formed(),
        ensures
            final(self).well_formed(),
            res is Err <==> doc.op == Op::Delete && doc.id is None,
            res is Err ==> *final(self) == *old(self),
            res is Ok ==> {
                &&& final(self).body@ == old(self).body@ + entry_bytes(
                    doc.deep_view(),
                    index@,
                    body@,
                    version,
                )
                &&& final(self).count == old(self).count + 1
                &&& final(self).max_block == later(old(self).max_block, version_block(version))
            },
    {
        let ghost start = self.body@;
        if doc.op == Op::Delete && doc.id.is_none() {
            return Err(DeleteWithoutId);
        }
        let mut meta: String = if doc.op == Op::Index {
            "{\"index\":{\"_index\":".to_owned()
        } else {
            "{\"delete\":{\"_index\":".to_owned()
        };
        meta.append(foreign::json_string(index).as_str());
        if let Some(id) = &doc.id {
            meta.append(",\"_id\":");
            meta.append(foreign::json_string(id.as_str()).as_str());
        }
        meta.append(",\"version_type\":\"external\",\"version\":");
        text::push_decimal(&mut meta, version as u128);
        meta.append("}}\n");
        assert(meta@ =~= meta_line(doc.op, index@, doc.id.deep_view(), version));
        let line: &[u8] = meta.as_str().as_bytes();
        proof {
            lemma_meta_not_empty(doc.op, index@, doc.id.deep_view(), version);
        }
        append_bytes(&mut self.body, line);
        if doc.op == Op::Index {
            append_bytes(&mut self.body, body);
            self.body.push(10);
        }
        assert(self.body@ =~= start + entry_bytes(doc.deep_view(), index@, body@, version));
        assert(self.count < self.body.len());
        self.count = self.count + 1;
        let block: u32 = (version / 0x1_0000_0000) as u32;
        if block > self.max_block {
            self.max_block = block;
        }
        Ok(())
    }

    /// Appends the documents of a block, each with its body as JSON text,
    /// under versions that count up in their order.
    pub fn push_block(
        &mut self,
        chain: &str,
        block: u32,
        made: &Vec<Doc>,
        bodies: &Vec<Vec<u8>>,
    ) -> (res: Result<(), DeleteWithoutId>)
        requires
            old(self).well_formed(),
            bodies@.len() == made@.len(),
            made@.len() <= u32::MAX,
        ensures
            final(self).well_formed(),
            ({
                let n = sendable(made.deep_view(), 0);
                &&& res is Ok <==> n == made@.len()
                &&& final(self).body@ == old(self).body@ + block_bytes(
                    chain@,
                    block,
                    made.deep_view(),
                    bodies.deep_view(),
                    n,
                )
                &&& final(self).count == old(self).count + n
                &&& final(self).max_block == if n > 0 {
                    later(old(self).max_block, block)
                } else {
                    old(self).max_block
                }
            }),
    {
        let ghost docs = made.deep_view();
        let ghost texts = bodies.deep_view();
        let mut i: usize = 0;
        assert(self.body@ =~= old(self).body@ + block_bytes(chain@, block, docs, texts, 0));
        while i < made.len()
            invariant
                i <= made@.len() <= u32::MAX,
                bodies@.len() == made@.len(),
                docs == made.deep_view(),
                texts == bodies.deep_view(),
                self.well_formed(),
                sendable(docs, 0) == sendable(docs, i as nat),
                self.body@ == old(self).body@ + block_bytes(chain@, block, docs, texts, i as nat),
                self.count == old(self).count + i,
                self.max_block == if i > 0 {
                    later(old(self).max_block, block)
                } else {
                    old(self).max_block
                },
            decreases made@.len() - i,
        {
            let doc = &made[i];
            let ghost before = self.body@;
            let version: u64 = version_of(block, i as u32);
            let index = index_name(chain, doc.kind);
            assert(docs[i as int] == doc.deep_view());
            proof {
                lists::lemma_bytes_view(bodies@[i as int]);
                law_version_tells_block(block, i as u32);
            }
            self.push(index.as_str(), doc, bodies[i].as_slice(), version)?;
            i = i + 1;
            assert(self.body@ =~= old(self).body@ + block_bytes(
                chain@,
                block,
                docs,
                texts,
                i as nat,
            ));
        }
        Ok(())
    }

    /// Takes the documents out, and starts anew.
    pub fn take(&mut self) -> (r: BulkBatch)
        ensures
            r == *old(self),
            final(self).well_formed(),
            final(self).body@ == Seq::<u8>::empty(),
            final(self).count == 0,
            final(self).max_block == 0,
    {
        let mut r = BulkBatch::new();
        std::mem::swap(&mut r, self);
        r
    }

    /// Whether the documents are to be sent: there are some, and there are
    /// enough, or they are large enough, or they have waited long enough.
    pub fn is_due(&self, batch_size: usize, batch_max_bytes: usize, waited: bool) -> (r: bool)
        ensures
            r == (self.count > 0 && (self.count >= batch_size || self.body@.len()
                >= batch_max_bytes || waited)),
    {
        self.count > 0 && (self.count >= batch_size || self.body.len() >= batch_max_bytes
            || waited)
    }
}

proof fn lemma_meta_not_empty(op: Op, index: Seq<char>, id: Option<Seq<char>>, version: u64)
    ensures
        vstd::utf8::encode_utf8(meta_line(op, index, id, version)).len() > 0,
{
    let line = meta_line(op, index, id, version);
    assert(line.len() > 0) by {
        reveal_strlit("{\"index\":{\"_index\":");
        reveal_strlit("{\"delete\":{\"_index\":");
    }
    vstd::utf8::encode_utf8_decode_utf8(line);
    if vstd::utf8::encode_utf8(line).len() == 0 {
        assert(vstd::utf8::decode_utf8(vstd::utf8::encode_utf8(line)).len() == 0);
    }
}

// ---------------------------------------------------------------------------
// Versions and lines
// ---------------------------------------------------------------------------

/// A version tells the block that it was made for.
pub proof fn law_version_tells_block(block: u32, seq: u32)
    ensures
        document_version(block, seq) <= u64::MAX,
        version_block(document_version(block, seq) as u64) == block,
{
}

/// Versions increase across blocks, and within a block with the position: a
/// later write to a document always has the higher version.
pub proof fn law_versions_increase(a: u32, i: u32, b: u32, j: u32)
    ensures
        document_version(a, i) < document_version(b, j) <==> a < b || (a == b && i < j),
{
}

/// Whether a line break occurs in a text.
pub open spec fn has_break(s: Seq<char>) -> bool {
    exists|i: int| 0 <= i < s.len() && s[i] == '\n'
}

proof fn lemma_no_break(a: Seq<char>, b: Seq<char>)
    requires
        !has_break(a),
        !has_break(b),
    ensures
        !has_break(a + b),
{
    if has_break(a + b) {
        let i = choose|i: int| 0 <= i < (a + b).len() && (a + b)[i] == '\n';
        if i < a.len() {
            assert(a[i] == '\n');
        } else {
            assert(b[i - a.len()] == '\n');
        }
    }
}

proof fn lemma_literal_no_break(s: Seq<char>)
    ensures
        !has_break(foreign::json_chars(s)),
        !has_break(foreign::json_literal(s)),
    decreases s.len(),
{
    if s.len() > 0 {
        lemma_literal_no_break(s.drop_last());
        assert(!has_break(foreign::json_char(s.last())));
        lemma_no_break(foreign::json_chars(s.drop_last()), foreign::json_char(s.last()));
    }
    lemma_no_break(seq!['"'], foreign::json_chars(s));
    lemma_no_break(seq!['"'] + foreign::json_chars(s), seq!['"']);
}

/// The line before a document is one line, whatever the index and the id are:
/// its only line break is its last character.
pub proof fn law_meta_is_one_line(op: Op, index: Seq<char>, id: Option<Seq<char>>, version: u64)
    ensures
        meta_line(op, index, id, version).len() > 0,
        meta_line(op, index, id, version).last() == '\n',
        !has_break(meta_line(op, index, id, version).drop_last()),
{
    reveal_strlit("{\"index\":{\"_index\":");
    reveal_strlit("{\"delete\":{\"_index\":");
    reveal_strlit(",\"_id\":");
    reveal_strlit(",\"version_type\":\"external\",\"version\":");
    reveal_strlit("}}\n");
    let head = if op == Op::Index {
        "{\"index\":{\"_index\":"@
    } else {
        "{\"delete\":{\"_index\":"@
    };
    let under = match id {
        Some(i) => ",\"_id\":"@ + foreign::json_literal(i),
        None => seq![],
    };
    let digits = text::decimal(version as nat);
    lemma_literal_no_break(index);
    if let Some(i) = id {
        lemma_literal_no_break(i);
        lemma_no_break(",\"_id\":"@, foreign::json_literal(i));
    }
    text::lemma_decimal_value(version as nat);
    assert(!has_break(digits)) by {
        assert(forall|k: int| 0 <= k < digits.len() ==> text::is_digit(#[trigger] digits[k]));
    }
    let a = head + foreign::json_literal(index);
    let b = a + under;
    let c = b + ",\"version_type\":\"external\",\"version\":"@;
    let d = c + digits;
    lemma_no_break(head, foreign::json_literal(index));
    lemma_no_break(a, under);
    lemma_no_break(b, ",\"version_type\":\"external\",\"version\":"@);
    lemma_no_break(c, digits);
    lemma_no_break(d, seq!['}', '}']);
    assert(meta_line(op, index, id, version) == d + "}}\n"@);
    assert(meta_line(op, index, id, version).drop_last() =~= d + seq!['}', '}']);
}

} // verus!
