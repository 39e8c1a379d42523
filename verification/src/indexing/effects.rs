//! What the work on a block comes to: which documents its actions and rows
//! make, what they hold, and by which ABIs they are decoded.

use crate::antelope::abi;
use crate::antelope::abi::AbiModel;
use crate::antelope::asset;
use crate::antelope::decoder;
use crate::antelope::name;
use crate::antelope::name::Name;
use crate::antelope::packing;
use crate::antelope::plain;
use crate::foreign;
use crate::indexing::abis;
use crate::indexing::abis::KnownAbis;
use crate::indexing::contents;
use crate::indexing::docs;
use crate::indexing::docs::{ContextModel, DocModel, Op};
use crate::indexing::processor;
use crate::indexing::processor::Processor;
use crate::indexing::units;
use crate::indexing::units::{DecodedBlockModel, GroupModel, UnitModel};
use crate::json;
use crate::json::JsonModel;
use crate::ship::deltas::{
    AccountRowModel, ContractRowModel, PermissionRowModel, TableDelta, TableDeltaModel,
};
use crate::ship::packed;
use crate::ship::packed::SentBlock;
use crate::ship::results::{BlockPositionModel, GetBlocksResultModel};
use crate::ship::traces::{TransactionTrace, TransactionTraceModel};
use crate::text;
use vstd::prelude::*;

verus! {

// ---------------------------------------------------------------------------
// Blocks
// ---------------------------------------------------------------------------

/// A block that was sent is decoded whole: its position, its header, and all
/// its traces and deltas. A header that is not there is not made up.
pub proof fn law_blocks_decode(
    result: GetBlocksResultModel,
    at: BlockPositionModel,
    block: SentBlock,
    traces: Seq<TransactionTraceModel>,
    deltas: Seq<TableDeltaModel>,
)
    requires
        result.this_block == Some(at),
        packed::block_fits(block),
        packing::list_fits::<TransactionTrace>(traces),
        packing::list_fits::<TableDelta>(deltas),
        result.traces == Some(packing::list_bytes::<TransactionTrace>(traces)) || (
        result.traces is None && traces.len() == 0),
        result.deltas == Some(packing::list_bytes::<TableDelta>(deltas)) || (result.deltas is None
            && deltas.len() == 0),
        result.block == Some(packed::block_bytes(block)) || result.block is None,
    ensures
        ({
            let (b, c) = units::decoded(result);
            &&& c.sound()
            &&& b.this_block == Some(at)
            &&& b.traces == traces
            &&& b.deltas == deltas
            &&& result.block is None ==> b.header is None
            &&& result.block is Some ==> b.header is Some && b.header->0.timestamp_slot
                == block.timestamp_slot && b.header->0.producer == block.producer
                && b.header->0.previous == foreign::hex_text(block.previous)
        }),
{
    let none = Seq::<u8>::empty();
    if result.traces is Some {
        let data = packing::list_bytes::<TransactionTrace>(traces);
        packed::law_traces_payload_reads_back(traces, none);
        assert(data + none == data);
    }
    if result.deltas is Some {
        let data = packing::list_bytes::<TableDelta>(deltas);
        packed::law_deltas_payload_reads_back(deltas, none);
        assert(data + none == data);
    }
    if result.block is Some {
        let data = packed::block_bytes(block);
        packed::law_header_reads_back(block, none);
        assert(data + none == data);
    }
    assert(traces.len() == 0 ==> traces =~= seq![]);
    assert(deltas.len() == 0 ==> deltas =~= seq![]);
}

/// A result that is about no block holds nothing.
pub proof fn law_no_block_decodes_to_nothing(result: GetBlocksResultModel)
    requires
        result.this_block is None,
    ensures
        ({
            let (b, c) = units::decoded(result);
            &&& c.sound()
            &&& b.this_block is None
            &&& b.header is None
            &&& b.traces.len() == 0
            &&& b.deltas.len() == 0
        }),
{
}

/// Documents belong to the block that they are from: its number and id, and,
/// if its header is known, the instant of its slot, which is half a second for
/// each slot since the year 2000, and its producer. A block with a header has a
/// document of its own, first of all.
pub proof fn law_context(block: DecodedBlockModel)
    requires
        block.this_block is Some,
    ensures
        ({
            let ctx = processor::context_of(block);
            &&& ctx.block_num == block.this_block->0.block_num
            &&& ctx.block_id == block.this_block->0.block_id
            &&& match block.header {
                Some(h) => {
                    &&& ctx.timestamp == Some(
                        plain::instant(946_684_800_000_000 + h.timestamp_slot * 500_000),
                    )
                    &&& ctx.producer == Some(name::name_text(h.producer.0))
                    &&& processor::header_docs(block) == seq![docs::block_doc(ctx, h)]
                },
                None => ctx.timestamp is None && ctx.producer is None && processor::header_docs(
                    block,
                ).len() == 0,
            }
        }),
{
}

// ---------------------------------------------------------------------------
// Actions
// ---------------------------------------------------------------------------

/// Whether an action is the one by which an account sets its ABI.
pub open spec fn sets_abi(p: Processor, g: GroupModel) -> bool {
    let act = units::primary_of(g.members).act;
    act.account == p.system() && name::name_text(act.name.0) == "setabi"@
}

proof fn lemma_setabi(n: Name)
    ensures
        n == processor::named("setabi"@) <==> name::name_text(n.0) == "setabi"@,
{
    reveal_strlit("setabi");
    name::law_name_prints_back("setabi"@);
    name::law_name_reads_back(n.0);
}

proof fn lemma_accounts(n: Name)
    ensures
        n == processor::named("accounts"@) <==> name::name_text(n.0) == "accounts"@,
{
    reveal_strlit("accounts");
    name::law_name_prints_back("accounts"@);
    name::law_name_reads_back(n.0);
}

/// An action that is not to be skipped makes exactly one document, its own,
/// unless the ABI of its contract has to be fetched first. The data is an
/// empty object if there is none, what the ABI says if it fits, and the bytes
/// in hexadecimal if not.
pub proof fn law_actions_make_their_document(
    p: Processor,
    ctx: ContextModel,
    g: GroupModel,
    known: KnownAbis,
)
    requires
        ({
            let act = units::primary_of(g.members).act;
            !p.skips(act.account.0, act.name.0)
        }),
    ensures
        ({
            let primary = units::primary_of(g.members);
            let act = primary.act;
            let e = processor::unit_effect(p, ctx, UnitModel::Action(g), known);
            let body = e.docs[0].body;
            let shown = json::field_of(body, "act"@)->0;
            if act.data.len() == 0 {
                &&& e.need is None
                &&& e.docs.len() == 1
                &&& json::field_of(shown, "data"@) == Some(JsonModel::Object(seq![]))
            } else if !e.abis.contains_key(act.account.0) {
                &&& e.need == Some(act.account)
                &&& e.docs.len() == 0
            } else {
                &&& e.need is None
                &&& e.docs.len() == 1
                &&& match e.abis[act.account.0] {
                    Some(a) => {
                        let (v, c) = decoder::action_value(a, act.name, act.data);
                        if c.sound() {
                            json::field_of(shown, "data"@) == Some(v)
                        } else {
                            json::field_of(shown, "hex_data"@) == Some(
                                JsonModel::Str(foreign::hex_text(act.data)),
                            )
                        }
                    },
                    None => json::field_of(shown, "hex_data"@) == Some(
                        JsonModel::Str(foreign::hex_text(act.data)),
                    ),
                }
            }
        }),
        ({
            let primary = units::primary_of(g.members);
            let e = processor::unit_effect(p, ctx, UnitModel::Action(g), known);
            e.docs.len() > 0 ==> {
                &&& e.docs[0].kind == "action"@
                &&& e.docs[0].id == Some(text::decimal(primary.receipt->0.global_sequence as nat))
                &&& json::field_of(e.docs[0].body, "trx_id"@) == Some(JsonModel::Str(g.trace.id))
                &&& json::field_of(e.docs[0].body, "block_num"@) == Some(
                    JsonModel::Int(ctx.block_num as int),
                )
                &&& json::field_of(json::field_of(e.docs[0].body, "act"@)->0, "name"@) == Some(
                    JsonModel::Str(name::name_text(primary.act.name.0)),
                )
            }
        }),
{
    let primary = units::primary_of(g.members);
    let act = primary.act;
    let e = processor::unit_effect(p, ctx, UnitModel::Action(g), known);
    let empty = docs::PayloadModel::Data(JsonModel::Object(seq![]));
    let payload = if act.data.len() == 0 {
        empty
    } else {
        processor::payload_of(e.abis[act.account.0], act)
    };
    contents::law_action_document_tells(ctx, g.trace, g.members, primary, payload);
    contents::law_acts_tell(act, payload);
}

/// An action changes what is known of ABIs only if it sets one: a `setabi` of
/// the system account whose data is an account and a packed ABI sets the ABI
/// of that account, and of no other. An ABI that is empty or malformed counts
/// as none.
pub proof fn law_setabi_sets(
    p: Processor,
    ctx: ContextModel,
    g: GroupModel,
    known: KnownAbis,
    account: Name,
    bytes: Seq<u8>,
    extra: Seq<u8>,
)
    ensures
        ({
            let act = units::primary_of(g.members).act;
            let e = processor::unit_effect(p, ctx, UnitModel::Action(g), known);
            &&& !sets_abi(p, g) || p.skips(act.account.0, act.name.0) ==> e.abis == known
            &&& sets_abi(p, g) && !p.skips(act.account.0, act.name.0) && bytes.len() <= u32::MAX
                && act.data == packing::name_bytes(account) + packing::blob_bytes(bytes) + extra
                ==> e.abis == known.insert(account.0, abis::packed_abi(bytes))
        }),
{
    let act = units::primary_of(g.members).act;
    lemma_setabi(act.name);
    if bytes.len() <= u32::MAX && act.data == packing::name_bytes(account) + packing::blob_bytes(
        bytes,
    ) + extra {
        let rest = packing::blob_bytes(bytes) + extra;
        assert(act.data =~= packing::name_bytes(account) + rest);
        packing::law_u64_reads_back(account.0, rest);
        packing::law_blob_reads_back(bytes, extra);
    }
}

/// A packed ABI counts as the ABI that it is; nothing at all counts as none.
pub proof fn law_packed_abis_count(a: AbiModel, extra: Seq<u8>)
    requires
        abi::abi_fits(a),
    ensures
        abis::packed_abi(abi::abi_bytes(a) + extra) == Some(a),
        abis::packed_abi(seq![]) is None,
{
    abi::law_abi_reads_back(a, extra);
    lemma_abi_is_not_empty(a);
}

proof fn lemma_abi_is_not_empty(a: AbiModel)
    requires
        abi::abi_fits(a),
    ensures
        abi::abi_bytes(a).len() > 0,
{
    abi::law_abi_reads_back(a, seq![]);
    let bytes = abi::abi_bytes(a);
    assert(bytes + Seq::<u8>::empty() == bytes);
    if bytes.len() == 0 {
        assert(bytes =~= seq![]);
    }
}

/// An action is to be skipped exactly if an entry names it: its contract and
/// its name with two colons between them.
pub proof fn law_entries_name_actions(code: Name, action: Name)
    ensures
        processor::skip_entry(
            name::name_text(code.0) + seq![':', ':'] + name::name_text(action.0),
        ) == Some((code.0, action.0)),
{
    let a = name::name_text(code.0);
    let b = name::name_text(action.0);
    let s = a + seq![':', ':'] + b;
    reveal_strlit("::");
    assert("::"@ =~= seq![':', ':']);
    name::law_name_reads_back(code.0);
    name::law_name_reads_back(action.0);
    text::law_split_text(s, "::"@);
    assert(text::occurs_at(s, "::"@, a.len() as int)) by {
        assert(s.subrange(a.len() as int, a.len() as int + 2) =~= seq![':', ':']);
    }
    assert forall|i: int| 0 <= i < a.len() implies !#[trigger] text::occurs_at(s, "::"@, i) by {
        assert(s[i] == a[i]);
        assert(name::is_name_char(a[i]));
        if text::occurs_at(s, "::"@, i) {
            assert(s.subrange(i, i + 2)[0] == ':');
        }
    }
    let (x, y) = text::split_text(s, "::"@)->0;
    assert(text::occurs_at(s, "::"@, x.len() as int)) by {
        assert(s.subrange(x.len() as int, x.len() as int + 2) =~= seq![':', ':']);
    }
    assert(x.len() == a.len());
    assert(x =~= s.take(a.len() as int));
    assert(a =~= s.take(a.len() as int));
    assert(y =~= s.skip(a.len() as int + 2));
    assert(b =~= s.skip(a.len() as int + 2));
}

/// Every entry of a list counts, and nothing that no entry names is on it: an
/// action whose entry is in the list is on it, wherever in the list it stands,
/// and an action on it is one that an entry names.
pub proof fn law_every_entry_counts(entries: Seq<Seq<char>>, code: Name, action: Name)
    ensures
        (exists|i: int|
            0 <= i < entries.len() && #[trigger] entries[i] == name::name_text(code.0) + seq![
                ':',
                ':',
            ] + name::name_text(action.0)) ==> processor::listed(
            entries,
            entries.len(),
            code.0,
            action.0,
        ),
        processor::listed(entries, entries.len(), code.0, action.0) ==> exists|i: int|
            0 <= i < entries.len() && processor::skip_entry(#[trigger] entries[i]) == Some(
                (code.0, action.0),
            ),
{
    law_entries_name_actions(code, action);
    let own = name::name_text(code.0) + seq![':', ':'] + name::name_text(action.0);
    if exists|i: int| 0 <= i < entries.len() && #[trigger] entries[i] == own {
        let i = choose|i: int| 0 <= i < entries.len() && #[trigger] entries[i] == own;
        assert(processor::skip_entry(entries[i]) == Some((code.0, action.0)));
    }
    if processor::listed(entries, entries.len(), code.0, action.0) {
        let i = choose|i: int|
            0 <= i < entries.len() && #[trigger] processor::skip_entry(entries[i]) == Some(
                (code.0, action.0),
            );
        assert(processor::skip_entry(entries[i]) == Some((code.0, action.0)));
    }
}

/// An entry that names an action is two names with two colons between them: the
/// first occurrence of these parts them.
pub proof fn law_entries_are_two_names(entry: Seq<char>)
    ensures
        processor::skip_entry(entry) matches Some((code, action)) ==> exists|
            a: Seq<char>,
            b: Seq<char>,
        |
            entry == a + seq![':', ':'] + b && #[trigger] name::is_name_text(a) && #[trigger]
                name::is_name_text(b) && name::name_value(a) == code && name::name_value(b)
                == action,
{
    reveal_strlit("::");
    assert("::"@ =~= seq![':', ':']);
    text::law_split_text(entry, "::"@);
    if let Some((code, action)) = processor::skip_entry(entry) {
        let (a, b) = text::split_text(entry, "::"@)->0;
        name::law_name_prints_back(a);
        name::law_name_prints_back(b);
        assert(entry == a + seq![':', ':'] + b);
    }
}

// ---------------------------------------------------------------------------
// Rows
// ---------------------------------------------------------------------------

/// A contract row makes a document of the change, with the value as the ABI of
/// its contract says if it fits and in hexadecimal if not, and changes no ABI;
/// if nothing is known of the ABI, it has to be fetched first.
pub proof fn law_rows_make_their_document(
    p: Processor,
    ctx: ContextModel,
    row: ContractRowModel,
    present: bool,
    ordinal: nat,
    known: KnownAbis,
)
    ensures
        ({
            let e = processor::unit_effect(
                p,
                ctx,
                UnitModel::Contract(row, present, ordinal),
                known,
            );
            let body = e.docs[0].body;
            &&& e.abis == known
            &&& if !known.contains_key(row.code.0) {
                e.need == Some(row.code) && e.docs.len() == 0
            } else {
                &&& e.need is None
                &&& 1 <= e.docs.len() <= 2
                &&& e.docs[0].kind == "delta"@
                &&& json::field_of(body, "present"@) == Some(JsonModel::Bool(present))
                &&& json::field_of(body, "code"@) == Some(
                    JsonModel::Str(name::name_text(row.code.0)),
                )
                &&& match known[row.code.0] {
                    Some(a) => {
                        let (v, c) = decoder::row_value(a, row.table, row.value);
                        if c.sound() {
                            json::field_of(body, "data"@) == Some(v)
                        } else {
                            json::field_of(body, "value_hex"@) == Some(
                                JsonModel::Str(foreign::hex_text(row.value)),
                            )
                        }
                    },
                    None => json::field_of(body, "value_hex"@) == Some(
                        JsonModel::Str(foreign::hex_text(row.value)),
                    ),
                }
            }
        }),
{
    contents::law_delta_document_tells(
        ctx,
        row,
        present,
        ordinal,
        processor::row_of(known[row.code.0], row),
    );
}

/// A row of a table `accounts` whose value holds an amount as its balance makes
/// a document of the balance too: it tells the holder and the amount as long as
/// the row is there, and is deleted with it. No other row makes one.
pub proof fn law_balances_make_their_document(
    ctx: ContextModel,
    row: ContractRowModel,
    present: bool,
    ordinal: nat,
    value: JsonModel,
    amount: i64,
    symbol: u64,
)
    requires
        json::field_of(value, "balance"@) == Some(
            JsonModel::Str(asset::asset_text(amount as int, symbol)),
        ),
        symbol >= 256,
        asset::code_letters((symbol / 256) as nat),
        symbol % 256 <= 18,
        amount != i64::MIN || symbol % 256 == 0,
    ensures
        ({
            let made = processor::row_docs(ctx, row, present, ordinal, Some(value));
            if name::name_text(row.table.0) == "accounts"@ {
                &&& made.len() == 2
                &&& made[1].kind == "token"@
                &&& made[1].op == if present {
                    Op::Index
                } else {
                    Op::Delete
                }
                &&& present ==> json::field_of(made[1].body, "amount"@) == Some(
                    JsonModel::Scaled(amount as int, (symbol % 256) as nat),
                )
                &&& present ==> json::field_of(made[1].body, "scope"@) == Some(
                    JsonModel::Str(name::name_text(row.scope.0)),
                )
                &&& present ==> json::field_of(made[1].body, "symbol"@) == Some(
                    JsonModel::Str(asset::code_text((symbol / 256) as nat)),
                )
            } else {
                made.len() == 1
            }
        }),
{
    lemma_accounts(row.table);
    asset::law_asset_reads_back(amount, symbol);
    contents::law_token_document_tells(ctx, row, amount as int, symbol as nat);
}

/// A row makes no document of a balance if its value could not be decoded, or
/// holds no text as its balance, or a text that is no amount.
pub proof fn law_other_rows_have_no_balance(
    ctx: ContextModel,
    row: ContractRowModel,
    present: bool,
    ordinal: nat,
    decoded: Option<JsonModel>,
)
    requires
        decoded matches Some(v) ==> match json::field_of(v, "balance"@) {
            Some(JsonModel::Str(s)) => asset::parsed_asset(s) is None,
            _ => true,
        },
    ensures
        processor::row_docs(ctx, row, present, ordinal, decoded).len() == 1,
{
}

/// An account row sets the ABI of its account, and of no other; it makes the
/// document of the ABI exactly if there is one that can be read.
pub proof fn law_account_rows_set_abis(
    p: Processor,
    ctx: ContextModel,
    name: Name,
    creation_date_slot: u32,
    a: AbiModel,
    extra: Seq<u8>,
    known: KnownAbis,
)
    requires
        abi::abi_fits(a),
    ensures
        ({
            let unit = UnitModel::Account(
                AccountRowModel { name, creation_date_slot, abi: abi::abi_bytes(a) + extra },
            );
            let e = processor::unit_effect(p, ctx, unit, known);
            &&& e.need is None
            &&& e.abis == known.insert(name.0, Some(a))
            &&& e.docs == seq![docs::abi_doc(ctx, name, a)]
        }),
        ({
            let unit = UnitModel::Account(
                AccountRowModel { name, creation_date_slot, abi: seq![] },
            );
            let e = processor::unit_effect(p, ctx, unit, known);
            &&& e.need is None
            &&& e.abis == known.insert(name.0, None)
            &&& e.docs.len() == 0
        }),
{
    law_packed_abis_count(a, extra);
}

/// A permission row makes the document of the permission, and changes no ABI.
pub proof fn law_permission_rows_make_their_document(
    p: Processor,
    ctx: ContextModel,
    row: PermissionRowModel,
    present: bool,
    known: KnownAbis,
)
    ensures
        ({
            let e = processor::unit_effect(p, ctx, UnitModel::Permission(row, present), known);
            &&& e.need is None
            &&& e.abis == known
            &&& e.docs.len() == 1
            &&& e.docs[0].kind == "perm"@
            &&& e.docs[0].op == if present {
                Op::Index
            } else {
                Op::Delete
            }
            &&& e.docs[0].id == Some(
                name::name_text(row.owner.0) + seq!['-'] + name::name_text(row.name.0),
            )
            &&& present ==> (json::field_of(e.docs[0].body, "accounts"@) matches Some(
                JsonModel::Array(x),
            ) && x.len() == row.accounts.len() && forall|i: int|
                0 <= i < x.len() ==> #[trigger] x[i] == JsonModel::Str(row.accounts[i]))
        }),
{
    contents::law_perm_document_tells(ctx, row);
}

// ---------------------------------------------------------------------------
// The whole block
// ---------------------------------------------------------------------------

/// Whether some documents stand in a row among others.
pub open spec fn stand_in(some: Seq<DocModel>, all: Seq<DocModel>) -> bool {
    exists|before: Seq<DocModel>, after: Seq<DocModel>|
        all == #[trigger] (before + some + after)
}

/// Work on a block that came to its end has done every unit: none waits for an
/// ABI, all the documents of each are there, and those that were there before
/// stay in front.
#[verifier::rlimit(40)]
pub proof fn law_every_unit_is_done(
    p: Processor,
    ctx: ContextModel,
    all: Seq<UnitModel>,
    next: nat,
    made: Seq<DocModel>,
    known: KnownAbis,
    k: int,
)
    requires
        processor::run_from(p, ctx, all, next, made, known).need is None,
        next <= k < all.len(),
    ensures
        ({
            let run = processor::run_from(p, ctx, all, next, made, known);
            &&& run.next == all.len()
            &&& made.is_prefix_of(run.docs)
            &&& exists|at: KnownAbis|
                {
                    &&& (#[trigger] processor::unit_effect(p, ctx, all[k], at)).need is None
                    &&& stand_in(processor::unit_effect(p, ctx, all[k], at).docs, run.docs)
                }
        }),
    decreases all.len() - next,
{
    let e = processor::unit_effect(p, ctx, all[next as int], known);
    let more = made + e.docs;
    let run = processor::run_from(p, ctx, all, next, made, known);
    lemma_run_ends(p, ctx, all, next, made, known);
    lemma_run_steps(p, ctx, all, next, made, known);
    assert(made =~= run.docs.take(made.len() as int));
    if k == next {
        let after = run.docs.skip(more.len() as int);
        assert(run.docs =~= made + e.docs + after);
        assert(stand_in(e.docs, run.docs));
    } else {
        law_every_unit_is_done(p, ctx, all, next + 1, more, e.abis, k);
    }
}

proof fn lemma_run_steps(
    p: Processor,
    ctx: ContextModel,
    all: Seq<UnitModel>,
    next: nat,
    made: Seq<DocModel>,
    known: KnownAbis,
)
    requires
        processor::run_from(p, ctx, all, next, made, known).need is None,
        next < all.len(),
    ensures
        ({
            let e = processor::unit_effect(p, ctx, all[next as int], known);
            let more = made + e.docs;
            let run = processor::run_from(p, ctx, all, next, made, known);
            &&& e.need is None
            &&& run == processor::run_from(p, ctx, all, next + 1, more, e.abis)
            &&& more.len() <= run.docs.len()
            &&& run.docs.take(more.len() as int) == more
        }),
{
    let e = processor::unit_effect(p, ctx, all[next as int], known);
    lemma_run_ends(p, ctx, all, next + 1, made + e.docs, e.abis);
}

proof fn lemma_run_ends(
    p: Processor,
    ctx: ContextModel,
    all: Seq<UnitModel>,
    next: nat,
    made: Seq<DocModel>,
    known: KnownAbis,
)
    requires
        processor::run_from(p, ctx, all, next, made, known).need is None,
        next <= all.len(),
    ensures
        ({
            let run = processor::run_from(p, ctx, all, next, made, known);
            &&& run.next == all.len()
            &&& made.len() <= run.docs.len()
            &&& run.docs.take(made.len() as int) == made
        }),
    decreases all.len() - next,
{
    if next < all.len() {
        let e = processor::unit_effect(p, ctx, all[next as int], known);
        let run = processor::run_from(p, ctx, all, next, made, known);
        lemma_run_ends(p, ctx, all, next + 1, made + e.docs, e.abis);
        assert(made =~= (made + e.docs).take(made.len() as int));
        let more = run.docs.take((made + e.docs).len() as int);
        assert(run.docs.take(made.len() as int) =~= more.take(made.len() as int));
    } else {
        assert(made.take(made.len() as int) =~= made);
    }
}

/// The ABIs that hold after a unit hold for the next one, and its documents
/// come next: work on two lists of units is work on the first and, from what
/// is known then, on the second.
pub proof fn law_work_goes_on(
    p: Processor,
    ctx: ContextModel,
    unit: UnitModel,
    rest: Seq<UnitModel>,
    made: Seq<DocModel>,
    known: KnownAbis,
)
    requires
        processor::unit_effect(p, ctx, unit, known).need is None,
    ensures
        ({
            let e = processor::unit_effect(p, ctx, unit, known);
            let whole = processor::run_from(p, ctx, seq![unit] + rest, 0, made, known);
            let after = processor::run_from(p, ctx, rest, 0, made + e.docs, e.abis);
            &&& whole.docs == after.docs
            &&& whole.abis == after.abis
            &&& whole.need == after.need
        }),
{
    let all = seq![unit] + rest;
    assert(all[0] == unit);
    let e = processor::unit_effect(p, ctx, unit, known);
    lemma_shifted(p, ctx, unit, rest, 0, made + e.docs, e.abis);
}

proof fn lemma_shifted(
    p: Processor,
    ctx: ContextModel,
    unit: UnitModel,
    rest: Seq<UnitModel>,
    next: nat,
    made: Seq<DocModel>,
    known: KnownAbis,
)
    ensures
        ({
            let all = seq![unit] + rest;
            let a = processor::run_from(p, ctx, all, next + 1, made, known);
            let b = processor::run_from(p, ctx, rest, next, made, known);
            a.docs == b.docs && a.abis == b.abis && a.need == b.need
        }),
    decreases rest.len() - next,
{
    let all = seq![unit] + rest;
    if next < rest.len() {
        assert(all[next as int + 1] == rest[next as int]);
        let e = processor::unit_effect(p, ctx, rest[next as int], known);
        if e.need is None {
            lemma_shifted(p, ctx, unit, rest, next + 1, made + e.docs, e.abis);
        }
    }
}

} // verus!
