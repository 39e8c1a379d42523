//! Nothing is lost between a block and the index: whatever the block holds has
//! its document when the work on the block is done.

use crate::antelope::name;
use crate::antelope::wire;
use crate::indexing::abis;
use crate::indexing::abis::KnownAbis;
use crate::indexing::contents;
use crate::indexing::coverage;
use crate::indexing::docs;
use crate::indexing::docs::{DocModel, Op};
use crate::indexing::effects;
use crate::indexing::processor;
use crate::indexing::processor::Processor;
use crate::indexing::units;
use crate::indexing::units::{DecodedBlockModel, UnitModel};
use crate::json;
use crate::json::JsonModel;
use crate::ship::deltas;
use crate::ship::traces::{ActionTraceModel, TransactionTraceModel};
use vstd::prelude::*;

verus! {

/// The documents of a block, once the work on it is done.
pub open spec fn documents(p: Processor, block: DecodedBlockModel, known: KnownAbis) -> Seq<
    DocModel,
> {
    processor::run_from(
        p,
        processor::context_of(block),
        units::units_of(block),
        0,
        processor::header_docs(block),
        known,
    ).docs
}

/// Whether the work on a block is done: no ABI is missing.
pub open spec fn is_done(p: Processor, block: DecodedBlockModel, known: KnownAbis) -> bool {
    processor::run_from(
        p,
        processor::context_of(block),
        units::units_of(block),
        0,
        processor::header_docs(block),
        known,
    ).need is None
}

proof fn lemma_first_stands(some: Seq<DocModel>, all: Seq<DocModel>, i: int)
    requires
        effects::stand_in(some, all),
        0 <= i < some.len(),
    ensures
        all.contains(some[i]),
{
    let (before, after) = choose|before: Seq<DocModel>, after: Seq<DocModel>|
        all == #[trigger] (before + some + after);
    assert(all[before.len() + i] == some[i]);
}

/// Whether a list has a text.
pub open spec fn lists(v: Option<JsonModel>, s: Seq<char>) -> bool {
    v matches Some(JsonModel::Array(xs)) && xs.contains(JsonModel::Str(s))
}

proof fn lemma_not_skipped(p: Processor, trace: TransactionTraceModel, at: ActionTraceModel)
    requires
        coverage::same_action(trace, at).contains(at),
        forall|j: int|
            0 <= j < trace.action_traces.len() && coverage::has_digest(
                #[trigger] trace.action_traces[j],
                (at.receipt->0).act_digest,
            ) ==> !p.skips(
                trace.action_traces[j].act.account.0,
                trace.action_traces[j].act.name.0,
            ),
    ensures
        ({
            let act = units::primary_of(coverage::same_action(trace, at)).act;
            !p.skips(act.account.0, act.name.0)
        }),
{
    broadcast use vstd::seq_lib::group_filter_ensures;

    let group = coverage::same_action(trace, at);
    coverage::law_primary_of_a_group(group);
    let primary = units::primary_of(group);
    let m = choose|m: int| 0 <= m < group.len() && primary == #[trigger] group[m];
    let ats = trace.action_traces;
    let digest = (at.receipt->0).act_digest;
    let f = |x: ActionTraceModel| coverage::has_digest(x, digest);
    assert(group == ats.filter(f));
    assert(ats.filter(f).contains(primary));
    ats.lemma_filter_contains_rev(f, primary);
    let j = ats.index_of(primary);
    assert(coverage::has_digest(ats[j], digest));
}

/// Every delivery of an action in an executed transaction is in a document of
/// the block, unless the action is to be skipped: one of that transaction and
/// block, in which the receiver is among those notified.
#[verifier::rlimit(50)]
pub proof fn law_every_delivery_is_indexed(
    p: Processor,
    block: DecodedBlockModel,
    known: KnownAbis,
    t: int,
    i: int,
)
    requires
        is_done(p, block, known),
        0 <= t < block.traces.len(),
        block.traces[t].status == 0,
        0 <= i < block.traces[t].action_traces.len(),
        block.traces[t].action_traces[i].receipt is Some,
        forall|j: int|
            0 <= j < block.traces[t].action_traces.len() && coverage::has_digest(
                #[trigger] block.traces[t].action_traces[j],
                (block.traces[t].action_traces[i].receipt->0).act_digest,
            ) ==> !p.skips(
                block.traces[t].action_traces[j].act.account.0,
                block.traces[t].action_traces[j].act.name.0,
            ),
    ensures
        exists|k: int|
            0 <= k < documents(p, block, known).len() && {
                let doc = #[trigger] documents(p, block, known)[k];
                let receiver = block.traces[t].action_traces[i].receiver;
                &&& doc.kind == "action"@
                &&& doc.op == Op::Index
                &&& json::field_of(doc.body, "trx_id"@) == Some(
                    JsonModel::Str(block.traces[t].id),
                )
                &&& json::field_of(doc.body, "block_num"@) == Some(
                    JsonModel::Int(processor::context_of(block).block_num as int),
                )
                &&& lists(json::field_of(doc.body, "notified"@), name::name_text(receiver.0))
            },
{
    let all = units::units_of(block);
    let ctx = processor::context_of(block);
    let made = processor::header_docs(block);
    let at = block.traces[t].action_traces[i];
    coverage::law_every_executed_action_is_planned(block, t, i);
    let u = choose|u: int|
        0 <= u < all.len() && ((#[trigger] all[u]) matches UnitModel::Action(g) && g.trace
            == block.traces[t] && g.members.contains(at) && g.members == coverage::same_action(
            block.traces[t],
            at,
        ));
    let g = all[u]->Action_0;
    effects::law_every_unit_is_done(p, ctx, all, 0, made, known, u);
    let later = choose|later: KnownAbis|
        {
            &&& (#[trigger] processor::unit_effect(p, ctx, all[u], later)).need is None
            &&& effects::stand_in(
                processor::unit_effect(p, ctx, all[u], later).docs,
                documents(p, block, known),
            )
        };
    let e = processor::unit_effect(p, ctx, all[u], later);
    let primary = units::primary_of(g.members);
    lemma_not_skipped(p, block.traces[t], at);
    effects::law_actions_make_their_document(p, ctx, g, later);
    assert(e.docs.len() == 1);
    let payload = if primary.act.data.len() == 0 {
        docs::PayloadModel::Data(JsonModel::Object(seq![]))
    } else {
        processor::payload_of(e.abis[primary.act.account.0], primary.act)
    };
    contents::law_action_document_tells(ctx, g.trace, g.members, primary, payload);
    let doc = e.docs[0];
    assert(doc == docs::action_doc(ctx, g.trace, g.members, primary, payload));
    let list = json::field_of(doc.body, "notified"@)->0->Array_0;
    let j = g.members.index_of(at);
    assert(list[j] == JsonModel::Str(name::name_text(at.receiver.0)));
    assert(list.contains(list[j]));
    lemma_first_stands(e.docs, documents(p, block, known), 0);
    let k = documents(p, block, known).index_of(doc);
    assert(documents(p, block, known)[k] == doc);
}

/// Every contract row that a block changes has a document of the block: one
/// that tells its contract, scope, table and key, and whether it was written or
/// removed.
pub proof fn law_every_row_change_is_indexed(
    p: Processor,
    block: DecodedBlockModel,
    known: KnownAbis,
    d: int,
    i: int,
)
    requires
        is_done(p, block, known),
        0 <= d < block.deltas.len(),
        block.deltas[d].name == "contract_row"@,
        0 <= i < block.deltas[d].rows.len(),
        deltas::get_contract_row(wire::at(block.deltas[d].rows[i].data)).1.sound(),
    ensures
        ({
            let row = deltas::get_contract_row(wire::at(block.deltas[d].rows[i].data)).0;
            exists|k: int|
                0 <= k < documents(p, block, known).len() && {
                    let doc = #[trigger] documents(p, block, known)[k];
                    &&& doc.kind == "delta"@
                    &&& doc.op == Op::Index
                    &&& json::field_of(doc.body, "code"@) == Some(
                        JsonModel::Str(name::name_text(row.code.0)),
                    )
                    &&& json::field_of(doc.body, "scope"@) == Some(
                        JsonModel::Str(name::name_text(row.scope.0)),
                    )
                    &&& json::field_of(doc.body, "table"@) == Some(
                        JsonModel::Str(name::name_text(row.table.0)),
                    )
                    &&& json::field_of(doc.body, "present"@) == Some(
                        JsonModel::Bool(block.deltas[d].rows[i].present),
                    )
                }
        }),
{
    let all = units::units_of(block);
    let ctx = processor::context_of(block);
    let made = processor::header_docs(block);
    let sent = block.deltas[d].rows[i];
    let table = block.deltas[d].name;
    let row = deltas::get_contract_row(wire::at(sent.data)).0;
    coverage::law_every_row_is_planned(block, d, i);
    coverage::lemma_tables();
    let u = choose|u: int|
        0 <= u < all.len() && coverage::is_asked_for(#[trigger] all[u], table, sent);
    assert(all[u] is Contract);
    let ordinal = all[u]->Contract_2;
    assert(all[u] == UnitModel::Contract(row, sent.present, ordinal));
    effects::law_every_unit_is_done(p, ctx, all, 0, made, known, u);
    let later = choose|later: KnownAbis|
        {
            &&& (#[trigger] processor::unit_effect(p, ctx, all[u], later)).need is None
            &&& effects::stand_in(
                processor::unit_effect(p, ctx, all[u], later).docs,
                documents(p, block, known),
            )
        };
    let e = processor::unit_effect(p, ctx, all[u], later);
    let decoded = processor::row_of(later[row.code.0], row);
    contents::law_delta_document_tells(ctx, row, sent.present, ordinal, decoded);
    let doc = docs::delta_doc(ctx, row, sent.present, ordinal, decoded);
    assert(e.docs[0] == doc);
    lemma_first_stands(e.docs, documents(p, block, known), 0);
    let k = documents(p, block, known).index_of(doc);
    assert(documents(p, block, known)[k] == doc);
}

/// Every permission that a block changes has a document of the block, under its
/// owner and name: indexed if it was written, deleted if it was removed.
pub proof fn law_every_permission_change_is_indexed(
    p: Processor,
    block: DecodedBlockModel,
    known: KnownAbis,
    d: int,
    i: int,
)
    requires
        is_done(p, block, known),
        0 <= d < block.deltas.len(),
        block.deltas[d].name == "permission"@,
        0 <= i < block.deltas[d].rows.len(),
        deltas::get_permission_row(wire::at(block.deltas[d].rows[i].data)).1.sound(),
    ensures
        ({
            let row = deltas::get_permission_row(wire::at(block.deltas[d].rows[i].data)).0;
            exists|k: int|
                0 <= k < documents(p, block, known).len() && {
                    let doc = #[trigger] documents(p, block, known)[k];
                    &&& doc.kind == "perm"@
                    &&& doc.op == if block.deltas[d].rows[i].present {
                        Op::Index
                    } else {
                        Op::Delete
                    }
                    &&& doc.id == Some(
                        name::name_text(row.owner.0) + seq!['-'] + name::name_text(row.name.0),
                    )
                }
        }),
{
    let all = units::units_of(block);
    let ctx = processor::context_of(block);
    let made = processor::header_docs(block);
    let sent = block.deltas[d].rows[i];
    let table = block.deltas[d].name;
    let row = deltas::get_permission_row(wire::at(sent.data)).0;
    coverage::law_every_row_is_planned(block, d, i);
    coverage::lemma_tables();
    let u = choose|u: int|
        0 <= u < all.len() && coverage::is_asked_for(#[trigger] all[u], table, sent);
    assert(all[u] == UnitModel::Permission(row, sent.present));
    effects::law_every_unit_is_done(p, ctx, all, 0, made, known, u);
    let later = choose|later: KnownAbis|
        {
            &&& (#[trigger] processor::unit_effect(p, ctx, all[u], later)).need is None
            &&& effects::stand_in(
                processor::unit_effect(p, ctx, all[u], later).docs,
                documents(p, block, known),
            )
        };
    let e = processor::unit_effect(p, ctx, all[u], later);
    effects::law_permission_rows_make_their_document(p, ctx, row, sent.present, later);
    lemma_first_stands(e.docs, documents(p, block, known), 0);
    let k = documents(p, block, known).index_of(e.docs[0]);
    assert(documents(p, block, known)[k] == e.docs[0]);
}

/// Every ABI that an account sets in a block, if it can be read, has a document
/// of the block.
pub proof fn law_every_abi_change_is_indexed(
    p: Processor,
    block: DecodedBlockModel,
    known: KnownAbis,
    d: int,
    i: int,
)
    requires
        is_done(p, block, known),
        0 <= d < block.deltas.len(),
        block.deltas[d].name == "account"@,
        0 <= i < block.deltas[d].rows.len(),
        block.deltas[d].rows[i].present,
        deltas::get_account_row(wire::at(block.deltas[d].rows[i].data)).1.sound(),
        abis::packed_abi(
            deltas::get_account_row(wire::at(block.deltas[d].rows[i].data)).0.abi,
        ) is Some,
    ensures
        ({
            let row = deltas::get_account_row(wire::at(block.deltas[d].rows[i].data)).0;
            exists|k: int|
                0 <= k < documents(p, block, known).len() && {
                    let doc = #[trigger] documents(p, block, known)[k];
                    &&& doc.kind == "abi"@
                    &&& doc.op == Op::Index
                    &&& json::field_of(doc.body, "account"@) == Some(
                        JsonModel::Str(name::name_text(row.name.0)),
                    )
                }
        }),
{
    let all = units::units_of(block);
    let ctx = processor::context_of(block);
    let made = processor::header_docs(block);
    let sent = block.deltas[d].rows[i];
    let table = block.deltas[d].name;
    let row = deltas::get_account_row(wire::at(sent.data)).0;
    coverage::law_every_row_is_planned(block, d, i);
    coverage::lemma_tables();
    let u = choose|u: int|
        0 <= u < all.len() && coverage::is_asked_for(#[trigger] all[u], table, sent);
    assert(all[u] == UnitModel::Account(row));
    effects::law_every_unit_is_done(p, ctx, all, 0, made, known, u);
    let later = choose|later: KnownAbis|
        {
            &&& (#[trigger] processor::unit_effect(p, ctx, all[u], later)).need is None
            &&& effects::stand_in(
                processor::unit_effect(p, ctx, all[u], later).docs,
                documents(p, block, known),
            )
        };
    let e = processor::unit_effect(p, ctx, all[u], later);
    contents::law_abi_document_tells(ctx, row.name, abis::packed_abi(row.abi)->0);
    lemma_first_stands(e.docs, documents(p, block, known), 0);
    let k = documents(p, block, known).index_of(e.docs[0]);
    assert(documents(p, block, known)[k] == e.docs[0]);
}

/// A block whose header is known has its own document, before all others.
pub proof fn law_the_block_is_indexed(p: Processor, block: DecodedBlockModel, known: KnownAbis)
    requires
        is_done(p, block, known),
        block.header is Some,
    ensures
        documents(p, block, known).len() > 0,
        documents(p, block, known)[0] == docs::block_doc(
            processor::context_of(block),
            block.header->0,
        ),
{
    let made = processor::header_docs(block);
    processor::law_docs_are_kept(
        p,
        processor::context_of(block),
        units::units_of(block),
        0,
        made,
        known,
    );
    let all = documents(p, block, known);
    assert(all.take(made.len() as int)[0] == made[0]);
}

} // verus!
