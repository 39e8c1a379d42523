//! Which of the documents that are indexed the searches find, in terms of the
//! actions, permissions and rows that the documents are made from.

use crate::antelope::abi::AbiModel;
use crate::antelope::keys;
use crate::antelope::name;
use crate::antelope::name::Name;
use crate::antelope::packing;
use crate::antelope::wire;
use crate::api::history;
use crate::api::history::{AbiSnapshotParamsModel, GetActionsParamsModel, GetDeltasParamsModel};
use crate::api::searches;
use crate::api::searches::{Entry, Order};
use crate::api::state;
use crate::api::v1;
use crate::foreign;
use crate::indexing::abis::KnownAbis;
use crate::indexing::complete;
use crate::indexing::contents;
use crate::indexing::coverage;
use crate::indexing::docs;
use crate::indexing::docs::{ContextModel, PayloadModel};
use crate::indexing::processor::Processor;
use crate::indexing::units::DecodedBlockModel;
use crate::json;
use crate::json::{FieldsModel, JsonModel};
use crate::ship::deltas;
use crate::ship::deltas::{ContractRowModel, PermissionRowModel};
use crate::ship::packed;
use crate::ship::packed::SentPermission;
use crate::ship::traces::{ActionTraceModel, TransactionTraceModel};
use crate::text;
use vstd::prelude::*;

verus! {

/// The values that a field holds: all the items of a list, or the one value.
pub open spec fn values_of(v: Option<JsonModel>) -> Set<JsonModel> {
    match v {
        Some(JsonModel::Array(xs)) => Set::new(|x: JsonModel| xs.contains(x)),
        Some(x) => set![x],
        None => Set::empty(),
    }
}

/// A document as a search engine sees it: a field by its name, or a field of
/// an object by the two names with a dot between them.
pub open spec fn entry_of(body: JsonModel) -> Entry {
    |field: Seq<char>|
        match json::field_of(body, field) {
            Some(v) => values_of(Some(v)),
            None => match text::split_text(field, seq!['.']) {
                Some((outer, inner)) => match json::field_of(body, outer) {
                    Some(v) => values_of(json::field_of(v, inner)),
                    None => Set::empty(),
                },
                None => Set::empty(),
            },
        }
}

proof fn lemma_no_sign(n: Name, c: char)
    requires
        !name::is_name_char(c),
    ensures
        !name::name_text(n.0).contains(c),
{
    name::law_name_reads_back(n.0);
    let s = name::name_text(n.0);
    if s.contains(c) {
        let i = s.index_of(c);
        assert(name::is_name_char(s[i]));
    }
}

proof fn lemma_same_name(a: Name, b: Name)
    ensures
        name::name_text(a.0) == name::name_text(b.0) <==> a == b,
{
    name::law_name_reads_back(a.0);
    name::law_name_reads_back(b.0);
}

// ---------------------------------------------------------------------------
// Permissions
// ---------------------------------------------------------------------------

/// A permission as it is sent, read and made into a document is found by the
/// search for the accounts that an account controls exactly if that account is
/// among the permission's controlling accounts.
pub proof fn law_controlled_accounts_are_found(
    ctx: ContextModel,
    sent: SentPermission,
    rest: Seq<u8>,
    account: Name,
    order: Order,
)
    requires
        packed::permission_row_fits(sent),
    ensures
        ({
            let (row, c) = deltas::get_permission_row(
                wire::at(packed::permission_row_bytes(sent) + rest),
            );
            let body = docs::perm_doc(ctx, row, true).body;
            let search = JsonModel::Object(v1::controlled_search(name::name_text(account.0)));
            searches::finds(search, entry_of(body), order) <==> exists|i: int|
                0 <= i < sent.accounts.len() && (#[trigger] sent.accounts[i]).0 == account
        }),
{
    packed::law_permission_row_reads_back(sent, rest);
    let (row, c) = deltas::get_permission_row(
        wire::at(packed::permission_row_bytes(sent) + rest),
    );
    contents::law_perm_document_tells(ctx, row);
    let body = docs::perm_doc(ctx, row, true).body;
    let doc = entry_of(body);
    searches::law_controlled_search(name::name_text(account.0), doc, order);
    let list = json::field_of(body, "accounts"@)->0->Array_0;
    let prefix = name::name_text(account.0) + seq!['@'];
    if searches::has_prefix(doc, "accounts"@, prefix) {
        let s = choose|s: Seq<char>| #[trigger]
            doc("accounts"@).contains(JsonModel::Str(s)) && searches::starts_with(s, prefix);
        assert(list.contains(JsonModel::Str(s)));
        let i = list.index_of(JsonModel::Str(s));
        assert(list[i] == JsonModel::Str(row.accounts[i]));
        assert(s == row.accounts[i]);
        searches::law_authorities_start_with_their_actor(
            sent.accounts[i].0,
            sent.accounts[i].1,
            account,
        );
        assert(sent.accounts[i].0 == account);
    }
    if exists|i: int| 0 <= i < sent.accounts.len() && (#[trigger] sent.accounts[i]).0 == account {
        let i = choose|i: int|
            0 <= i < sent.accounts.len() && (#[trigger] sent.accounts[i]).0 == account;
        searches::law_authorities_start_with_their_actor(
            sent.accounts[i].0,
            sent.accounts[i].1,
            account,
        );
        assert(list[i] == JsonModel::Str(row.accounts[i]));
        assert(list.contains(JsonModel::Str(row.accounts[i])));
        assert(doc("accounts"@).contains(JsonModel::Str(row.accounts[i])));
    }
}

/// The document of a permission is found by a key exactly if the key is among
/// the permission's keys.
pub proof fn law_keys_are_found(
    ctx: ContextModel,
    p: PermissionRowModel,
    key: Seq<char>,
    order: Order,
)
    ensures
        searches::finds(
            JsonModel::Object(state::key_search(key)),
            entry_of(docs::perm_doc(ctx, p, true).body),
            order,
        ) <==> p.keys.contains(key),
{
    contents::law_perm_document_tells(ctx, p);
    let body = docs::perm_doc(ctx, p, true).body;
    let doc = entry_of(body);
    searches::law_key_search(key, doc, order);
    let list = json::field_of(body, "keys"@)->0->Array_0;
    if list.contains(JsonModel::Str(key)) {
        let i = list.index_of(JsonModel::Str(key));
        assert(list[i] == JsonModel::Str(p.keys[i]));
        assert(p.keys.contains(p.keys[i]));
    }
    if p.keys.contains(key) {
        let i = p.keys.index_of(key);
        assert(list[i] == JsonModel::Str(key));
        assert(list.contains(list[i]));
    }
}

proof fn lemma_start(before: Seq<char>, key: Seq<char>)
    requires
        forall|i: int| 0 <= i < before.len() ==> foreign::is_ascii_space(#[trigger] before[i]),
        key.len() > 0,
        !foreign::is_ascii_space(key[0]),
    ensures
        foreign::without_start(before + key) == key,
    decreases before.len(),
{
    let s = before + key;
    if before.len() == 0 {
        assert(s =~= key);
    } else {
        assert(s[0] == before[0]);
        assert(s.drop_first() =~= before.drop_first() + key);
        lemma_start(before.drop_first(), key);
    }
}

proof fn lemma_end(key: Seq<char>, after: Seq<char>)
    requires
        forall|i: int| 0 <= i < after.len() ==> foreign::is_ascii_space(#[trigger] after[i]),
        key.len() > 0,
        !foreign::is_ascii_space(key.last()),
    ensures
        foreign::without_end(key + after) == key,
    decreases after.len(),
{
    let s = key + after;
    if after.len() == 0 {
        assert(s =~= key);
    } else {
        assert(s.last() == after.last());
        assert(s.drop_last() =~= key + after.drop_last());
        lemma_end(key, after.drop_last());
    }
}

/// Whether a text is made of visible ASCII characters.
pub open spec fn is_visible(key: Seq<char>) -> bool {
    key.len() > 0 && forall|i: int| 0 <= i < key.len() ==> ' ' < #[trigger] key[i] <= '~'
}

/// White space around a key does not count.
pub proof fn law_space_around_keys_does_not_count(
    before: Seq<char>,
    key: Seq<char>,
    after: Seq<char>,
)
    requires
        is_visible(key),
        forall|i: int| 0 <= i < before.len() ==> foreign::is_ascii_space(#[trigger] before[i]),
        forall|i: int| 0 <= i < after.len() ==> foreign::is_ascii_space(#[trigger] after[i]),
    ensures
        state::indexed_key(before + key + after) == keys::normalized(key),
{
    let s = before + key + after;
    assert forall|i: int| 0 <= i < s.len() implies s[i] <= '~' by {
        if i < before.len() {
            assert(s[i] == before[i]);
        } else if i < before.len() + key.len() {
            assert(s[i] == key[i - before.len()]);
        } else {
            assert(s[i] == after[i - before.len() - key.len()]);
        }
    }
    assert(s =~= before + (key + after));
    assert((key + after)[0] == key[0]);
    lemma_start(before, key + after);
    lemma_end(key, after);
}

/// A key in the form in which keys are indexed finds exactly the permissions
/// that it is in, with or without white space around it.
pub proof fn law_keys_are_found_as_they_are_given(
    ctx: ContextModel,
    p: PermissionRowModel,
    before: Seq<char>,
    key: Seq<char>,
    after: Seq<char>,
    order: Order,
)
    requires
        is_visible(key),
        text::has_prefix(key, seq!['P', 'U', 'B', '_']),
        forall|i: int| 0 <= i < before.len() ==> foreign::is_ascii_space(#[trigger] before[i]),
        forall|i: int| 0 <= i < after.len() ==> foreign::is_ascii_space(#[trigger] after[i]),
    ensures
        searches::finds(
            JsonModel::Object(state::key_search(state::indexed_key(before + key + after))),
            entry_of(docs::perm_doc(ctx, p, true).body),
            order,
        ) <==> p.keys.contains(key),
{
    reveal_strlit("PUB_");
    assert("PUB_"@ =~= seq!['P', 'U', 'B', '_']);
    law_space_around_keys_does_not_count(before, key, after);
    law_keys_are_found(ctx, p, key, order);
}

/// A key in the older form, with a prefix of two to four letters, finds the
/// permissions that were sent with the key that it stands for.
pub proof fn law_legacy_keys_find_their_permissions(
    ctx: ContextModel,
    sent: SentPermission,
    rest: Seq<u8>,
    key: Seq<char>,
    n: int,
    payload: Seq<u8>,
    k: int,
    order: Order,
)
    requires
        packed::permission_row_fits(sent),
        0 <= k < sent.keys.len(),
        sent.keys[k].0 == seq![0u8] + payload,
        2 <= n <= 4,
        is_visible(key),
        !text::has_prefix(key, "PUB_"@),
        keys::legacy_payload(key, n) == Some(payload),
        forall|m: int| n < m <= 4 ==> #[trigger] keys::legacy_payload(key, m) is None,
    ensures
        ({
            let (row, c) = deltas::get_permission_row(
                wire::at(packed::permission_row_bytes(sent) + rest),
            );
            searches::finds(
                JsonModel::Object(state::key_search(state::indexed_key(key))),
                entry_of(docs::perm_doc(ctx, row, true).body),
                order,
            )
        }),
{
    packed::law_permission_row_reads_back(sent, rest);
    let (row, c) = deltas::get_permission_row(
        wire::at(packed::permission_row_bytes(sent) + rest),
    );
    let none = Seq::<char>::empty();
    law_space_around_keys_does_not_count(none, key, none);
    assert(none + key + none =~= key);
    keys::law_legacy_key_normal_form(key, n, payload);
    let b = seq![0u8] + payload;
    assert(packing::is_key(sent.keys[k].0));
    packing::law_key_reads_back(b, Seq::empty());
    assert(b + Seq::<u8>::empty() == b);
    assert(row.keys[k] == keys::normalized(key));
    assert(row.keys.contains(row.keys[k]));
    law_keys_are_found(ctx, row, keys::normalized(key), order);
}

/// The document of a permission is found among an account's own exactly if the
/// account is its owner.
pub proof fn law_own_permissions_are_found(
    ctx: ContextModel,
    p: PermissionRowModel,
    account: Name,
    order: Order,
)
    ensures
        searches::finds(
            JsonModel::Object(state::account_permissions_search(name::name_text(account.0))),
            entry_of(docs::perm_doc(ctx, p, true).body),
            order,
        ) <==> p.owner == account,
{
    contents::law_perm_document_tells(ctx, p);
    let doc = entry_of(docs::perm_doc(ctx, p, true).body);
    searches::law_account_permissions_search(name::name_text(account.0), doc, order);
    lemma_same_name(p.owner, account);
}

// ---------------------------------------------------------------------------
// Actions
// ---------------------------------------------------------------------------

/// Whether an account was notified of an action.
pub open spec fn was_notified(members: Seq<ActionTraceModel>, account: Name) -> bool {
    exists|i: int| 0 <= i < members.len() && (#[trigger] members[i]).receiver == account
}

proof fn lemma_notified(
    ctx: ContextModel,
    trace: TransactionTraceModel,
    members: Seq<ActionTraceModel>,
    primary: ActionTraceModel,
    payload: PayloadModel,
    account: Name,
)
    ensures
        entry_of(docs::action_doc(ctx, trace, members, primary, payload).body)(
            "notified"@,
        ).contains(JsonModel::Str(name::name_text(account.0))) <==> was_notified(members, account),
{
    contents::law_action_document_tells(ctx, trace, members, primary, payload);
    let body = docs::action_doc(ctx, trace, members, primary, payload).body;
    let list = json::field_of(body, "notified"@)->0->Array_0;
    let wanted = JsonModel::Str(name::name_text(account.0));
    if list.contains(wanted) {
        let i = list.index_of(wanted);
        assert(list[i] == JsonModel::Str(name::name_text(members[i].receiver.0)));
        lemma_same_name(members[i].receiver, account);
        assert(members[i].receiver == account);
    }
    if was_notified(members, account) {
        let i = choose|i: int|
            0 <= i < members.len() && (#[trigger] members[i]).receiver == account;
        assert(list[i] == wanted);
        assert(list.contains(list[i]));
    }
}

/// The document of an action is found in the history of an account exactly if
/// the account was notified of the action: by a request for its actions that
/// asks for nothing else, for a window of them, or for the account itself.
pub proof fn law_notified_actions_are_found(
    ctx: ContextModel,
    trace: TransactionTraceModel,
    members: Seq<ActionTraceModel>,
    primary: ActionTraceModel,
    payload: PayloadModel,
    account: Name,
    p: GetActionsParamsModel,
    max_limit: usize,
    w: v1::Window,
    order: Order,
)
    requires
        p.account == Some(name::name_text(account.0)),
        p.filter is None,
        p.after is None,
        p.before is None,
    ensures
        ({
            let doc = entry_of(docs::action_doc(ctx, trace, members, primary, payload).body);
            let text = name::name_text(account.0);
            &&& history::actions_query_of(p, max_limit) matches Ok(search) ==> (searches::finds(
                search,
                doc,
                order,
            ) <==> was_notified(members, account))
            &&& searches::finds(JsonModel::Object(v1::actions_search(text, w)), doc, order)
                <==> was_notified(members, account)
            &&& searches::finds(
                JsonModel::Object(state::account_actions_search(text)),
                doc,
                order,
            ) <==> was_notified(members, account)
        }),
{
    let doc = entry_of(docs::action_doc(ctx, trace, members, primary, payload).body);
    let text = name::name_text(account.0);
    lemma_notified(ctx, trace, members, primary, payload, account);
    searches::law_actions_search(p, max_limit, doc, order);
    searches::law_v1_actions_search(text, w, doc, order);
    searches::law_account_actions_search(text, doc, order);
}

/// The history of an account is complete: an action of a block that was
/// delivered to it is found, once the work on the block is done, by a request
/// for the account's actions that asks for nothing else.
pub proof fn law_history_is_complete(
    processor: Processor,
    block: DecodedBlockModel,
    known: KnownAbis,
    t: int,
    i: int,
    p: GetActionsParamsModel,
    max_limit: usize,
    order: Order,
)
    requires
        complete::is_done(processor, block, known),
        0 <= t < block.traces.len(),
        block.traces[t].status == 0,
        0 <= i < block.traces[t].action_traces.len(),
        block.traces[t].action_traces[i].receipt is Some,
        forall|j: int|
            0 <= j < block.traces[t].action_traces.len() && coverage::has_digest(
                #[trigger] block.traces[t].action_traces[j],
                (block.traces[t].action_traces[i].receipt->0).act_digest,
            ) ==> !processor.skips(
                block.traces[t].action_traces[j].act.account.0,
                block.traces[t].action_traces[j].act.name.0,
            ),
        p.account == Some(name::name_text(block.traces[t].action_traces[i].receiver.0)),
        p.filter is None,
        p.after is None,
        p.before is None,
        searches::order_asked(p.sort) is Some,
    ensures
        history::actions_query_of(p, max_limit) matches Ok(search) && exists|k: int|
            0 <= k < complete::documents(processor, block, known).len() && {
                let doc = #[trigger] complete::documents(processor, block, known)[k];
                &&& doc.kind == "action"@
                &&& json::field_of(doc.body, "trx_id"@) == Some(
                    JsonModel::Str(block.traces[t].id),
                )
                &&& searches::finds(search, entry_of(doc.body), order)
            },
{
    complete::law_every_delivery_is_indexed(processor, block, known, t, i);
    let all = complete::documents(processor, block, known);
    let text = name::name_text(block.traces[t].action_traces[i].receiver.0);
    let k = choose|k: int|
        0 <= k < all.len() && (#[trigger] all[k]).kind == "action"@ && json::field_of(
            all[k].body,
            "trx_id"@,
        ) == Some(JsonModel::Str(block.traces[t].id)) && complete::lists(
            json::field_of(all[k].body, "notified"@),
            text,
        );
    searches::law_actions_search(p, max_limit, entry_of(all[k].body), order);
}

/// The document of an action is found by the id of a transaction exactly if the
/// action belongs to that transaction.
pub proof fn law_actions_of_a_transaction_are_found(
    ctx: ContextModel,
    trace: TransactionTraceModel,
    members: Seq<ActionTraceModel>,
    primary: ActionTraceModel,
    payload: PayloadModel,
    id: Seq<char>,
    order: Order,
)
    ensures
        searches::finds(
            JsonModel::Object(history::transaction_search(id)),
            entry_of(docs::action_doc(ctx, trace, members, primary, payload).body),
            order,
        ) <==> trace.id == id,
{
    contents::law_action_document_tells(ctx, trace, members, primary, payload);
    let doc = entry_of(docs::action_doc(ctx, trace, members, primary, payload).body);
    searches::law_transaction_search(id, doc, order);
}

#[verifier::rlimit(40)]
proof fn lemma_no_such_fields(
    ctx: ContextModel,
    trace: TransactionTraceModel,
    members: Seq<ActionTraceModel>,
    primary: ActionTraceModel,
    payload: PayloadModel,
)
    ensures
        ({
            let body = docs::action_doc(ctx, trace, members, primary, payload).body;
            &&& json::field_of(body, "act.account"@) is None
            &&& json::field_of(body, "act.name"@) is None
        }),
{
    reveal_strlit("@timestamp");
    assert("@timestamp"@.len() == 10);
    reveal_strlit("global_sequence");
    assert("global_sequence"@.len() == 15);
    reveal_strlit("block_num");
    assert("block_num"@.len() == 9);
    reveal_strlit("block_id");
    assert("block_id"@.len() == 8);
    reveal_strlit("trx_id");
    assert("trx_id"@.len() == 6);
    reveal_strlit("producer");
    assert("producer"@.len() == 8);
    reveal_strlit("act");
    assert("act"@.len() == 3);
    reveal_strlit("notified");
    assert("notified"@.len() == 8);
    reveal_strlit("receipts");
    assert("receipts"@.len() == 8);
    reveal_strlit("action_ordinal");
    assert("action_ordinal"@.len() == 14);
    reveal_strlit("creator_action_ordinal");
    assert("creator_action_ordinal"@.len() == 22);
    reveal_strlit("cpu_usage_us");
    assert("cpu_usage_us"@.len() == 12);
    reveal_strlit("net_usage_words");
    assert("net_usage_words"@.len() == 15);
    reveal_strlit("code_sequence");
    assert("code_sequence"@.len() == 13);
    reveal_strlit("abi_sequence");
    assert("abi_sequence"@.len() == 12);
    reveal_strlit("act_digest");
    assert("act_digest"@.len() == 10);
    reveal_strlit("signatures");
    assert("signatures"@.len() == 10);
    reveal_strlit("act.account");
    assert("act.account"@.len() == 11);
    reveal_strlit("act.name");
    assert("act.name"@.len() == 8);
    assert("act.name"@[0] != "block_id"@[0]);
    assert("act.name"@[0] != "producer"@[0]);
    assert("act.name"@[0] != "notified"@[0]);
    assert("act.name"@[0] != "receipts"@[0]);
    let f = docs::action_fields(ctx, trace, members, primary, payload);
    lemma_no_field(f, "act.account"@, 0);
    lemma_no_field(f, "act.name"@, 0);
}

proof fn lemma_no_field(f: FieldsModel, key: Seq<char>, from: nat)
    requires
        forall|i: int| 0 <= i < f.len() ==> (#[trigger] f[i]).0 != key,
    ensures
        json::field_from(f, key, from) >= f.len(),
    decreases f.len() - from,
{
    if from < f.len() {
        lemma_no_field(f, key, from + 1);
    }
}

proof fn lemma_act_fields(
    ctx: ContextModel,
    trace: TransactionTraceModel,
    members: Seq<ActionTraceModel>,
    primary: ActionTraceModel,
    payload: PayloadModel,
)
    ensures
        ({
            let doc = entry_of(docs::action_doc(ctx, trace, members, primary, payload).body);
            &&& doc("act.account"@) == set![
                JsonModel::Str(name::name_text(primary.act.account.0)),
            ]
            &&& doc("act.name"@) == set![JsonModel::Str(name::name_text(primary.act.name.0))]
        }),
{
    contents::law_action_document_tells(ctx, trace, members, primary, payload);
    contents::law_acts_tell(primary.act, payload);
    lemma_no_such_fields(ctx, trace, members, primary, payload);
    reveal_strlit("act.account");
    reveal_strlit("act.name");
    reveal_strlit("act");
    reveal_strlit("account");
    reveal_strlit("name");
    lemma_dotted("act.account"@, "act"@, "account"@);
    lemma_dotted("act.name"@, "act"@, "name"@);
}

proof fn lemma_dotted(field: Seq<char>, outer: Seq<char>, inner: Seq<char>)
    requires
        field =~= outer + seq!['.'] + inner,
        outer.len() == 3,
        outer[0] != '.',
        outer[1] != '.',
        outer[2] != '.',
    ensures
        text::split_text(field, seq!['.']) == Some((outer, inner)),
{
    text::law_split_at_char(field, '.');
    assert(field[3] == '.');
    assert(field.contains(field[3]));
    let (a, b) = text::split_text(field, seq!['.'])->0;
    if a.len() < 3 {
        assert(field[a.len() as int] == '.');
        assert(field[a.len() as int] == outer[a.len() as int]);
    } else if a.len() > 3 {
        assert(a[3] == field[3]);
        assert(a.contains(a[3]));
    }
    assert(a =~= field.take(3));
    assert(outer =~= field.take(3));
    assert(b =~= field.skip(4));
    assert(inner =~= field.skip(4));
}

/// A filter `contract:action` alone finds exactly the actions of that name on
/// that contract.
#[verifier::rlimit(40)]
pub proof fn law_filtered_actions_are_found(
    ctx: ContextModel,
    trace: TransactionTraceModel,
    members: Seq<ActionTraceModel>,
    primary: ActionTraceModel,
    payload: PayloadModel,
    contract: Name,
    action: Name,
    p: GetActionsParamsModel,
    max_limit: usize,
    order: Order,
)
    requires
        p.account is None,
        p.filter == Some(
            name::name_text(contract.0) + seq![':'] + name::name_text(action.0),
        ),
        p.after is None,
        p.before is None,
        searches::order_asked(p.sort) is Some,
    ensures
        history::actions_query_of(p, max_limit) matches Ok(search) && (searches::finds(
            search,
            entry_of(docs::action_doc(ctx, trace, members, primary, payload).body),
            order,
        ) <==> primary.act.account == contract && primary.act.name == action),
{
    let doc = entry_of(docs::action_doc(ctx, trace, members, primary, payload).body);
    let a = name::name_text(contract.0);
    let b = name::name_text(action.0);
    let f = a + seq![':'] + b;
    lemma_no_sign(contract, ':');
    lemma_no_sign(action, ':');
    lemma_no_sign(contract, ',');
    lemma_no_sign(action, ',');
    lemma_no_sign(contract, '*');
    lemma_no_sign(action, '*');
    assert(!f.contains(',')) by {
        if f.contains(',') {
            let i = f.index_of(',');
            if i < a.len() {
                assert(a.contains(a[i]));
            } else if i > a.len() {
                assert(b.contains(b[i - a.len() - 1]));
            }
        }
    }
    text::law_split_at_char(f, ',');
    if let Some((x, y)) = text::split_text(f, seq![',']) {
        assert(f[x.len() as int] == ',');
        assert(f.contains(f[x.len() as int]));
    }
    let pieces = text::pieces_of(f, seq![',']);
    assert(pieces =~= seq![f]);
    assert(f[a.len() as int] == ':');
    assert(f.contains(f[a.len() as int]));
    searches::law_actions_search(p, max_limit, doc, order);
    lemma_act_fields(ctx, trace, members, primary, payload);
    lemma_same_name(primary.act.account, contract);
    lemma_same_name(primary.act.name, action);
    assert(a != seq!['*']) by {
        assert(seq!['*'][0] == '*');
        assert(seq!['*'].contains('*'));
    }
    assert(b != seq!['*']) by {
        assert(seq!['*'][0] == '*');
        assert(seq!['*'].contains('*'));
    }
    if searches::passes(f, doc) {
        assert(searches::is_named(pieces[0], doc));
        let (x, y) = choose|x: Seq<char>, y: Seq<char>|
            {
                &&& f == #[trigger] (x + seq![':'] + y)
                &&& !x.contains(':')
                &&& x != seq!['*'] ==> doc("act.account"@).contains(JsonModel::Str(x))
                &&& y != seq!['*'] ==> doc("act.name"@).contains(JsonModel::Str(y))
            };
        searches::lemma_same_split(a, b, x, y);
    }
    if primary.act.account == contract && primary.act.name == action {
        assert(f == a + seq![':'] + b);
        assert(searches::is_named(pieces[0], doc));
    }
}

// ---------------------------------------------------------------------------
// Rows, balances and ABIs
// ---------------------------------------------------------------------------

/// The document of a balance is found among those of an account exactly if the
/// account holds it.
pub proof fn law_own_balances_are_found(
    ctx: ContextModel,
    row: ContractRowModel,
    amount: int,
    symbol: nat,
    account: Name,
    order: Order,
)
    ensures
        searches::finds(
            JsonModel::Object(state::tokens_search(name::name_text(account.0))),
            entry_of(docs::token_doc(ctx, row, true, amount, symbol).body),
            order,
        ) <==> row.scope == account,
{
    contents::law_token_document_tells(ctx, row, amount, symbol);
    let doc = entry_of(docs::token_doc(ctx, row, true, amount, symbol).body);
    searches::law_tokens_search(name::name_text(account.0), doc, order);
    lemma_same_name(row.scope, account);
}

/// The document of a row change is found by contract, scope, table, payer and
/// presence exactly if these are the row's.
pub proof fn law_rows_are_found(
    ctx: ContextModel,
    row: ContractRowModel,
    present: bool,
    ordinal: nat,
    decoded: Option<JsonModel>,
    code: Name,
    scope: Name,
    table: Name,
    payer: Name,
    p: GetDeltasParamsModel,
    max_limit: usize,
    order: Order,
)
    requires
        p.code == Some(name::name_text(code.0)),
        p.scope == Some(name::name_text(scope.0)),
        p.table == Some(name::name_text(table.0)),
        p.payer == Some(name::name_text(payer.0)),
        p.after is None,
        p.before is None,
    ensures
        searches::finds(
            JsonModel::Object(history::deltas_query_of(p, max_limit)),
            entry_of(docs::delta_doc(ctx, row, present, ordinal, decoded).body),
            order,
        ) <==> {
            &&& row.code == code
            &&& row.scope == scope
            &&& row.table == table
            &&& row.payer == payer
            &&& p.present matches Some(wanted) ==> present == wanted
        },
{
    contents::law_delta_document_tells(ctx, row, present, ordinal, decoded);
    let doc = entry_of(docs::delta_doc(ctx, row, present, ordinal, decoded).body);
    searches::law_deltas_search(p, max_limit, doc, order);
    lemma_same_name(row.code, code);
    lemma_same_name(row.scope, scope);
    lemma_same_name(row.table, table);
    lemma_same_name(row.payer, payer);
    assert(doc("present"@) == set![JsonModel::Bool(present)]);
}

/// The document of an ABI is found for a contract and a block exactly if it is
/// the contract's and was set in that block or before.
pub proof fn law_abis_are_found(
    ctx: ContextModel,
    account: Name,
    abi: AbiModel,
    contract: Name,
    p: AbiSnapshotParamsModel,
    order: Order,
)
    requires
        p.contract == name::name_text(contract.0),
        forall|a: int, b: int| #[trigger]
            order(JsonModel::Int(a), JsonModel::Int(b)) == (a <= b),
    ensures
        searches::finds(
            JsonModel::Object(history::snapshot_query_of(p)),
            entry_of(docs::abi_doc(ctx, account, abi).body),
            order,
        ) <==> account == contract && (p.block matches Some(b) ==> ctx.block_num <= b),
{
    contents::law_abi_document_tells(ctx, account, abi);
    let doc = entry_of(docs::abi_doc(ctx, account, abi).body);
    searches::law_snapshot_search(p, doc, order);
    lemma_same_name(account, contract);
    let at = JsonModel::Int(ctx.block_num as int);
    assert(doc("block_num"@) == set![at]);
    assert(doc("block_num"@).contains(at));
}

} // verus!
