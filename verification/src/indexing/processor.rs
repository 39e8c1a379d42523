//! Turns block results into documents: one flattened doc per unique action
//! (inline notifications collapsed into `notified`/`receipts`), plus block,
//! delta, ABI, permission and token-balance docs.
//!
//! Decoding needs the ABIs of contracts, which may have to be fetched. So the
//! work for a block proceeds until an ABI is missing, and goes on when it is
//! there.

use crate::antelope::abi::AbiModel;
use crate::antelope::decoder;
use crate::antelope::decoder::AbiDecoder;
use crate::antelope::name;
use crate::antelope::name::Name;
use crate::antelope::reader::ByteReader;
use crate::antelope::time;
use crate::antelope::wire;
use crate::foreign;
use crate::indexing::abis;
use crate::indexing::abis::{AbiCache, KnownAbis, Lookup};
use crate::indexing::docs;
use crate::indexing::docs::{
    make_abi_doc, make_action_doc, make_block_doc, make_delta_doc, make_perm_doc, make_token_doc,
    BlockContext, ContextModel, Doc, DocModel, Payload, PayloadModel,
};
use crate::indexing::units;
use crate::indexing::units::{
    plan, ActionGroup, DecodedBlock, DecodedBlockModel, GroupModel, Unit, UnitModel,
};
use crate::json;
use crate::json::{Json, JsonModel};
use crate::lists::{no_items, push_item};
use crate::ship::deltas;
use crate::ship::deltas::{AccountRowModel, ContractRow, ContractRowModel, TableDeltaRowModel};
use crate::ship::traces::{Action, ActionModel, ActionTrace};
use crate::text;
use std::collections::HashSet;
use vstd::prelude::*;

verus! {

broadcast use {vstd::std_specs::hash::group_hash_axioms, wire::group_latch};

/// What is to be left out, and whose `setabi` counts.
pub struct Processor {
    /// `(contract, action)` pairs to skip.
    skip_actions: HashSet<u128>,
    /// The privileged system account whose `setabi` updates the ABI cache
    /// (`eosio` on Antelope chains, `pulse` on PulseVM).
    system_account: Name,
}

/// A pair of names as one number.
spec fn pair_key(code: u64, action: u64) -> u128 {
    (code * 0x1_0000_0000_0000_0000 + action) as u128
}

fn key_of(code: u64, action: u64) -> (r: u128)
    ensures
        r == pair_key(code, action),
{
    code as u128 * 0x1_0000_0000_0000_0000 + action as u128
}

/// The action that an entry `contract::action` names, if it is well-formed.
pub open spec fn skip_entry(entry: Seq<char>) -> Option<(u64, u64)> {
    match text::split_text(entry, "::"@) {
        Some((code, action)) => if name::is_name_text(code) && name::is_name_text(action) {
            Some((name::name_value(code) as u64, name::name_value(action) as u64))
        } else {
            None
        },
        None => None,
    }
}

/// Whether one of the first `n` entries names an action.
pub open spec fn listed(entries: Seq<Seq<char>>, n: nat, code: u64, action: u64) -> bool {
    exists|i: int| 0 <= i < n && #[trigger] skip_entry(entries[i]) == Some((code, action))
}

impl Processor {
    /// Whether an action is left out.
    pub closed spec fn skips(&self, code: u64, action: u64) -> bool {
        self.skip_actions@.contains(pair_key(code, action))
    }

    /// The account whose `setabi` counts.
    pub closed spec fn system(&self) -> Name {
        self.system_account
    }

    /// Malformed entries among those to skip are passed over.
    pub fn new(skip_actions: &Vec<String>, system_account: Name) -> (r: Self)
        ensures
            r.system() == system_account,
            forall|code: u64, action: u64| #[trigger]
                r.skips(code, action) == listed(
                    skip_actions.deep_view(),
                    skip_actions.deep_view().len(),
                    code,
                    action,
                ),
    {
        let ghost entries = skip_actions.deep_view();
        let mut skip: HashSet<u128> = HashSet::new();
        let mut i: usize = 0;
        while i < skip_actions.len()
            invariant
                i <= skip_actions@.len(),
                entries == skip_actions.deep_view(),
                forall|code: u64, action: u64|
                    skip@.contains(#[trigger] pair_key(code, action)) == listed(
                        entries,
                        i as nat,
                        code,
                        action,
                    ),
            decreases skip_actions@.len() - i,
        {
            let ghost before = skip@;
            let ghost found = skip_entry(entries[i as int]);
            if let Some(parts) = text::split_once(skip_actions[i].as_str(), "::") {
                if let Ok(code) = Name::from_str(parts.0.as_str()) {
                    if let Ok(action) = Name::from_str(parts.1.as_str()) {
                        skip.insert(key_of(code.0, action.0));
                        assert(found == Some((code.0, action.0)));
                    }
                }
            }
            i = i + 1;
            assert forall|code: u64, action: u64|
                skip@.contains(#[trigger] pair_key(code, action)) == listed(
                    entries,
                    i as nat,
                    code,
                    action,
                ) by {
                assert(before.contains(pair_key(code, action)) == listed(
                    entries,
                    (i - 1) as nat,
                    code,
                    action,
                ));
                if found == Some((code, action)) {
                    assert(skip_entry(entries[i - 1]) == Some((code, action)));
                }
                if listed(entries, i as nat, code, action) && !listed(
                    entries,
                    (i - 1) as nat,
                    code,
                    action,
                ) {
                    let k = choose|k: int|
                        0 <= k < i && #[trigger] skip_entry(entries[k]) == Some((code, action));
                    assert(k == i - 1);
                }
            }
        }
        Processor { skip_actions: skip, system_account }
    }

    fn skips_action(&self, act: &Action) -> (r: bool)
        ensures
            r == self.skips(act.account.0, act.name.0),
    {
        let key: u128 = key_of(act.account.0, act.name.0);
        self.skip_actions.contains(&key)
    }
}

// ---------------------------------------------------------------------------
// What a unit of work does
// ---------------------------------------------------------------------------

/// What a unit does: the documents that it makes and what is known of the
/// ABIs then; or the account whose ABI has to be fetched first.
pub struct Effect {
    pub need: Option<Name>,
    pub docs: Seq<DocModel>,
    pub abis: KnownAbis,
}

/// The ABIs after a `setabi` action: its data is an account and the packed
/// ABI.
pub open spec fn after_setabi(data: Seq<u8>, known: KnownAbis) -> KnownAbis {
    let (account, c1) = wire::get_name(wire::at(data));
    let (packed, c2) = wire::get_blob(c1);
    if c2.sound() {
        known.insert(account.0, abis::packed_abi(packed))
    } else {
        known
    }
}

/// The data of an action as an ABI says; in hexadecimal if there is none or it
/// does not fit.
pub open spec fn payload_of(abi: Option<AbiModel>, act: ActionModel) -> PayloadModel {
    let hex = PayloadModel::Hex(foreign::hex_text(act.data));
    match abi {
        Some(a) => {
            let (v, c) = decoder::action_value(a, act.name, act.data);
            if c.sound() {
                PayloadModel::Data(v)
            } else {
                hex
            }
        },
        None => hex,
    }
}

/// The value of a row as an ABI says, if there is one and it fits.
pub open spec fn row_of(abi: Option<AbiModel>, row: ContractRowModel) -> Option<
    JsonModel,
> {
    match abi {
        Some(a) => {
            let (v, c) = decoder::row_value(a, row.table, row.value);
            if c.sound() {
                Some(v)
            } else {
                None
            }
        },
        None => None,
    }
}

/// The name that a text is.
pub open spec fn named(s: Seq<char>) -> Name {
    Name(name::name_value(s) as u64)
}

pub open spec fn action_effect(
    p: Processor,
    ctx: ContextModel,
    g: GroupModel,
    known: KnownAbis,
) -> Effect {
    let primary = units::primary_of(g.members);
    let act = primary.act;
    let after = if act.account == p.system() && act.name == named("setabi"@) {
        after_setabi(act.data, known)
    } else {
        known
    };
    if p.skips(act.account.0, act.name.0) {
        Effect { need: None, docs: seq![], abis: known }
    } else if act.data.len() == 0 {
        let payload = PayloadModel::Data(JsonModel::Object(seq![]));
        Effect {
            need: None,
            docs: seq![docs::action_doc(ctx, g.trace, g.members, primary, payload)],
            abis: after,
        }
    } else if !after.contains_key(act.account.0) {
        Effect { need: Some(act.account), docs: seq![], abis: after }
    } else {
        let payload = payload_of(after[act.account.0], act);
        Effect {
            need: None,
            docs: seq![docs::action_doc(ctx, g.trace, g.members, primary, payload)],
            abis: after,
        }
    }
}

/// Token balances: the conventional `accounts` table with an asset `balance`
/// field.
pub open spec fn row_docs(
    ctx: ContextModel,
    row: ContractRowModel,
    present: bool,
    ordinal: nat,
    decoded: Option<JsonModel>,
) -> Seq<DocModel> {
    let delta = seq![docs::delta_doc(ctx, row, present, ordinal, decoded)];
    match docs::balance_of(decoded) {
        Some((amount, symbol)) => if row.table == named("accounts"@) {
            delta.push(docs::token_doc(ctx, row, present, amount, symbol))
        } else {
            delta
        },
        None => delta,
    }
}

/// What a unit of work does.
pub open spec fn unit_effect(
    p: Processor,
    ctx: ContextModel,
    unit: UnitModel,
    known: KnownAbis,
) -> Effect {
    match unit {
        UnitModel::Action(g) => action_effect(p, ctx, g, known),
        UnitModel::Account(a) => {
            let parsed = abis::packed_abi(a.abi);
            Effect {
                need: None,
                docs: match parsed {
                    Some(abi) => seq![docs::abi_doc(ctx, a.name, abi)],
                    None => seq![],
                },
                abis: known.insert(a.name.0, parsed),
            }
        },
        UnitModel::Permission(row, present) => Effect {
            need: None,
            docs: seq![docs::perm_doc(ctx, row, present)],
            abis: known,
        },
        UnitModel::Contract(row, present, ordinal) => if !known.contains_key(row.code.0) {
            Effect { need: Some(row.code), docs: seq![], abis: known }
        } else {
            Effect {
                need: None,
                docs: row_docs(ctx, row, present, ordinal, row_of(known[row.code.0], row)),
                abis: known,
            }
        },
    }
}

/// How far the work for a block has come.
pub struct Run {
    pub next: nat,
    pub docs: Seq<DocModel>,
    pub abis: KnownAbis,
    pub need: Option<Name>,
}

/// Works through the units from `next` on, up to the first for which an ABI
/// has to be fetched.
pub open spec fn run_from(
    p: Processor,
    ctx: ContextModel,
    all: Seq<UnitModel>,
    next: nat,
    made: Seq<DocModel>,
    known: KnownAbis,
) -> Run
    decreases all.len() - next,
{
    if next >= all.len() {
        Run { next, docs: made, abis: known, need: None }
    } else {
        let e = unit_effect(p, ctx, all[next as int], known);
        match e.need {
            Some(account) => Run { next, docs: made, abis: e.abis, need: Some(account) },
            None => run_from(p, ctx, all, next + 1, made + e.docs, e.abis),
        }
    }
}

// ---------------------------------------------------------------------------
// Working through a block
// ---------------------------------------------------------------------------

/// The work for a block: what is to do, what was done, and the documents that
/// were made.
pub struct BlockWork<'a> {
    pub context: BlockContext,
    pub units: Vec<Unit<'a>>,
    pub next: usize,
    pub docs: Vec<Doc>,
}

/// The block that documents belong to.
pub open spec fn context_of(block: DecodedBlockModel) -> ContextModel {
    ContextModel {
        block_num: (block.this_block->0).block_num,
        block_id: (block.this_block->0).block_id,
        timestamp: match block.header {
            Some(h) => Some(time::instant_text(time::slot_ms(h.timestamp_slot) * 1_000)),
            None => None,
        },
        producer: match block.header {
            Some(h) => Some(name::name_text(h.producer.0)),
            None => None,
        },
    }
}

/// The document of the block itself, if its header is known.
pub open spec fn header_docs(block: DecodedBlockModel) -> Seq<DocModel> {
    match block.header {
        Some(h) => seq![docs::block_doc(context_of(block), h)],
        None => seq![],
    }
}

/// The name `setabi`.
fn setabi_name() -> (n: Name)
    ensures
        n == named("setabi"@),
{
    proof {
        reveal_strlit("setabi");
    }
    match Name::from_str("setabi") {
        Ok(n) => n,
        Err(_) => Name(0),
    }
}

/// The name `accounts`.
fn accounts_name() -> (n: Name)
    ensures
        n == named("accounts"@),
{
    proof {
        reveal_strlit("accounts");
    }
    match Name::from_str("accounts") {
        Ok(n) => n,
        Err(_) => Name(0),
    }
}

/// The trace that stands for a group.
fn find_primary<'a>(members: &Vec<&'a ActionTrace>) -> (r: &'a ActionTrace)
    requires
        members@.len() > 0,
    ensures
        r.deep_view() == units::primary_of(members.deep_view()),
        exists|i: int| 0 <= i < members@.len() && r == #[trigger] members@[i],
{
    let ghost group = members.deep_view();
    let mut i: usize = 0;
    while i < members.len()
        invariant
            i <= members@.len(),
            group == members.deep_view(),
            units::primary_from(group, 0) == units::primary_from(group, i as nat),
        decreases members@.len() - i,
    {
        assert(group[i as int] == members@[i as int].deep_view());
        if members[i].receiver == members[i].act.account {
            return members[i];
        }
        i = i + 1;
    }
    members[0]
}

/// setabi data: {account: name, abi: bytes}: fixed layout, decodable without
/// the system ABI.
fn apply_setabi(data: &Vec<u8>, cache: &mut AbiCache)
    ensures
        final(cache)@ == after_setabi(data@, old(cache)@),
{
    let mut r = ByteReader::new(data.as_slice());
    if let Ok(account) = r.read_name() {
        if let Ok(packed) = r.read_bytes() {
            cache.update(account, packed);
        }
    }
}

/// The data of an action, which is not empty, as the ABI of the contract says.
fn decode_action_data(act: &Action, cache: &AbiCache) -> (r: Payload)
    requires
        cache@.contains_key(act.account.0),
    ensures
        r.deep_view() == payload_of(cache@[act.account.0], act.deep_view()),
{
    if let Lookup::Known(abi) = cache.lookup(act.account) {
        if let Ok(value) = AbiDecoder::new(&**abi).decode_action(act.name, act.data.as_slice()) {
            return Payload::Data(value);
        }
    }
    Payload::Hex(foreign::hex_encode(act.data.as_slice()))
}

/// The value of a row, as the ABI of the contract says.
fn decode_row(row: &ContractRow, cache: &AbiCache) -> (r: Option<Json>)
    requires
        cache@.contains_key(row.code.0),
    ensures
        r.deep_view() == row_of(cache@[row.code.0], row.deep_view()),
{
    if let Lookup::Known(abi) = cache.lookup(row.code) {
        if let Ok(value) = AbiDecoder::new(&**abi).decode_table_row(
            row.table,
            row.value.as_slice(),
        ) {
            return Some(value);
        }
    }
    None
}

/// Makes the documents of a table row.
fn process_contract_row(
    ctx: &BlockContext,
    row: &ContractRow,
    present: bool,
    ordinal: u64,
    decoded: Option<Json>,
    made: &mut Vec<Doc>,
)
    ensures
        final(made).deep_view() == old(made).deep_view() + row_docs(
            ctx.deep_view(),
            row.deep_view(),
            present,
            ordinal as nat,
            decoded.deep_view(),
        ),
{
    let ghost start = made.deep_view();
    let balance = docs::find_balance(&decoded);
    push_item(made, make_delta_doc(ctx, row, present, ordinal, decoded));
    // Token balances: the conventional `accounts` table with an asset
    // `balance` field, as implemented by eosio.token forks.
    if row.table == accounts_name() {
        if let Some(balance) = balance {
            push_item(made, make_token_doc(ctx, row, present, balance));
        }
    }
    assert(made.deep_view() =~= start + row_docs(
        ctx.deep_view(),
        row.deep_view(),
        present,
        ordinal as nat,
        decoded.deep_view(),
    ));
}

/// A group of a transaction is not empty, and each of its traces has a
/// receipt.
pub open spec fn is_group(g: GroupModel) -> bool {
    g.members.len() > 0 && docs::all_receipts(g.members)
}

pub open spec fn is_unit(unit: UnitModel) -> bool {
    unit matches UnitModel::Action(g) ==> is_group(g)
}

impl<'a> BlockWork<'a> {
    /// Every group has a trace that stands for it.
    pub open spec fn well_formed(&self) -> bool {
        forall|i: int| 0 <= i < self.units@.len() ==> is_unit(#[trigger] self.units.deep_view()[i])
    }
}

impl Processor {
    /// The work for a block, before any of it is done.
    pub fn start<'a>(&self, block: &'a DecodedBlock) -> (w: BlockWork<'a>)
        requires
            block.this_block is Some,
        ensures
            w.well_formed(),
            w.context.deep_view() == context_of(block.deep_view()),
            w.units.deep_view() == units::units_of(block.deep_view()),
            w.next == 0,
            w.docs.deep_view() == header_docs(block.deep_view()),
    {
        let (block_num, block_id): (u32, String) = match &block.this_block {
            Some(p) => (p.block_num, p.block_id.clone()),
            None => (0, String::new()),
        };
        let (timestamp, producer) = match &block.header {
            Some(h) => (
                Some(time::block_timestamp_to_string(h.timestamp_slot)),
                Some(h.producer.to_string()),
            ),
            None => (None, None),
        };
        let context = BlockContext { block_num, block_id, timestamp, producer };
        let mut made: Vec<Doc> = no_items();
        if let Some(h) = &block.header {
            push_item(&mut made, make_block_doc(&context, h));
        }
        assert(made.deep_view() =~= header_docs(block.deep_view()));
        let units = plan(block);
        proof {
            units::law_planned_actions_are_whole(block.deep_view());
        }
        BlockWork { context, units, next: 0, docs: made }
    }

    /// Makes the document of an action. Returns the account whose ABI is
    /// missing, if one is.
    fn process_group(
        &self,
        ctx: &BlockContext,
        group: &ActionGroup,
        cache: &mut AbiCache,
        made: &mut Vec<Doc>,
    ) -> (need: Option<Name>)
        requires
            is_group(group.deep_view()),
        ensures
            ({
                let e = action_effect(
                    *self,
                    ctx.deep_view(),
                    group.deep_view(),
                    old(cache)@,
                );
                &&& need == e.need
                &&& final(cache)@ == e.abis
                &&& final(made).deep_view() == old(made).deep_view() + e.docs
            }),
    {
        let ghost start = made.deep_view();
        let ghost members = group.members.deep_view();
        assert(group.members@.len() == members.len());
        let primary = find_primary(&group.members);
        if self.skips_action(&primary.act) {
            assert(start + Seq::<DocModel>::empty() =~= start);
            return None;
        }
        // Handle system ABI updates inline so contracts deployed and used
        // within the same stream stay decodable.
        if primary.act.account == self.system_account && primary.act.name == setabi_name() {
            apply_setabi(&primary.act.data, cache);
        }
        let payload = if primary.act.data.len() == 0 {
            let empty: Vec<(String, Json)> = no_items();
            Payload::Data(json::object(empty))
        } else {
            if let Lookup::Unknown = cache.lookup(primary.act.account) {
                assert(start + Seq::<DocModel>::empty() =~= start);
                return Some(primary.act.account);
            }
            decode_action_data(&primary.act, cache)
        };
        proof {
            let i = choose|i: int|
                0 <= i < group.members@.len() && primary == #[trigger] group.members@[i];
            assert(members[i] == primary.deep_view());
            assert(members[i].receipt is Some);
        }
        if let Some(receipt) = &primary.receipt {
            push_item(
                made,
                make_action_doc(ctx, group.trace, &group.members, primary, receipt, payload),
            );
        }
        assert(made.deep_view() =~= start + action_effect(
            *self,
            ctx.deep_view(),
            group.deep_view(),
            old(cache)@,
        ).docs);
        None
    }

    /// Does one unit of work. Returns the account whose ABI is missing, if one
    /// is.
    fn process_unit(
        &self,
        ctx: &BlockContext,
        unit: &Unit,
        cache: &mut AbiCache,
        made: &mut Vec<Doc>,
    ) -> (need: Option<Name>)
        requires
            is_unit(unit.deep_view()),
        ensures
            ({
                let e = unit_effect(*self, ctx.deep_view(), unit.deep_view(), old(cache)@);
                &&& need == e.need
                &&& final(cache)@ == e.abis
                &&& final(made).deep_view() == old(made).deep_view() + e.docs
            }),
    {
        let ghost start = made.deep_view();
        match unit {
            Unit::Action(group) => self.process_group(ctx, group, cache, made),
            Unit::Account(account) => {
                if let Some(abi) = cache.update(account.name, account.abi.as_slice()) {
                    push_item(made, make_abi_doc(ctx, account.name, &*abi));
                }
                assert(made.deep_view() =~= start + unit_effect(
                    *self,
                    ctx.deep_view(),
                    unit.deep_view(),
                    old(cache)@,
                ).docs);
                None
            },
            Unit::Permission(row, present) => {
                push_item(made, make_perm_doc(ctx, row, *present));
                assert(made.deep_view() =~= start + unit_effect(
                    *self,
                    ctx.deep_view(),
                    unit.deep_view(),
                    old(cache)@,
                ).docs);
                None
            },
            Unit::Contract(row, present, ordinal) => {
                if let Lookup::Unknown = cache.lookup(row.code) {
                    assert(start + Seq::<DocModel>::empty() =~= start);
                    return Some(row.code);
                }
                let decoded = decode_row(row, cache);
                process_contract_row(ctx, row, *present, *ordinal, decoded, made);
                None
            },
        }
    }

    /// Works on until the block is done, or an ABI is missing. Returns the
    /// account whose ABI has to be fetched before the work can go on.
    pub fn advance(&self, work: &mut BlockWork, cache: &mut AbiCache) -> (need: Option<Name>)
        requires
            old(work).well_formed(),
            old(work).next <= old(work).units@.len(),
        ensures
            final(work).well_formed(),
            final(work).next <= final(work).units@.len(),
            final(work).context == old(work).context,
            final(work).units == old(work).units,
            ({
                let run = run_from(
                    *self,
                    old(work).context.deep_view(),
                    old(work).units.deep_view(),
                    old(work).next as nat,
                    old(work).docs.deep_view(),
                    old(cache)@,
                );
                &&& final(work).next == run.next
                &&& final(work).docs.deep_view() == run.docs
                &&& final(cache)@ == run.abis
                &&& need == run.need
            }),
            need is None ==> final(work).next == final(work).units@.len(),
    {
        let ghost ctx = work.context.deep_view();
        let ghost all = work.units.deep_view();
        let ghost due = run_from(
            *self,
            ctx,
            all,
            work.next as nat,
            work.docs.deep_view(),
            cache@,
        );
        while work.next < work.units.len()
            invariant
                work.well_formed(),
                work.next <= work.units@.len(),
                work.context == old(work).context,
                work.units == old(work).units,
                ctx == work.context.deep_view(),
                all == work.units.deep_view(),
                due == run_from(
                    *self,
                    ctx,
                    all,
                    work.next as nat,
                    work.docs.deep_view(),
                    cache@,
                ),
                due == run_from(
                    *self,
                    old(work).context.deep_view(),
                    old(work).units.deep_view(),
                    old(work).next as nat,
                    old(work).docs.deep_view(),
                    old(cache)@,
                ),
            decreases work.units@.len() - work.next,
        {
            assert(is_unit(all[work.next as int]));
            let need = self.process_unit(
                &work.context,
                &work.units[work.next],
                cache,
                &mut work.docs,
            );
            if need.is_some() {
                return need;
            }
            work.next = work.next + 1;
        }
        None
    }
}

// ---------------------------------------------------------------------------
// What holds of the work for a block
// ---------------------------------------------------------------------------

/// When the ABI that was missing is there, whatever it is, the unit that
/// needed it needs no other, and finds the known ABIs as it would have: so
/// each fetch brings the work on by at least one unit.
pub proof fn law_fetch_brings_work_on(
    p: Processor,
    ctx: ContextModel,
    unit: UnitModel,
    known: KnownAbis,
    fetched: Option<AbiModel>,
)
    ensures
        ({
            let e = unit_effect(p, ctx, unit, known);
            e.need matches Some(account) ==> {
                let after = e.abis.insert(account.0, fetched);
                let again = unit_effect(p, ctx, unit, after);
                &&& !e.abis.contains_key(account.0)
                &&& e.docs.len() == 0
                &&& again.need is None
                &&& again.abis == after
            }
        }),
{
    let e = unit_effect(p, ctx, unit, known);
    if let Some(account) = e.need {
        let after = e.abis.insert(account.0, fetched);
        let again = unit_effect(p, ctx, unit, after);
        assert(again.abis =~= after);
    }
}

/// Work is only added: what was made stays, in its order.
pub proof fn law_docs_are_kept(
    p: Processor,
    ctx: ContextModel,
    all: Seq<UnitModel>,
    next: nat,
    made: Seq<DocModel>,
    known: KnownAbis,
)
    requires
        next <= all.len(),
    ensures
        ({
            let run = run_from(p, ctx, all, next, made, known);
            &&& next <= run.next <= all.len()
            &&& run.need is None <==> run.next == all.len()
            &&& made.len() <= run.docs.len()
            &&& run.docs.take(made.len() as int) == made
        }),
    decreases all.len() - next,
{
    let run = run_from(p, ctx, all, next, made, known);
    if next < all.len() {
        let e = unit_effect(p, ctx, all[next as int], known);
        if e.need is None {
            law_docs_are_kept(p, ctx, all, next + 1, made + e.docs, e.abis);
            assert(run.docs.take(made.len() as int) =~= run.docs.take(
                (made + e.docs).len() as int,
            ).take(made.len() as int));
            assert((made + e.docs).take(made.len() as int) =~= made);
        } else {
            assert(made.take(made.len() as int) =~= made);
        }
    } else {
        assert(made.take(made.len() as int) =~= made);
    }
}

/// What comes of a block if every ABI that is missing is answered by a chain:
/// the documents, and the ABIs that are known then.
pub open spec fn settled(
    p: Processor,
    ctx: ContextModel,
    all: Seq<UnitModel>,
    next: nat,
    made: Seq<DocModel>,
    known: KnownAbis,
    chain: spec_fn(Name) -> Option<AbiModel>,
) -> (Seq<DocModel>, KnownAbis)
    decreases all.len() - next,
{
    if next >= all.len() {
        (made, known)
    } else {
        let first = unit_effect(p, ctx, all[next as int], known);
        let e = match first.need {
            Some(account) => unit_effect(
                p,
                ctx,
                all[next as int],
                first.abis.insert(account.0, chain(account)),
            ),
            None => first,
        };
        settled(p, ctx, all, next + 1, made + e.docs, e.abis, chain)
    }
}

/// Working through a block, fetching each ABI when it is missing and working
/// on, comes to the same as if the chain had answered at once: a run that
/// needs nothing more has what is due, and one that needs an ABI has it
/// still to come when the chain's answer is added.
pub proof fn law_fetching_settles(
    p: Processor,
    ctx: ContextModel,
    all: Seq<UnitModel>,
    next: nat,
    made: Seq<DocModel>,
    known: KnownAbis,
    chain: spec_fn(Name) -> Option<AbiModel>,
)
    ensures
        ({
            let run = run_from(p, ctx, all, next, made, known);
            let due = settled(p, ctx, all, next, made, known, chain);
            match run.need {
                None => due == (run.docs, run.abis),
                Some(account) => due == settled(
                    p,
                    ctx,
                    all,
                    run.next,
                    run.docs,
                    run.abis.insert(account.0, chain(account)),
                    chain,
                ),
            }
        }),
    decreases all.len() - next,
{
    if next < all.len() {
        let e = unit_effect(p, ctx, all[next as int], known);
        match e.need {
            None => {
                law_fetching_settles(p, ctx, all, next + 1, made + e.docs, e.abis, chain);
            },
            Some(account) => {
                law_fetch_brings_work_on(p, ctx, all[next as int], known, chain(account));
            },
        }
    }
}

/// A unit makes no document without an identifier.
proof fn lemma_unit_docs_have_ids(
    p: Processor,
    ctx: ContextModel,
    unit: UnitModel,
    known: KnownAbis,
)
    ensures
        forall|i: int|
            0 <= i < unit_effect(p, ctx, unit, known).docs.len() ==> (#[trigger] unit_effect(
                p,
                ctx,
                unit,
                known,
            ).docs[i]).id is Some,
{
}

/// Every document of a block has an identifier: none is left to the index to
/// choose.
pub proof fn law_documents_have_ids(
    p: Processor,
    block: DecodedBlockModel,
    known: KnownAbis,
    chain: spec_fn(Name) -> Option<AbiModel>,
)
    ensures
        ({
            let (due, _) = settled(
                p,
                context_of(block),
                units::units_of(block),
                0,
                header_docs(block),
                known,
                chain,
            );
            forall|i: int| 0 <= i < due.len() ==> (#[trigger] due[i]).id is Some
        }),
{
    lemma_settled_docs_have_ids(
        p,
        context_of(block),
        units::units_of(block),
        0,
        header_docs(block),
        known,
        chain,
    );
}

/// Reindexing is idempotent: a block that is worked through again with the
/// same ABIs leaves the index as it was after the first time.
pub proof fn law_reindexing_is_idempotent(
    p: Processor,
    block: DecodedBlockModel,
    known: KnownAbis,
    chain: spec_fn(Name) -> Option<AbiModel>,
    index: docs::Indexed,
)
    ensures
        ({
            let (due, _) = settled(
                p,
                context_of(block),
                units::units_of(block),
                0,
                header_docs(block),
                known,
                chain,
            );
            let once = docs::written(index, due, due.len());
            docs::written(once, due, due.len()) == once
        }),
{
    let (due, _) = settled(
        p,
        context_of(block),
        units::units_of(block),
        0,
        header_docs(block),
        known,
        chain,
    );
    law_documents_have_ids(p, block, known, chain);
    docs::law_writing_again_changes_nothing(index, due);
}

proof fn lemma_settled_docs_have_ids(
    p: Processor,
    ctx: ContextModel,
    all: Seq<UnitModel>,
    next: nat,
    made: Seq<DocModel>,
    known: KnownAbis,
    chain: spec_fn(Name) -> Option<AbiModel>,
)
    requires
        forall|i: int| 0 <= i < made.len() ==> (#[trigger] made[i]).id is Some,
    ensures
        ({
            let (due, _) = settled(p, ctx, all, next, made, known, chain);
            forall|i: int| 0 <= i < due.len() ==> (#[trigger] due[i]).id is Some
        }),
    decreases all.len() - next,
{
    if next < all.len() {
        let unit = all[next as int];
        let first = unit_effect(p, ctx, unit, known);
        lemma_unit_docs_have_ids(p, ctx, unit, known);
        let e = match first.need {
            Some(account) => {
                let after = first.abis.insert(account.0, chain(account));
                lemma_unit_docs_have_ids(p, ctx, unit, after);
                unit_effect(p, ctx, unit, after)
            },
            None => first,
        };
        let more = made + e.docs;
        assert forall|i: int| 0 <= i < more.len() implies (#[trigger] more[i]).id is Some by {
            if i < made.len() {
                assert(more[i] == made[i]);
            } else {
                assert(more[i] == e.docs[i - made.len()]);
            }
        }
        lemma_settled_docs_have_ids(p, ctx, all, next + 1, more, e.abis, chain);
    }
}

/// A row is decoded by the ABI that its contract has at that point of the
/// block: one that was set just before counts, and nothing has to be fetched.
pub proof fn law_rows_follow_abi_updates(
    p: Processor,
    ctx: ContextModel,
    account: AccountRowModel,
    row: ContractRowModel,
    present: bool,
    ordinal: nat,
    known: KnownAbis,
)
    requires
        row.code == account.name,
    ensures
        ({
            let set = unit_effect(p, ctx, UnitModel::Account(account), known);
            let e = unit_effect(p, ctx, UnitModel::Contract(row, present, ordinal), set.abis);
            &&& e.need is None
            &&& e.docs == row_docs(
                ctx,
                row,
                present,
                ordinal,
                row_of(abis::packed_abi(account.abi), row),
            )
        }),
{
}

/// An account row without an ABI clears the ABI of the account: it is planned,
/// it makes no document, and from there on the account is known to have none.
pub proof fn law_empty_account_row_clears(
    p: Processor,
    ctx: ContextModel,
    row: TableDeltaRowModel,
    before: units::Planned,
    known: KnownAbis,
)
    requires
        row.present,
        deltas::get_account_row(wire::at(row.data)).1.sound(),
        deltas::get_account_row(wire::at(row.data)).0.abi.len() == 0,
    ensures
        ({
            let account = deltas::get_account_row(wire::at(row.data)).0;
            let unit = UnitModel::Account(account);
            &&& units::with_row("account"@, row, before).units == before.units.push(unit)
            &&& unit_effect(p, ctx, unit, known) == (Effect {
                need: None,
                docs: seq![],
                abis: known.insert(account.name.0, None),
            })
        }),
{
}

/// An action is decoded by the ABI that its contract has at that point of the
/// block: one that a `setabi` of the system account set just before counts,
/// and nothing has to be fetched.
pub proof fn law_actions_follow_setabi(
    p: Processor,
    ctx: ContextModel,
    set: GroupModel,
    used: GroupModel,
    known: KnownAbis,
)
    requires
        ({
            let setting = units::primary_of(set.members).act;
            let using = units::primary_of(used.members).act;
            let (account, c1) = wire::get_name(wire::at(setting.data));
            let (_, c2) = wire::get_blob(c1);
            &&& setting.account == p.system() && setting.name == named("setabi"@)
            &&& !p.skips(setting.account.0, setting.name.0)
            &&& c2.sound()
            &&& using.account == account && !p.skips(using.account.0, using.name.0)
            &&& !(using.account == p.system() && using.name == named("setabi"@))
            &&& using.data.len() > 0
        }),
    ensures
        ({
            let setting = units::primary_of(set.members).act;
            let primary = units::primary_of(used.members);
            let (_, c1) = wire::get_name(wire::at(setting.data));
            let (packed, _) = wire::get_blob(c1);
            let e = action_effect(p, ctx, used, action_effect(p, ctx, set, known).abis);
            &&& e.need is None
            &&& e.docs == seq![
                docs::action_doc(
                    ctx,
                    used.trace,
                    used.members,
                    primary,
                    payload_of(abis::packed_abi(packed), primary.act),
                ),
            ]
        }),
{
}

/// An action that is to be skipped leaves no document, and changes no ABI.
pub proof fn law_skipped_actions_leave_nothing(
    p: Processor,
    ctx: ContextModel,
    g: GroupModel,
    known: KnownAbis,
)
    requires
        p.skips(
            units::primary_of(g.members).act.account.0,
            units::primary_of(g.members).act.name.0,
        ),
    ensures
        action_effect(p, ctx, g, known) == (Effect { need: None, docs: seq![], abis: known }),
{
}

} // verus!
