//! What a block result holds, and the order in which it is worked through.

use crate::antelope::codec;
use crate::antelope::wire;
use crate::antelope::wire::Cursor;
use crate::indexing::docs;
use crate::lists;
use crate::lists::{no_items, push_item};
use crate::ship::deltas;
use crate::ship::deltas::{
    AccountRow, AccountRowModel, ContractRow, ContractRowModel, PermissionRow, PermissionRowModel,
    TableDelta, TableDeltaModel, TableDeltaRow, TableDeltaRowModel,
};
use crate::ship::header;
use crate::ship::header::{BlockHeader, BlockHeaderModel};
use crate::ship::results::{
    BlockPosition, BlockPositionModel, GetBlocksResult, GetBlocksResultModel,
};
use crate::ship::traces::{
    ActionTrace, ActionTraceModel, TransactionTrace, TransactionTraceModel,
};
use crate::ship::ShipError;
use crate::text;
use vstd::hash_map::StringHashMap;
use vstd::prelude::*;

verus! {

// ---------------------------------------------------------------------------
// Decoded blocks
// ---------------------------------------------------------------------------

/// A block result with its payloads decoded.
pub struct DecodedBlock {
    pub this_block: Option<BlockPosition>,
    /// Absent if there is none, or it cannot be read.
    pub header: Option<BlockHeader>,
    pub traces: Vec<TransactionTrace>,
    pub deltas: Vec<TableDelta>,
}

#[verifier::ext_equal]
pub struct DecodedBlockModel {
    pub this_block: Option<BlockPositionModel>,
    pub header: Option<BlockHeaderModel>,
    pub traces: Seq<TransactionTraceModel>,
    pub deltas: Seq<TableDeltaModel>,
}

impl DeepView for DecodedBlock {
    type V = DecodedBlockModel;

    open spec fn deep_view(&self) -> DecodedBlockModel {
        DecodedBlockModel {
            this_block: self.this_block.deep_view(),
            header: self.header.deep_view(),
            traces: self.traces.deep_view(),
            deltas: self.deltas.deep_view(),
        }
    }
}

/// The header of a block, if there is one that can be read.
pub open spec fn header_of(block: Option<Seq<u8>>) -> Option<BlockHeaderModel> {
    match block {
        Some(data) => {
            let (h, c) = header::get_header(wire::at(data));
            if c.sound() {
                Some(h)
            } else {
                None
            }
        },
        None => None,
    }
}

/// The values in a payload that may be absent.
pub open spec fn traces_of(payload: Option<Seq<u8>>) -> (Seq<TransactionTraceModel>, Cursor) {
    match payload {
        Some(data) => codec::list_of::<TransactionTrace>(wire::at(data)),
        None => (seq![], wire::at(seq![])),
    }
}

pub open spec fn deltas_of(payload: Option<Seq<u8>>) -> (Seq<TableDeltaModel>, Cursor) {
    match payload {
        Some(data) => codec::list_of::<TableDelta>(wire::at(data)),
        None => (seq![], wire::at(seq![])),
    }
}

/// A result with its payloads decoded. One that is not about a block holds
/// nothing; malformed traces or deltas are a fault, a malformed header is not.
pub open spec fn decoded(result: GetBlocksResultModel) -> (DecodedBlockModel, Cursor) {
    if result.this_block is None {
        (
            DecodedBlockModel { this_block: None, header: None, traces: seq![], deltas: seq![] },
            wire::at(seq![]),
        )
    } else {
        let (traces, c1) = traces_of(result.traces);
        let (rows, c2) = deltas_of(result.deltas);
        (
            DecodedBlockModel {
                this_block: result.this_block,
                header: header_of(result.block),
                traces,
                deltas: rows,
            },
            if c1.sound() {
                c2
            } else {
                c1
            },
        )
    }
}

impl DecodedBlock {
    pub fn decode(result: &GetBlocksResult) -> (res: Result<DecodedBlock, ShipError>)
        ensures
            crate::antelope::reader::decodes(decoded(result.deep_view()), res),
    {
        let this_block = match &result.this_block {
            Some(p) => BlockPosition { block_num: p.block_num, block_id: p.block_id.clone() },
            None => {
                return Ok(
                    DecodedBlock {
                        this_block: None,
                        header: None,
                        traces: no_items(),
                        deltas: no_items(),
                    },
                );
            },
        };
        let header = match &result.block {
            Some(data) => {
                proof {
                    lists::lemma_bytes_view(*data);
                }
                match BlockHeader::decode(data.as_slice()) {
                    Ok(h) => Some(h),
                    Err(_) => None,
                }
            },
            None => None,
        };
        let traces = match &result.traces {
            Some(data) => {
                proof {
                    lists::lemma_bytes_view(*data);
                }
                TransactionTrace::decode_traces(data.as_slice())?
            },
            None => no_items(),
        };
        let deltas = match &result.deltas {
            Some(data) => {
                proof {
                    lists::lemma_bytes_view(*data);
                }
                TableDelta::decode_deltas(data.as_slice())?
            },
            None => no_items(),
        };
        Ok(DecodedBlock { this_block: Some(this_block), header, traces, deltas })
    }
}

// ---------------------------------------------------------------------------
// Actions and their notifications
// ---------------------------------------------------------------------------

/// The digest of the action that a trace is of, if it was executed.
pub open spec fn digest_of(at: ActionTraceModel) -> Option<Seq<char>> {
    match at.receipt {
        Some(r) => Some(r.act_digest),
        None => None,
    }
}

/// The distinct digests among the first `n` traces, in the order in which they
/// first occur.
pub open spec fn digests(traces: Seq<ActionTraceModel>, n: nat) -> Seq<Seq<char>>
    decreases n,
{
    if n == 0 {
        seq![]
    } else {
        let before = digests(traces, (n - 1) as nat);
        match digest_of(traces[n - 1]) {
            Some(d) => if before.contains(d) {
                before
            } else {
                before.push(d)
            },
            None => before,
        }
    }
}

/// Those of the first `n` traces that are of the action with a digest.
pub open spec fn members(traces: Seq<ActionTraceModel>, digest: Seq<char>, n: nat) -> Seq<
    ActionTraceModel,
>
    decreases n,
{
    if n == 0 {
        seq![]
    } else {
        let before = members(traces, digest, (n - 1) as nat);
        if digest_of(traces[n - 1]) == Some(digest) {
            before.push(traces[n - 1])
        } else {
            before
        }
    }
}

/// The place of the first trace from `from` on that was delivered to the
/// account of the action itself, or the number of traces.
pub open spec fn primary_from(group: Seq<ActionTraceModel>, from: nat) -> nat
    decreases group.len() - from,
{
    if from >= group.len() {
        group.len()
    } else if group[from as int].receiver == group[from as int].act.account {
        from
    } else {
        primary_from(group, from + 1)
    }
}

/// The trace that stands for a group: the one that was delivered to the
/// account of the action itself, else the first.
pub open spec fn primary_of(group: Seq<ActionTraceModel>) -> ActionTraceModel {
    let at = primary_from(group, 0);
    if at < group.len() {
        group[at as int]
    } else {
        group[0]
    }
}

/// An action of a transaction, with the traces of all its deliveries.
pub struct ActionGroup<'a> {
    pub trace: &'a TransactionTrace,
    pub members: Vec<&'a ActionTrace>,
}

#[verifier::ext_equal]
pub struct GroupModel {
    pub trace: TransactionTraceModel,
    pub members: Seq<ActionTraceModel>,
}

impl<'a> DeepView for ActionGroup<'a> {
    type V = GroupModel;

    open spec fn deep_view(&self) -> GroupModel {
        GroupModel { trace: self.trace.deep_view(), members: self.members.deep_view() }
    }
}

/// The actions of a transaction, one group for each digest. Only executed
/// transactions have any.
pub open spec fn groups_of(trace: TransactionTraceModel) -> Seq<GroupModel> {
    if trace.status != 0 {
        seq![]
    } else {
        let found = digests(trace.action_traces, trace.action_traces.len());
        Seq::new(
            found.len(),
            |i: int|
                GroupModel {
                    trace,
                    members: members(
                        trace.action_traces,
                        found[i],
                        trace.action_traces.len(),
                    ),
                },
        )
    }
}

// ---------------------------------------------------------------------------
// Units of work
// ---------------------------------------------------------------------------

/// One thing to do for a block.
pub enum Unit<'a> {
    Action(ActionGroup<'a>),
    /// An account that was written with an ABI.
    Account(AccountRow),
    /// A permission that was written or removed.
    Permission(PermissionRow, bool),
    /// A table row that was written or removed, and its place among them.
    Contract(ContractRow, bool, u64),
}

pub enum UnitModel {
    Action(GroupModel),
    Account(AccountRowModel),
    Permission(PermissionRowModel, bool),
    Contract(ContractRowModel, bool, nat),
}

impl<'a> DeepView for Unit<'a> {
    type V = UnitModel;

    open spec fn deep_view(&self) -> UnitModel {
        match self {
            Unit::Action(g) => UnitModel::Action(g.deep_view()),
            Unit::Account(a) => UnitModel::Account(a.deep_view()),
            Unit::Permission(p, present) => UnitModel::Permission(p.deep_view(), *present),
            Unit::Contract(row, present, ordinal) => UnitModel::Contract(
                row.deep_view(),
                *present,
                *ordinal as nat,
            ),
        }
    }
}

/// The actions of the first `n` transactions.
pub open spec fn action_units(traces: Seq<TransactionTraceModel>, n: nat) -> Seq<UnitModel>
    decreases n,
{
    if n == 0 {
        seq![]
    } else {
        let groups = groups_of(traces[n - 1]);
        action_units(traces, (n - 1) as nat) + Seq::new(
            groups.len(),
            |i: int| UnitModel::Action(groups[i]),
        )
    }
}

/// Work so far, and how many table rows are in it.
pub struct Planned {
    pub units: Seq<UnitModel>,
    pub rows: nat,
}

/// What one row adds: nothing if it cannot be read or is of another table, or
/// if it is an account that was removed. An account without an ABI counts: its
/// ABI was cleared.
pub open spec fn with_row(table: Seq<char>, row: TableDeltaRowModel, before: Planned) -> Planned {
    if table == "account"@ {
        let (account, c) = deltas::get_account_row(wire::at(row.data));
        if c.sound() && row.present {
            Planned { units: before.units.push(UnitModel::Account(account)), rows: before.rows }
        } else {
            before
        }
    } else if table == "permission"@ {
        let (permission, c) = deltas::get_permission_row(wire::at(row.data));
        if c.sound() {
            Planned {
                units: before.units.push(UnitModel::Permission(permission, row.present)),
                rows: before.rows,
            }
        } else {
            before
        }
    } else if table == "contract_row"@ {
        let (contract_row, c) = deltas::get_contract_row(wire::at(row.data));
        if c.sound() {
            Planned {
                units: before.units.push(
                    UnitModel::Contract(contract_row, row.present, before.rows),
                ),
                rows: before.rows + 1,
            }
        } else {
            before
        }
    } else {
        before
    }
}

/// What the first `n` rows of a table add.
pub open spec fn with_rows(
    table: Seq<char>,
    rows: Seq<TableDeltaRowModel>,
    n: nat,
    before: Planned,
) -> Planned
    decreases n,
{
    if n == 0 {
        before
    } else {
        with_row(table, rows[n - 1], with_rows(table, rows, (n - 1) as nat, before))
    }
}

/// What the first `n` deltas add.
pub open spec fn with_deltas(all: Seq<TableDeltaModel>, n: nat, before: Planned) -> Planned
    decreases n,
{
    if n == 0 {
        before
    } else {
        let d = all[n - 1];
        with_rows(d.name, d.rows, d.rows.len(), with_deltas(all, (n - 1) as nat, before))
    }
}

/// The work for a block: first its actions, then its rows.
pub open spec fn units_of(block: DecodedBlockModel) -> Seq<UnitModel> {
    let actions = action_units(block.traces, block.traces.len());
    with_deltas(block.deltas, block.deltas.len(), Planned { units: actions, rows: 0 }).units
}

// ---------------------------------------------------------------------------
// Planning
// ---------------------------------------------------------------------------

proof fn lemma_digests(traces: Seq<ActionTraceModel>, n: nat)
    ensures
        digests(traces, n).no_duplicates(),
        digests(traces, n).len() <= n,
    decreases n,
{
    if n > 0 {
        lemma_digests(traces, (n - 1) as nat);
    }
}

proof fn lemma_no_members(traces: Seq<ActionTraceModel>, digest: Seq<char>, n: nat)
    requires
        !digests(traces, n).contains(digest),
    ensures
        members(traces, digest, n) == Seq::<ActionTraceModel>::empty(),
    decreases n,
{
    if n > 0 {
        let before = digests(traces, (n - 1) as nat);
        let after = digests(traces, n);
        assert(!before.contains(digest)) by {
            if before.contains(digest) {
                let k = before.index_of(digest);
                assert(after[k] == digest);
            }
        }
        lemma_no_members(traces, digest, (n - 1) as nat);
        if digest_of(traces[n - 1]) == Some(digest) {
            assert(after.last() == digest);
        }
    }
}

proof fn lemma_members_have_receipts(traces: Seq<ActionTraceModel>, digest: Seq<char>, n: nat)
    ensures
        docs::all_receipts(members(traces, digest, n)),
    decreases n,
{
    if n > 0 {
        lemma_members_have_receipts(traces, digest, (n - 1) as nat);
        let before = members(traces, digest, (n - 1) as nat);
        let after = members(traces, digest, n);
        assert forall|i: int| 0 <= i < after.len() implies (
        #[trigger] after[i]).receipt is Some by {
            if i < before.len() {
                assert(after[i] == before[i]);
            }
        }
    }
}

/// Collapse notification traces (require_recipient) into their primary
/// action: group by act_digest.
fn group_actions<'a>(trace: &'a TransactionTrace) -> (groups: Vec<ActionGroup<'a>>)
    ensures
        groups.deep_view() == groups_of(trace.deep_view()),
{
    let ghost model = trace.deep_view();
    let ghost ats = model.action_traces;
    let mut groups: Vec<ActionGroup<'a>> = Vec::new();
    // Only executed transactions produce state-relevant actions.
    if trace.status != 0 {
        assert(groups.deep_view() == Seq::<GroupModel>::empty());
        return groups;
    }
    let mut index: StringHashMap<usize> = StringHashMap::new();
    let mut i: usize = 0;
    while i < trace.action_traces.len()
        invariant
            i <= trace.action_traces@.len(),
            model == trace.deep_view(),
            ats == model.action_traces,
            ats.len() == trace.action_traces@.len(),
            groups@.len() == digests(ats, i as nat).len(),
            forall|k: int|
                0 <= k < groups@.len() ==> (#[trigger] groups@[k]).deep_view() == (GroupModel {
                    trace: model,
                    members: members(ats, digests(ats, i as nat)[k], i as nat),
                }),
            forall|d: Seq<char>| #[trigger]
                index@.contains_key(d) <==> digests(ats, i as nat).contains(d),
            forall|d: Seq<char>| #[trigger]
                index@.contains_key(d) ==> index@[d] < groups@.len() && digests(
                    ats,
                    i as nat,
                )[index@[d] as int] == d,
        decreases trace.action_traces@.len() - i,
    {
        let ghost ds = digests(ats, i as nat);
        let ghost next = digests(ats, (i + 1) as nat);
        let ghost before = groups@;
        let ghost old_index = index@;
        let at = &trace.action_traces[i];
        assert(ats[i as int] == at.deep_view());
        proof {
            lemma_digests(ats, i as nat);
        }
        if let Some(receipt) = &at.receipt {
            let found: Option<usize> = match index.get(receipt.act_digest.as_str()) {
                Some(k) => Some(*k),
                None => None,
            };
            match found {
                Some(k) => {
                    let group = &mut groups[k];
                    push_item(&mut group.members, at);
                    assert(next == ds);
                    assert forall|j: int| 0 <= j < groups@.len() implies (
                    #[trigger] groups@[j]).deep_view() == (GroupModel {
                        trace: model,
                        members: members(ats, next[j], (i + 1) as nat),
                    }) by {
                        assert(before[j].deep_view() == (GroupModel {
                            trace: model,
                            members: members(ats, ds[j], i as nat),
                        }));
                        if j != k {
                            assert(ds[j] != ds[k as int]);
                        }
                    }
                },
                None => {
                    let mut first: Vec<&'a ActionTrace> = no_items();
                    push_item(&mut first, at);
                    index.insert(receipt.act_digest.clone(), groups.len());
                    groups.push(ActionGroup { trace, members: first });
                    proof {
                        lemma_no_members(ats, receipt.act_digest@, i as nat);
                    }
                    assert(next == ds.push(receipt.act_digest@));
                    assert forall|j: int| 0 <= j < groups@.len() implies (
                    #[trigger] groups@[j]).deep_view() == (GroupModel {
                        trace: model,
                        members: members(ats, next[j], (i + 1) as nat),
                    }) by {
                        if j < ds.len() {
                            assert(groups@[j] == before[j]);
                            assert(before[j].deep_view() == (GroupModel {
                                trace: model,
                                members: members(ats, ds[j], i as nat),
                            }));
                            assert(ds.contains(ds[j]));
                        }
                    }
                    assert forall|d: Seq<char>| #[trigger]
                        index@.contains_key(d) <==> next.contains(d) by {
                        assert(old_index.contains_key(d) <==> ds.contains(d));
                        if ds.contains(d) {
                            assert(next[ds.index_of(d)] == d);
                        }
                        if d == receipt.act_digest@ {
                            assert(next[ds.len() as int] == d);
                        }
                    }
                },
            }
        } else {
            assert(next == ds);
            assert forall|j: int| 0 <= j < groups@.len() implies (
            #[trigger] groups@[j]).deep_view() == (GroupModel {
                trace: model,
                members: members(ats, next[j], (i + 1) as nat),
            }) by {
                assert(before[j].deep_view() == (GroupModel {
                    trace: model,
                    members: members(ats, ds[j], i as nat),
                }));
            }
        }
        i = i + 1;
    }
    assert(groups.deep_view() =~= groups_of(model));
    groups
}

/// What was planned, as a model.
spec fn planned(units: Vec<Unit>, rows: u64) -> Planned {
    Planned { units: units.deep_view(), rows: rows as nat }
}

/// Plans the work for a row. Returns how many table rows were planned.
fn plan_row<'a>(table: &str, row: &TableDeltaRow, units: &mut Vec<Unit<'a>>, rows: u64) -> (n: u64)
    requires
        rows <= old(units)@.len(),
    ensures
        planned(*final(units), n) == with_row(
            table@,
            row.deep_view(),
            planned(*old(units), rows),
        ),
        n <= final(units)@.len(),
{
    if text::same_text(table, "account") {
        if let Ok(account) = AccountRow::decode(row.data.as_slice()) {
            if row.present {
                push_item(units, Unit::Account(account));
            }
        }
        rows
    } else if text::same_text(table, "permission") {
        if let Ok(permission) = PermissionRow::decode(row.data.as_slice()) {
            push_item(units, Unit::Permission(permission, row.present));
        }
        rows
    } else if text::same_text(table, "contract_row") {
        match ContractRow::decode(row.data.as_slice()) {
            Ok(contract_row) => {
                push_item(units, Unit::Contract(contract_row, row.present, rows));
                assert(rows < units.len());
                rows + 1
            },
            Err(_) => rows,
        }
    } else {
        rows
    }
}

/// Plans the work for a block.
pub fn plan<'a>(block: &'a DecodedBlock) -> (units: Vec<Unit<'a>>)
    ensures
        units.deep_view() == units_of(block.deep_view()),
{
    let ghost traces = block.deep_view().traces;
    let ghost all = block.deep_view().deltas;
    let mut units: Vec<Unit<'a>> = no_items();
    let mut i: usize = 0;
    while i < block.traces.len()
        invariant
            i <= block.traces@.len(),
            traces == block.deep_view().traces,
            units.deep_view() == action_units(traces, i as nat),
        decreases block.traces@.len() - i,
    {
        let ghost before = units.deep_view();
        let groups: Vec<ActionGroup<'a>> = group_actions(&block.traces[i]);
        let ghost found = groups.deep_view();
        let ghost more = Seq::new(found.len(), |k: int| UnitModel::Action(found[k]));
        assert(found == groups_of(traces[i as int]));
        push_groups(&mut units, groups);
        assert(units.deep_view() == before + more);
        i = i + 1;
    }
    let ghost start = Planned { units: units.deep_view(), rows: 0 };
    let mut rows: u64 = 0;
    let mut d: usize = 0;
    while d < block.deltas.len()
        invariant
            d <= block.deltas@.len(),
            all == block.deep_view().deltas,
            rows <= units@.len(),
            planned(units, rows) == with_deltas(all, d as nat, start),
        decreases block.deltas@.len() - d,
    {
        let delta = &block.deltas[d];
        let ghost before = planned(units, rows);
        let ghost model = delta.deep_view();
        assert(model == all[d as int]);
        let mut k: usize = 0;
        while k < delta.rows.len()
            invariant
                k <= delta.rows@.len(),
                model == delta.deep_view(),
                rows <= units@.len(),
                planned(units, rows) == with_rows(model.name, model.rows, k as nat, before),
            decreases delta.rows@.len() - k,
        {
            rows = plan_row(delta.name.as_str(), &delta.rows[k], &mut units, rows);
            k = k + 1;
        }
        d = d + 1;
    }
    units
}

/// Appends the actions of a transaction.
fn push_groups<'a>(units: &mut Vec<Unit<'a>>, groups: Vec<ActionGroup<'a>>)
    ensures
        final(units).deep_view() == old(units).deep_view() + Seq::new(
            groups.deep_view().len(),
            |i: int| UnitModel::Action(groups.deep_view()[i]),
        ),
{
    let ghost all = groups.deep_view();
    let ghost more = Seq::new(all.len(), |i: int| UnitModel::Action(all[i]));
    let ghost start = units.deep_view();
    assert(start + more.take(0) == start);
    for group in it: groups
        invariant
            it.seq() == groups@,
            all == groups.deep_view(),
            more == Seq::new(all.len(), |i: int| UnitModel::Action(all[i])),
            units.deep_view() == start + more.take(it.index() as int),
    {
        push_item(units, Unit::Action(group));
        assert(start + more.take(it.index() + 1) =~= (start + more.take(it.index() as int)).push(
            more[it.index() as int],
        ));
    }
    assert(more.take(more.len() as int) =~= more);
}

// ---------------------------------------------------------------------------
// What holds of the work for a block
// ---------------------------------------------------------------------------

proof fn lemma_members_exist(traces: Seq<ActionTraceModel>, digest: Seq<char>, n: nat)
    requires
        digests(traces, n).contains(digest),
    ensures
        members(traces, digest, n).len() > 0,
    decreases n,
{
    if n > 0 {
        let before = digests(traces, (n - 1) as nat);
        if digest_of(traces[n - 1]) != Some(digest) {
            let k = digests(traces, n).index_of(digest);
            assert(before.contains(digest)) by {
                assert(digests(traces, n)[k] == digest);
                if k == before.len() {
                    assert(digest_of(traces[n - 1]) == Some(digest));
                } else {
                    assert(before[k] == digest);
                }
            }
            lemma_members_exist(traces, digest, (n - 1) as nat);
        }
    }
}

/// Whether every action among some units has at least one trace, and each of
/// its traces has a receipt.
pub open spec fn whole_groups(units: Seq<UnitModel>) -> bool {
    forall|i: int|
        0 <= i < units.len() ==> ((#[trigger] units[i]) matches UnitModel::Action(g)
            ==> g.members.len() > 0 && docs::all_receipts(g.members))
}

proof fn lemma_action_units(traces: Seq<TransactionTraceModel>, n: nat)
    ensures
        whole_groups(action_units(traces, n)),
    decreases n,
{
    if n > 0 {
        lemma_action_units(traces, (n - 1) as nat);
        let before = action_units(traces, (n - 1) as nat);
        let after = action_units(traces, n);
        let trace = traces[n - 1];
        let ats = trace.action_traces;
        let found = digests(ats, ats.len());
        assert forall|i: int| 0 <= i < after.len() implies ((#[trigger] after[i]) matches
            UnitModel::Action(g) ==> g.members.len() > 0 && docs::all_receipts(g.members)) by {
            if i < before.len() {
                assert(after[i] == before[i]);
            } else {
                let d = found[i - before.len()];
                assert(found.contains(d));
                lemma_members_exist(ats, d, ats.len());
                lemma_members_have_receipts(ats, d, ats.len());
            }
        }
    }
}

proof fn lemma_with_rows(
    table: Seq<char>,
    rows: Seq<TableDeltaRowModel>,
    n: nat,
    before: Planned,
)
    requires
        whole_groups(before.units),
    ensures
        whole_groups(with_rows(table, rows, n, before).units),
    decreases n,
{
    if n > 0 {
        lemma_with_rows(table, rows, (n - 1) as nat, before);
        let middle = with_rows(table, rows, (n - 1) as nat, before).units;
        let after = with_rows(table, rows, n, before).units;
        assert forall|i: int| 0 <= i < after.len() implies ((#[trigger] after[i]) matches
            UnitModel::Action(g) ==> g.members.len() > 0 && docs::all_receipts(g.members)) by {
            if i < middle.len() {
                assert(after[i] == middle[i]);
            }
        }
    }
}

proof fn lemma_with_deltas(all: Seq<TableDeltaModel>, n: nat, before: Planned)
    requires
        whole_groups(before.units),
    ensures
        whole_groups(with_deltas(all, n, before).units),
    decreases n,
{
    if n > 0 {
        lemma_with_deltas(all, (n - 1) as nat, before);
        let d = all[n - 1];
        lemma_with_rows(d.name, d.rows, d.rows.len(), with_deltas(all, (n - 1) as nat, before));
    }
}

/// Every action that is planned has at least one trace, and each of its traces
/// has a receipt.
pub proof fn law_planned_actions_are_whole(block: DecodedBlockModel)
    ensures
        whole_groups(units_of(block)),
{
    lemma_action_units(block.traces, block.traces.len());
    lemma_with_deltas(
        block.deltas,
        block.deltas.len(),
        Planned { units: action_units(block.traces, block.traces.len()), rows: 0 },
    );
}

proof fn lemma_digest_found(traces: Seq<ActionTraceModel>, i: int, n: nat)
    requires
        0 <= i < n <= traces.len(),
        digest_of(traces[i]) is Some,
    ensures
        digests(traces, n).contains(digest_of(traces[i])->0),
    decreases n,
{
    let d = digest_of(traces[i])->0;
    let before = digests(traces, (n - 1) as nat);
    let after = digests(traces, n);
    if i < n - 1 {
        lemma_digest_found(traces, i, (n - 1) as nat);
        let k = before.index_of(d);
        assert(after[k] == d);
    } else if before.contains(d) {
        assert(after == before);
    } else {
        assert(after.last() == d);
    }
}

proof fn lemma_member_digests(traces: Seq<ActionTraceModel>, digest: Seq<char>, n: nat)
    requires
        n <= traces.len(),
    ensures
        forall|m: int|
            0 <= m < members(traces, digest, n).len() ==> digest_of(
                #[trigger] members(traces, digest, n)[m],
            ) == Some(digest),
        forall|i: int|
            0 <= i < n && digest_of(#[trigger] traces[i]) == Some(digest) ==> members(
                traces,
                digest,
                n,
            ).contains(traces[i]),
    decreases n,
{
    if n > 0 {
        lemma_member_digests(traces, digest, (n - 1) as nat);
        let before = members(traces, digest, (n - 1) as nat);
        let after = members(traces, digest, n);
        assert forall|m: int| 0 <= m < after.len() implies digest_of(#[trigger] after[m]) == Some(
            digest,
        ) by {
            if m < before.len() {
                assert(after[m] == before[m]);
            }
        }
        assert forall|i: int|
            0 <= i < n && digest_of(#[trigger] traces[i]) == Some(
                digest,
            ) implies after.contains(traces[i]) by {
            if i < n - 1 {
                assert(before.contains(traces[i]));
                let k = before.index_of(traces[i]);
                assert(after[k] == traces[i]);
            } else {
                assert(after.last() == traces[i]);
            }
        }
    }
}

/// The notifications of an action are collapsed into it: an executed
/// transaction has one group for each distinct digest, every trace in a group
/// has its digest, and every trace with a receipt is in the group of its
/// digest.
pub proof fn law_notifications_collapse(trace: TransactionTraceModel)
    requires
        trace.status == 0,
    ensures
        ({
            let ats = trace.action_traces;
            let found = digests(ats, ats.len());
            let groups = groups_of(trace);
            &&& found.no_duplicates()
            &&& groups.len() == found.len()
            &&& forall|k: int, m: int|
                0 <= k < groups.len() && 0 <= m < groups[k].members.len() ==> digest_of(
                    #[trigger] groups[k].members[m],
                ) == Some(found[k])
            &&& forall|i: int|
                #![trigger ats[i]]
                0 <= i < ats.len() && digest_of(ats[i]) is Some ==> exists|k: int|
                    0 <= k < groups.len() && digest_of(ats[i]) == Some(found[k])
                        && #[trigger] groups[k].members.contains(ats[i])
        }),
{
    let ats = trace.action_traces;
    let found = digests(ats, ats.len());
    let groups = groups_of(trace);
    lemma_digests(ats, ats.len());
    assert forall|k: int, m: int|
        0 <= k < groups.len() && 0 <= m < groups[k].members.len() implies digest_of(
        #[trigger] groups[k].members[m],
    ) == Some(found[k]) by {
        lemma_member_digests(ats, found[k], ats.len());
    }
    assert forall|i: int|
        #![trigger ats[i]]
        0 <= i < ats.len() && digest_of(ats[i]) is Some implies exists|k: int|
        0 <= k < groups.len() && digest_of(ats[i]) == Some(found[k])
            && #[trigger] groups[k].members.contains(ats[i]) by {
        lemma_digest_found(ats, i, ats.len());
        let k = found.index_of(digest_of(ats[i])->0);
        lemma_member_digests(ats, found[k], ats.len());
        assert(groups[k].members.contains(ats[i]));
    }
}

/// Whether the table rows among some units are numbered upwards from zero,
/// and there are `rows` of them at most.
pub open spec fn numbered(units: Seq<UnitModel>, rows: nat) -> bool {
    &&& forall|i: int|
        0 <= i < units.len() ==> ((#[trigger] units[i]) matches UnitModel::Contract(_, _, k)
            ==> k < rows)
    &&& forall|i: int, j: int|
        0 <= i < j < units.len() ==> ((#[trigger] units[i]) matches UnitModel::Contract(_, _, k)
            ==> ((#[trigger] units[j]) matches UnitModel::Contract(_, _, l) ==> k < l))
}

proof fn lemma_rows_numbered(
    table: Seq<char>,
    rows: Seq<TableDeltaRowModel>,
    n: nat,
    before: Planned,
)
    requires
        numbered(before.units, before.rows),
    ensures
        ({
            let after = with_rows(table, rows, n, before);
            numbered(after.units, after.rows)
        }),
    decreases n,
{
    if n > 0 {
        lemma_rows_numbered(table, rows, (n - 1) as nat, before);
    }
}

proof fn lemma_deltas_numbered(all: Seq<TableDeltaModel>, n: nat, before: Planned)
    requires
        numbered(before.units, before.rows),
    ensures
        ({
            let after = with_deltas(all, n, before);
            numbered(after.units, after.rows)
        }),
    decreases n,
{
    if n > 0 {
        lemma_deltas_numbered(all, (n - 1) as nat, before);
        let d = all[n - 1];
        lemma_rows_numbered(
            d.name,
            d.rows,
            d.rows.len(),
            with_deltas(all, (n - 1) as nat, before),
        );
    }
}

proof fn lemma_only_actions(traces: Seq<TransactionTraceModel>, n: nat)
    ensures
        forall|i: int|
            0 <= i < action_units(traces, n).len() ==> #[trigger] action_units(
                traces,
                n,
            )[i] is Action,
    decreases n,
{
    if n > 0 {
        lemma_only_actions(traces, (n - 1) as nat);
        let before = action_units(traces, (n - 1) as nat);
        let after = action_units(traces, n);
        assert forall|i: int| 0 <= i < after.len() implies #[trigger] after[i] is Action by {
            if i < before.len() {
                assert(after[i] == before[i]);
            }
        }
    }
}

/// The table rows of a block are numbered in their order, so no two of them
/// have the same number.
pub proof fn law_rows_are_numbered(block: DecodedBlockModel)
    ensures
        forall|i: int, j: int|
            0 <= i < j < units_of(block).len() ==> ((#[trigger] units_of(block)[i]) matches
                UnitModel::Contract(_, _, k) ==> ((#[trigger] units_of(block)[j]) matches
                UnitModel::Contract(_, _, l) ==> k < l)),
{
    let actions = action_units(block.traces, block.traces.len());
    lemma_only_actions(block.traces, block.traces.len());
    lemma_deltas_numbered(
        block.deltas,
        block.deltas.len(),
        Planned { units: actions, rows: 0 },
    );
}

} // verus!
