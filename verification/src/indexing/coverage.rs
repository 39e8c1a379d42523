//! Nothing of a block is left out and nothing is made up: what is planned for a
//! block, in terms of the traces and rows that it holds.

use crate::antelope::wire;
use crate::indexing::units;
use crate::indexing::units::{DecodedBlockModel, Planned, UnitModel};
use crate::ship::deltas;
use crate::ship::deltas::{TableDeltaModel, TableDeltaRowModel};
use crate::ship::traces::{ActionTraceModel, TransactionTraceModel};
use vstd::prelude::*;

verus! {

// ---------------------------------------------------------------------------
// The groups of a transaction
// ---------------------------------------------------------------------------

/// Whether a trace is of the executed action with a digest.
pub open spec fn has_digest(at: ActionTraceModel, digest: Seq<char>) -> bool {
    at.receipt is Some && (at.receipt->0).act_digest == digest
}

proof fn lemma_members_filter(ats: Seq<ActionTraceModel>, digest: Seq<char>, n: nat)
    requires
        n <= ats.len(),
    ensures
        units::members(ats, digest, n) == ats.take(n as int).filter(
            |at: ActionTraceModel| has_digest(at, digest),
        ),
    decreases n,
{
    reveal(Seq::filter);
    if n > 0 {
        lemma_members_filter(ats, digest, (n - 1) as nat);
        assert(ats.take(n as int).drop_last() == ats.take(n - 1));
    }
}

proof fn lemma_digests_of(ats: Seq<ActionTraceModel>, n: nat)
    requires
        n <= ats.len(),
    ensures
        units::digests(ats, n).no_duplicates(),
        forall|i: int|
            0 <= i < n && (#[trigger] ats[i]).receipt is Some ==> units::digests(ats, n).contains(
                (ats[i].receipt->0).act_digest,
            ),
        forall|k: int|
            0 <= k < units::digests(ats, n).len() ==> exists|i: int|
                0 <= i < n && has_digest(ats[i], #[trigger] units::digests(ats, n)[k]) && forall|
                    j: int,
                    l: int,
                |
                    0 <= j <= i && k < l < units::digests(ats, n).len() ==> !has_digest(
                        #[trigger] ats[j],
                        #[trigger] units::digests(ats, n)[l],
                    ),
    decreases n,
{
    if n > 0 {
        let m = (n - 1) as nat;
        lemma_digests_of(ats, m);
        let before = units::digests(ats, m);
        let after = units::digests(ats, n);
        assert forall|i: int|
            0 <= i < n && (#[trigger] ats[i]).receipt is Some implies after.contains(
            (ats[i].receipt->0).act_digest,
        ) by {
            let d = (ats[i].receipt->0).act_digest;
            if before.contains(d) {
                let x = before.index_of(d);
                assert(after[x] == d);
            } else {
                assert(i == m);
                assert(after.last() == d);
            }
        }
        assert forall|k: int| 0 <= k < after.len() implies exists|i: int|
            0 <= i < n && has_digest(ats[i], #[trigger] after[k]) && forall|j: int, l: int|
                0 <= j <= i && k < l < after.len() ==> !has_digest(
                    #[trigger] ats[j],
                    #[trigger] after[l],
                ) by {
            if k < before.len() {
                assert(after[k] == before[k]);
                let i = choose|i: int|
                    0 <= i < m && has_digest(ats[i], before[k]) && forall|j: int, l: int|
                        0 <= j <= i && k < l < before.len() ==> !has_digest(
                            #[trigger] ats[j],
                            #[trigger] before[l],
                        );
                assert forall|j: int, l: int|
                    0 <= j <= i && k < l < after.len() implies !has_digest(
                    #[trigger] ats[j],
                    #[trigger] after[l],
                ) by {
                    if l < before.len() {
                        assert(after[l] == before[l]);
                    } else if has_digest(ats[j], after[l]) {
                        assert(before.contains((ats[j].receipt->0).act_digest));
                    }
                }
                assert(has_digest(ats[i], after[k]));
            } else {
                assert(has_digest(ats[m as int], after[k]));
            }
        }
    }
}

/// An executed transaction has one group for each action that was executed in
/// it: the group holds exactly the traces with the action's digest, in their
/// order; no two groups have the same digest; every trace with a receipt is in
/// a group; and the groups stand in the order in which their actions first
/// occur.
pub proof fn law_groups_of_a_transaction(trace: TransactionTraceModel)
    requires
        trace.status == 0,
    ensures
        ({
            let ats = trace.action_traces;
            let groups = units::groups_of(trace);
            &&& forall|k: int|
                0 <= k < groups.len() ==> (#[trigger] groups[k]).trace == trace && exists|
                    digest: Seq<char>,
                |
                    groups[k].members == ats.filter(
                        |at: ActionTraceModel| has_digest(at, digest),
                    ) && groups[k].members.len() > 0 && #[trigger] has_digest(
                        groups[k].members[0],
                        digest,
                    )
            &&& forall|i: int|
                0 <= i < ats.len() && (#[trigger] ats[i]).receipt is Some ==> exists|k: int|
                    0 <= k < groups.len() && (#[trigger] groups[k]).members.contains(ats[i])
            &&& forall|k: int, l: int|
                0 <= k < l < groups.len() ==> exists|i: int|
                    0 <= i < ats.len() && (#[trigger] groups[k]).members.contains(
                        #[trigger] ats[i],
                    ) && forall|j: int|
                        0 <= j <= i ==> !(#[trigger] groups[l]).members.contains(
                            #[trigger] ats[j],
                        )
        }),
{
    let ats = trace.action_traces;
    let found = units::digests(ats, ats.len());
    let groups = units::groups_of(trace);
    lemma_digests_of(ats, ats.len());
    assert(ats.take(ats.len() as int) == ats);
    assert forall|k: int, at: ActionTraceModel|
        0 <= k < groups.len() implies (#[trigger] groups[k]).members.contains(at) == (
    ats.contains(at) && #[trigger] has_digest(at, found[k])) by {
        let d = found[k];
        let f = |x: ActionTraceModel| has_digest(x, d);
        lemma_members_filter(ats, d, ats.len());
        broadcast use vstd::seq_lib::group_filter_ensures;

        let kept = ats.filter(f);
        if kept.contains(at) {
            let x = kept.index_of(at);
            assert(f(kept[x]));
            ats.lemma_filter_contains_rev(f, at);
        }
        if ats.contains(at) && f(at) {
            let x = ats.index_of(at);
            ats.lemma_filter_contains(f, x);
        }
    }
    assert forall|k: int| 0 <= k < groups.len() implies (#[trigger] groups[k]).trace == trace
        && exists|digest: Seq<char>|
        groups[k].members == ats.filter(|at: ActionTraceModel| has_digest(at, digest))
            && groups[k].members.len() > 0 && #[trigger] has_digest(
            groups[k].members[0],
            digest,
        ) by {
        let d = found[k];
        lemma_members_filter(ats, d, ats.len());
        let i = choose|i: int| 0 <= i < ats.len() && has_digest(ats[i], found[k]);
        assert(groups[k].members.contains(ats[i]) == (ats.contains(ats[i]) && has_digest(
            ats[i],
            found[k],
        )));
        assert(groups[k].members.len() > 0);
        let first = groups[k].members[0];
        assert(groups[k].members.contains(first) == (ats.contains(first) && has_digest(
            first,
            found[k],
        )));
        assert(has_digest(groups[k].members[0], d));
    }
    assert forall|i: int| 0 <= i < ats.len() && (#[trigger] ats[i]).receipt is Some implies exists|
        k: int,
    |
        0 <= k < groups.len() && (#[trigger] groups[k]).members.contains(ats[i]) by {
        let k = found.index_of((ats[i].receipt->0).act_digest);
        assert(has_digest(ats[i], found[k]));
        assert(groups[k].members.contains(ats[i]));
    }
    assert forall|k: int, l: int| 0 <= k < l < groups.len() implies exists|i: int|
        0 <= i < ats.len() && (#[trigger] groups[k]).members.contains(#[trigger] ats[i]) && forall|
            j: int,
        |
            0 <= j <= i ==> !(#[trigger] groups[l]).members.contains(#[trigger] ats[j]) by {
        let i = choose|i: int|
            0 <= i < ats.len() && has_digest(ats[i], found[k]) && forall|j: int, m: int|
                0 <= j <= i && k < m < found.len() ==> !has_digest(
                    #[trigger] ats[j],
                    #[trigger] found[m],
                );
        assert(has_digest(ats[i], found[k]));
        assert(groups[k].members.contains(ats[i]));
        assert forall|j: int| 0 <= j <= i implies !(#[trigger] groups[l]).members.contains(
            #[trigger] ats[j],
        ) by {
            assert(!has_digest(ats[j], found[l]));
        }
    }
}

/// A transaction that was not executed has no groups.
pub proof fn law_other_transactions_have_no_groups(trace: TransactionTraceModel)
    requires
        trace.status != 0,
    ensures
        units::groups_of(trace).len() == 0,
{
}

proof fn lemma_primary(group: Seq<ActionTraceModel>, from: nat)
    requires
        from <= group.len(),
    ensures
        ({
            let at = units::primary_from(group, from);
            &&& from <= at <= group.len()
            &&& forall|i: int|
                from <= i < at ==> (#[trigger] group[i]).receiver != group[i].act.account
            &&& at < group.len() ==> group[at as int].receiver == group[at as int].act.account
        }),
    decreases group.len() - from,
{
    if from < group.len() && group[from as int].receiver != group[from as int].act.account {
        lemma_primary(group, from + 1);
    }
}

/// The trace that stands for a group is one of it: the first that was
/// delivered to the account of the action itself, or the very first if none
/// was.
pub proof fn law_primary_of_a_group(group: Seq<ActionTraceModel>)
    requires
        group.len() > 0,
    ensures
        exists|k: int|
            0 <= k < group.len() && units::primary_of(group) == #[trigger] group[k] && (
            if group[k].receiver == group[k].act.account {
                forall|i: int|
                    0 <= i < k ==> (#[trigger] group[i]).receiver != group[i].act.account
            } else {
                k == 0 && forall|i: int|
                    0 <= i < group.len() ==> (#[trigger] group[i]).receiver
                        != group[i].act.account
            }),
{
    lemma_primary(group, 0);
    let at = units::primary_from(group, 0);
    if at < group.len() {
        assert(units::primary_of(group) == group[at as int]);
    } else {
        assert(units::primary_of(group) == group[0]);
    }
}

// ---------------------------------------------------------------------------
// The actions of a block
// ---------------------------------------------------------------------------

/// A block with only some traces.
pub open spec fn only_traces(traces: Seq<TransactionTraceModel>) -> DecodedBlockModel {
    DecodedBlockModel { this_block: None, header: None, traces, deltas: seq![] }
}

proof fn lemma_action_units_split(
    a: Seq<TransactionTraceModel>,
    b: Seq<TransactionTraceModel>,
    n: nat,
)
    requires
        n <= b.len(),
    ensures
        units::action_units(a + b, a.len() + n) == units::action_units(a, a.len())
            + units::action_units(b, n),
    decreases n,
{
    if n == 0 {
        lemma_action_units_prefix(a, b, a.len());
        assert(units::action_units(a, a.len()) + units::action_units(b, 0) == units::action_units(
            a,
            a.len(),
        ));
    } else {
        let m = (n - 1) as nat;
        lemma_action_units_split(a, b, m);
        assert((a + b)[a.len() + n - 1] == b[n - 1]);
        assert(((a.len() + n) - 1) as nat == a.len() + m);
        let groups = units::groups_of(b[n - 1]);
        let more = Seq::new(groups.len(), |i: int| UnitModel::Action(groups[i]));
        assert(units::action_units(a + b, a.len() + n) == units::action_units(a + b, a.len() + m)
            + more);
        assert(units::action_units(b, n) == units::action_units(b, m) + more);
        assert(units::action_units(a, a.len()) + units::action_units(b, m) + more
            =~= units::action_units(a, a.len()) + (units::action_units(b, m) + more));
    }
}

proof fn lemma_action_units_prefix(
    a: Seq<TransactionTraceModel>,
    b: Seq<TransactionTraceModel>,
    n: nat,
)
    requires
        n <= a.len(),
    ensures
        units::action_units(a + b, n) == units::action_units(a, n),
    decreases n,
{
    if n > 0 {
        lemma_action_units_prefix(a, b, (n - 1) as nat);
        assert((a + b)[n - 1] == a[n - 1]);
    }
}

/// The actions of a block are those of its transactions, one transaction after
/// the other: what is planned for some and then for more is what is planned
/// for all of them.
pub proof fn law_transactions_are_planned_in_turn(
    a: Seq<TransactionTraceModel>,
    b: Seq<TransactionTraceModel>,
)
    ensures
        units::units_of(only_traces(a + b)) == units::units_of(only_traces(a)) + units::units_of(
            only_traces(b),
        ),
{
    lemma_action_units_split(a, b, b.len());
}

/// A transaction is planned as its groups, in their order.
pub proof fn law_one_transaction_is_planned(trace: TransactionTraceModel)
    ensures
        ({
            let planned = units::units_of(only_traces(seq![trace]));
            let groups = units::groups_of(trace);
            &&& planned.len() == groups.len()
            &&& forall|k: int|
                0 <= k < groups.len() ==> #[trigger] planned[k] == UnitModel::Action(groups[k])
        }),
{
    reveal_with_fuel(units::action_units, 2);
}

proof fn lemma_rows_grow(
    table: Seq<char>,
    rows: Seq<TableDeltaRowModel>,
    n: nat,
    before: Planned,
)
    ensures
        before.units.is_prefix_of(units::with_rows(table, rows, n, before).units),
        forall|i: int|
            before.units.len() <= i < units::with_rows(table, rows, n, before).units.len()
                ==> #[trigger] units::with_rows(table, rows, n, before).units[i] !is Action,
    decreases n,
{
    if n > 0 {
        lemma_rows_grow(table, rows, (n - 1) as nat, before);
    }
}

proof fn lemma_deltas_grow(all: Seq<TableDeltaModel>, n: nat, m: nat, before: Planned)
    requires
        m <= n,
    ensures
        units::with_deltas(all, m, before).units.is_prefix_of(
            units::with_deltas(all, n, before).units,
        ),
        forall|i: int|
            units::with_deltas(all, m, before).units.len() <= i < units::with_deltas(
                all,
                n,
                before,
            ).units.len() ==> #[trigger] units::with_deltas(all, n, before).units[i] !is Action,
    decreases n,
{
    if m < n {
        lemma_deltas_grow(all, (n - 1) as nat, m, before);
        let d = all[n - 1];
        let middle = units::with_deltas(all, (n - 1) as nat, before);
        let after = units::with_deltas(all, n, before);
        lemma_rows_grow(d.name, d.rows, d.rows.len(), middle);
        assert forall|i: int|
            units::with_deltas(all, m, before).units.len() <= i
                < after.units.len() implies #[trigger] after.units[i] !is Action by {
            if i < middle.units.len() {
                assert(after.units[i] == middle.units[i]);
            }
        }
    }
}

/// A block is planned as the actions of its transactions, and behind them only
/// what its rows ask for.
pub proof fn law_actions_come_first(block: DecodedBlockModel)
    ensures
        ({
            let actions = units::units_of(only_traces(block.traces));
            let planned = units::units_of(block);
            &&& actions.is_prefix_of(planned)
            &&& forall|i: int|
                actions.len() <= i < planned.len() ==> #[trigger] planned[i] !is Action
        }),
{
    let actions = units::action_units(block.traces, block.traces.len());
    lemma_deltas_grow(
        block.deltas,
        block.deltas.len(),
        0,
        Planned { units: actions, rows: 0 },
    );
}

/// The traces of a transaction that are of the same action as one of them.
pub open spec fn same_action(trace: TransactionTraceModel, one: ActionTraceModel) -> Seq<
    ActionTraceModel,
> {
    let digest = (one.receipt->0).act_digest;
    trace.action_traces.filter(|at: ActionTraceModel| has_digest(at, digest))
}

/// No action is lost: every trace with a receipt in an executed transaction of
/// a block is in a planned action of that transaction, together with the other
/// traces of the same action.
pub proof fn law_every_executed_action_is_planned(block: DecodedBlockModel, t: int, i: int)
    requires
        0 <= t < block.traces.len(),
        block.traces[t].status == 0,
        0 <= i < block.traces[t].action_traces.len(),
        block.traces[t].action_traces[i].receipt is Some,
    ensures
        exists|u: int|
            0 <= u < units::units_of(block).len() && ((#[trigger] units::units_of(block)[u])
                matches UnitModel::Action(g) && g.trace == block.traces[t]
                && g.members.contains(block.traces[t].action_traces[i]) && g.members
                == same_action(block.traces[t], block.traces[t].action_traces[i])),
{
    broadcast use vstd::seq_lib::group_filter_ensures;

    let trace = block.traces[t];
    let before = block.traces.take(t);
    let after = block.traces.skip(t + 1);
    assert(block.traces == before + (seq![trace] + after));
    law_actions_come_first(block);
    law_transactions_are_planned_in_turn(before, seq![trace] + after);
    law_transactions_are_planned_in_turn(seq![trace], after);
    law_one_transaction_is_planned(trace);
    law_groups_of_a_transaction(trace);
    let groups = units::groups_of(trace);
    let k = choose|k: int|
        0 <= k < groups.len() && (#[trigger] groups[k]).members.contains(trace.action_traces[i]);
    let own = units::units_of(only_traces(seq![trace]));
    let start = units::units_of(only_traces(before)).len();
    let planned = units::units_of(block);
    assert(own[k] == UnitModel::Action(groups[k]));
    assert(units::units_of(only_traces(block.traces))[start + k] == own[k]);
    assert(planned[start + k] == own[k]);
    let own_digest = (trace.action_traces[i].receipt->0).act_digest;
    let digest = choose|digest: Seq<char>|
        groups[k].members == trace.action_traces.filter(
            |at: ActionTraceModel| has_digest(at, digest),
        ) && groups[k].members.len() > 0 && #[trigger] has_digest(groups[k].members[0], digest);
    let f = |at: ActionTraceModel| has_digest(at, digest);
    let j = groups[k].members.index_of(trace.action_traces[i]);
    assert(f(trace.action_traces.filter(f)[j]));
    assert(digest == own_digest);
}

proof fn lemma_actions_have_traces(traces: Seq<TransactionTraceModel>, n: nat, u: int)
    requires
        n <= traces.len(),
        0 <= u < units::action_units(traces, n).len(),
    ensures
        units::action_units(traces, n)[u] matches UnitModel::Action(g) && exists|t: int, k: int|
            0 <= t < n && 0 <= k < units::groups_of(traces[t]).len() && g
                == #[trigger] units::groups_of(traces[t])[k],
    decreases n,
{
    let before = units::action_units(traces, (n - 1) as nat);
    if n > 0 {
        if u < before.len() {
            lemma_actions_have_traces(traces, (n - 1) as nat, u);
        } else {
            let k = u - before.len();
            assert(units::groups_of(traces[n - 1])[k] == units::groups_of(traces[n - 1])[k]);
        }
    }
}

/// No action is made up: every planned action is a group of an executed
/// transaction of the block.
pub proof fn law_planned_actions_were_executed(block: DecodedBlockModel, u: int)
    requires
        0 <= u < units::units_of(block).len(),
        units::units_of(block)[u] is Action,
    ensures
        exists|t: int, k: int|
            0 <= t < block.traces.len() && block.traces[t].status == 0 && 0 <= k
                < units::groups_of(block.traces[t]).len() && units::units_of(block)[u]
                == UnitModel::Action(#[trigger] units::groups_of(block.traces[t])[k]),
{
    law_actions_come_first(block);
    let actions = units::action_units(block.traces, block.traces.len());
    assert(units::units_of(only_traces(block.traces)) == actions);
    assert(actions[u] == units::units_of(block)[u]);
    lemma_actions_have_traces(block.traces, block.traces.len(), u);
}

// ---------------------------------------------------------------------------
// The rows of a block
// ---------------------------------------------------------------------------

/// Whether a unit is what a row of a table asks for.
pub open spec fn is_asked_for(unit: UnitModel, table: Seq<char>, row: TableDeltaRowModel) -> bool {
    match unit {
        UnitModel::Action(_) => false,
        UnitModel::Account(a) => table == "account"@ && row.present && deltas::get_account_row(
            wire::at(row.data),
        ) == (a, deltas::get_account_row(wire::at(row.data)).1),
        UnitModel::Permission(p, present) => table == "permission"@ && present == row.present
            && deltas::get_permission_row(wire::at(row.data)).0 == p,
        UnitModel::Contract(r, present, _) => table == "contract_row"@ && present == row.present
            && deltas::get_contract_row(wire::at(row.data)).0 == r,
    }
}

/// Whether a row asks for something: it is of one of the tables that count, it
/// can be read, and if it is an account it was written.
pub open spec fn counts(table: Seq<char>, row: TableDeltaRowModel) -> bool {
    ||| table == "account"@ && row.present && deltas::get_account_row(
        wire::at(row.data),
    ).1.sound()
    ||| table == "permission"@ && deltas::get_permission_row(wire::at(row.data)).1.sound()
    ||| table == "contract_row"@ && deltas::get_contract_row(wire::at(row.data)).1.sound()
}

pub proof fn lemma_tables()
    ensures
        "account"@ != "permission"@,
        "account"@ != "contract_row"@,
        "permission"@ != "contract_row"@,
{
    reveal_strlit("account");
    reveal_strlit("permission");
    reveal_strlit("contract_row");
    assert("account"@.len() == 7);
    assert("permission"@.len() == 10);
    assert("contract_row"@.len() == 12);
}

/// A row that counts is planned once, behind what was planned before; one that
/// does not count changes nothing.
pub proof fn law_a_row_is_planned(table: Seq<char>, row: TableDeltaRowModel, before: Planned)
    ensures
        ({
            let after = units::with_row(table, row, before);
            if counts(table, row) {
                &&& after.units.len() == before.units.len() + 1
                &&& before.units.is_prefix_of(after.units)
                &&& is_asked_for(after.units.last(), table, row)
            } else {
                after == before
            }
        }),
{
    lemma_tables();
}

/// How many table rows are among the first `n` units.
pub open spec fn contracts(all: Seq<UnitModel>, n: nat) -> nat
    decreases n,
{
    if n == 0 {
        0
    } else {
        contracts(all, (n - 1) as nat) + if all[n - 1] is Contract {
            1nat
        } else {
            0nat
        }
    }
}

/// Whether each table row among some units has the number of those before it.
pub open spec fn counted(all: Seq<UnitModel>) -> bool {
    forall|i: int|
        0 <= i < all.len() ==> ((#[trigger] all[i]) matches UnitModel::Contract(_, _, k) ==> k
            == contracts(all, i as nat))
}

proof fn lemma_contracts_prefix(a: Seq<UnitModel>, b: Seq<UnitModel>, n: nat)
    requires
        n <= a.len() <= b.len(),
        forall|i: int| 0 <= i < n ==> a[i] == b[i],
    ensures
        contracts(a, n) == contracts(b, n),
    decreases n,
{
    if n > 0 {
        lemma_contracts_prefix(a, b, (n - 1) as nat);
    }
}

proof fn lemma_row_counted(table: Seq<char>, row: TableDeltaRowModel, before: Planned)
    requires
        counted(before.units),
        before.rows == contracts(before.units, before.units.len()),
    ensures
        counted(units::with_row(table, row, before).units),
        units::with_row(table, row, before).rows == contracts(
            units::with_row(table, row, before).units,
            units::with_row(table, row, before).units.len(),
        ),
{
    let after = units::with_row(table, row, before);
    assert forall|n: nat| n <= before.units.len() implies #[trigger] contracts(before.units, n)
        == contracts(after.units, n) by {
        lemma_contracts_prefix(before.units, after.units, n);
    }
    assert(contracts(before.units, before.units.len()) == contracts(
        after.units,
        before.units.len(),
    ));
    assert forall|i: int| 0 <= i < after.units.len() implies ((#[trigger] after.units[i]) matches
        UnitModel::Contract(_, _, k) ==> k == contracts(after.units, i as nat)) by {
        assert(contracts(before.units, i as nat) == contracts(before.units, i as nat));
        if i < before.units.len() {
            assert(after.units[i] == before.units[i]);
            assert(contracts(before.units, i as nat) == contracts(after.units, i as nat));
        }
    }
}

proof fn lemma_rows_counted(
    table: Seq<char>,
    rows: Seq<TableDeltaRowModel>,
    n: nat,
    before: Planned,
)
    requires
        counted(before.units),
        before.rows == contracts(before.units, before.units.len()),
    ensures
        counted(units::with_rows(table, rows, n, before).units),
        units::with_rows(table, rows, n, before).rows == contracts(
            units::with_rows(table, rows, n, before).units,
            units::with_rows(table, rows, n, before).units.len(),
        ),
    decreases n,
{
    if n > 0 {
        lemma_rows_counted(table, rows, (n - 1) as nat, before);
        lemma_row_counted(
            table,
            rows[n - 1],
            units::with_rows(table, rows, (n - 1) as nat, before),
        );
    }
}

proof fn lemma_deltas_counted(all: Seq<TableDeltaModel>, n: nat, before: Planned)
    requires
        counted(before.units),
        before.rows == contracts(before.units, before.units.len()),
    ensures
        counted(units::with_deltas(all, n, before).units),
        units::with_deltas(all, n, before).rows == contracts(
            units::with_deltas(all, n, before).units,
            units::with_deltas(all, n, before).units.len(),
        ),
    decreases n,
{
    if n > 0 {
        lemma_deltas_counted(all, (n - 1) as nat, before);
        let d = all[n - 1];
        lemma_rows_counted(
            d.name,
            d.rows,
            d.rows.len(),
            units::with_deltas(all, (n - 1) as nat, before),
        );
    }
}

proof fn lemma_no_contracts(all: Seq<UnitModel>, n: nat)
    requires
        n <= all.len(),
        forall|i: int| 0 <= i < n ==> (#[trigger] all[i]) is Action,
    ensures
        contracts(all, n) == 0,
    decreases n,
{
    if n > 0 {
        lemma_no_contracts(all, (n - 1) as nat);
    }
}

/// The table rows of a block are numbered from zero without a gap, in the order
/// in which they are planned.
pub proof fn law_rows_count_from_zero(block: DecodedBlockModel)
    ensures
        counted(units::units_of(block)),
{
    let actions = units::action_units(block.traces, block.traces.len());
    assert forall|i: int| 0 <= i < actions.len() implies (#[trigger] actions[i]) is Action by {
        lemma_actions_have_traces(block.traces, block.traces.len(), i);
    }
    lemma_no_contracts(actions, actions.len());
    lemma_deltas_counted(
        block.deltas,
        block.deltas.len(),
        Planned { units: actions, rows: 0 },
    );
}

proof fn lemma_row_found(
    table: Seq<char>,
    rows: Seq<TableDeltaRowModel>,
    n: nat,
    before: Planned,
    i: int,
)
    requires
        0 <= i < n <= rows.len(),
        counts(table, rows[i]),
    ensures
        exists|u: int|
            before.units.len() <= u < units::with_rows(table, rows, n, before).units.len()
                && is_asked_for(
                #[trigger] units::with_rows(table, rows, n, before).units[u],
                table,
                rows[i],
            ),
    decreases n,
{
    let middle = units::with_rows(table, rows, (n - 1) as nat, before);
    let after = units::with_rows(table, rows, n, before);
    law_a_row_is_planned(table, rows[n - 1], middle);
    lemma_rows_grow(table, rows, (n - 1) as nat, before);
    if i < n - 1 {
        lemma_row_found(table, rows, (n - 1) as nat, before, i);
        let u = choose|u: int|
            before.units.len() <= u < middle.units.len() && is_asked_for(
                #[trigger] middle.units[u],
                table,
                rows[i],
            );
        assert(after.units[u] == middle.units[u]);
    } else {
        assert(after.units[after.units.len() - 1] == after.units.last());
    }
}

/// No row is lost: every row of a block that counts is planned, with what it
/// says and whether it was written or removed.
pub proof fn law_every_row_is_planned(block: DecodedBlockModel, d: int, i: int)
    requires
        0 <= d < block.deltas.len(),
        0 <= i < block.deltas[d].rows.len(),
        counts(block.deltas[d].name, block.deltas[d].rows[i]),
    ensures
        exists|u: int|
            0 <= u < units::units_of(block).len() && is_asked_for(
                #[trigger] units::units_of(block)[u],
                block.deltas[d].name,
                block.deltas[d].rows[i],
            ),
{
    let start = Planned {
        units: units::action_units(block.traces, block.traces.len()),
        rows: 0,
    };
    let all = block.deltas;
    let before = units::with_deltas(all, d as nat, start);
    let after = units::with_deltas(all, (d + 1) as nat, start);
    lemma_row_found(all[d].name, all[d].rows, all[d].rows.len(), before, i);
    lemma_deltas_grow(all, all.len(), (d + 1) as nat, start);
    let u = choose|u: int|
        before.units.len() <= u < after.units.len() && is_asked_for(
            #[trigger] after.units[u],
            all[d].name,
            all[d].rows[i],
        );
    assert(units::units_of(block)[u] == after.units[u]);
}

proof fn lemma_row_source(
    table: Seq<char>,
    rows: Seq<TableDeltaRowModel>,
    n: nat,
    before: Planned,
    u: int,
)
    requires
        n <= rows.len(),
        before.units.len() <= u < units::with_rows(table, rows, n, before).units.len(),
    ensures
        exists|i: int|
            0 <= i < n && counts(table, #[trigger] rows[i]) && is_asked_for(
                units::with_rows(table, rows, n, before).units[u],
                table,
                rows[i],
            ),
    decreases n,
{
    if n > 0 {
        let middle = units::with_rows(table, rows, (n - 1) as nat, before);
        let after = units::with_rows(table, rows, n, before);
        law_a_row_is_planned(table, rows[n - 1], middle);
        if u < middle.units.len() {
            lemma_row_source(table, rows, (n - 1) as nat, before, u);
            assert(after.units[u] == middle.units[u]);
        } else {
            assert(after.units[u] == after.units.last());
        }
    }
}

proof fn lemma_delta_source(all: Seq<TableDeltaModel>, n: nat, before: Planned, u: int)
    requires
        n <= all.len(),
        before.units.len() <= u < units::with_deltas(all, n, before).units.len(),
    ensures
        exists|d: int, i: int|
            0 <= d < n && 0 <= i < all[d].rows.len() && counts(
                all[d].name,
                #[trigger] all[d].rows[i],
            ) && is_asked_for(
                units::with_deltas(all, n, before).units[u],
                all[d].name,
                all[d].rows[i],
            ),
    decreases n,
{
    if n > 0 {
        let middle = units::with_deltas(all, (n - 1) as nat, before);
        let d = all[n - 1];
        lemma_rows_grow(d.name, d.rows, d.rows.len(), middle);
        if u < middle.units.len() {
            lemma_delta_source(all, (n - 1) as nat, before, u);
        } else {
            lemma_row_source(d.name, d.rows, d.rows.len(), middle, u);
            let i = choose|i: int|
                0 <= i < d.rows.len() && counts(d.name, #[trigger] d.rows[i]) && is_asked_for(
                    units::with_deltas(all, n, before).units[u],
                    d.name,
                    d.rows[i],
                );
            assert(counts(all[n - 1].name, all[n - 1].rows[i]));
        }
    }
}

/// No row is made up: whatever is planned for a block and is no action is what
/// a row of the block asks for.
pub proof fn law_planned_rows_were_there(block: DecodedBlockModel, u: int)
    requires
        0 <= u < units::units_of(block).len(),
        units::units_of(block)[u] !is Action,
    ensures
        exists|d: int, i: int|
            0 <= d < block.deltas.len() && 0 <= i < block.deltas[d].rows.len() && counts(
                block.deltas[d].name,
                #[trigger] block.deltas[d].rows[i],
            ) && is_asked_for(
                units::units_of(block)[u],
                block.deltas[d].name,
                block.deltas[d].rows[i],
            ),
{
    let actions = units::action_units(block.traces, block.traces.len());
    let start = Planned { units: actions, rows: 0 };
    lemma_deltas_grow(block.deltas, block.deltas.len(), 0, start);
    if u < actions.len() {
        lemma_actions_have_traces(block.traces, block.traces.len(), u);
    }
    lemma_delta_source(block.deltas, block.deltas.len(), start, u);
}

/// Rows are planned in the order in which they stand: more deltas only add to
/// what is planned.
pub proof fn law_more_deltas_only_add(
    block: DecodedBlockModel,
    more: Seq<TableDeltaModel>,
)
    ensures
        units::units_of(block).is_prefix_of(
            units::units_of(DecodedBlockModel { deltas: block.deltas + more, ..block }),
        ),
{
    let start = Planned {
        units: units::action_units(block.traces, block.traces.len()),
        rows: 0,
    };
    lemma_deltas_same(block.deltas, more, block.deltas.len(), start);
    lemma_deltas_grow(
        block.deltas + more,
        (block.deltas + more).len(),
        block.deltas.len(),
        start,
    );
}

proof fn lemma_deltas_same(
    a: Seq<TableDeltaModel>,
    b: Seq<TableDeltaModel>,
    n: nat,
    before: Planned,
)
    requires
        n <= a.len(),
    ensures
        units::with_deltas(a + b, n, before) == units::with_deltas(a, n, before),
    decreases n,
{
    if n > 0 {
        lemma_deltas_same(a, b, (n - 1) as nat, before);
        assert((a + b)[n - 1] == a[n - 1]);
    }
}

} // verus!
