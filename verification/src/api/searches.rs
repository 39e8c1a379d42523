//! What the searches find: how a search engine reads their conditions, and
//! which documents meet those of each search.

use crate::antelope::name;
use crate::antelope::name::Name;
use crate::api::history;
use crate::api::history::{AbiSnapshotParamsModel, GetActionsParamsModel, GetDeltasParamsModel};
use crate::api::query;
use crate::api::state;
use crate::api::v1;
use crate::json;
use crate::json::{FieldsModel, JsonModel};
use crate::text;
use vstd::prelude::*;

verus! {

// ---------------------------------------------------------------------------
// Conditions
// ---------------------------------------------------------------------------

/// A document as a search engine sees it: the values that it has under each
/// field.
pub type Entry = spec_fn(Seq<char>) -> Set<JsonModel>;

/// Whether a value is at most another.
pub type Order = spec_fn(JsonModel, JsonModel) -> bool;

/// Whether a text starts with another.
pub open spec fn starts_with(s: Seq<char>, prefix: Seq<char>) -> bool {
    exists|rest: Seq<char>| s == #[trigger] (prefix + rest)
}

/// Whether a value is within bounds.
pub open spec fn is_within(v: JsonModel, bounds: FieldsModel, order: Order) -> bool {
    forall|i: int|
        0 <= i < bounds.len() ==> {
            &&& (#[trigger] bounds[i]).0 == "gte"@ ==> order(bounds[i].1, v)
            &&& bounds[i].0 == "lte"@ ==> order(v, bounds[i].1)
        }
}

/// Whether a document has a value within bounds under a field.
pub open spec fn has_within(
    doc: Entry,
    field: Seq<char>,
    bounds: FieldsModel,
    order: Order,
) -> bool {
    exists|v: JsonModel| #[trigger] doc(field).contains(v) && is_within(v, bounds, order)
}

/// Whether a document has a text under a field that starts with another.
pub open spec fn has_prefix(doc: Entry, field: Seq<char>, prefix: Seq<char>) -> bool {
    exists|s: Seq<char>| #[trigger]
        doc(field).contains(JsonModel::Str(s)) && starts_with(s, prefix)
}

/// The conditions that a combination lists under a name.
pub open spec fn listed(b: JsonModel, name: Seq<char>) -> Seq<JsonModel> {
    match json::field_of(b, name) {
        Some(JsonModel::Array(xs)) => xs,
        _ => seq![],
    }
}

/// Whether a document meets a condition: a term is a value that the document
/// has, a prefix is one of a text that it has, a range holds a value that it
/// has, and a combination is met if all of its `filter` and `must` conditions
/// are, and one of its `should` conditions if it lists any.
pub open spec fn meets(c: JsonModel, doc: Entry, order: Order, depth: nat) -> bool
    decreases depth,
{
    if depth == 0 {
        false
    } else {
        match (
            json::field_of(c, "term"@),
            json::field_of(c, "prefix"@),
            json::field_of(c, "range"@),
            json::field_of(c, "bool"@),
        ) {
            (Some(JsonModel::Object(f)), None, None, None) => f.len() == 1 && doc(
                f[0].0,
            ).contains(f[0].1),
            (None, Some(JsonModel::Object(f)), None, None) => f.len() == 1 && (f[0].1 matches
                JsonModel::Str(prefix) && has_prefix(doc, f[0].0, prefix)),
            (None, None, Some(JsonModel::Object(f)), None) => f.len() == 1 && (f[0].1 matches
                JsonModel::Object(bounds) && has_within(doc, f[0].0, bounds, order)),
            (None, None, None, Some(b)) => {
                &&& forall|i: int|
                    0 <= i < listed(b, "filter"@).len() ==> meets(
                        #[trigger] listed(b, "filter"@)[i],
                        doc,
                        order,
                        (depth - 1) as nat,
                    )
                &&& forall|i: int|
                    0 <= i < listed(b, "must"@).len() ==> meets(
                        #[trigger] listed(b, "must"@)[i],
                        doc,
                        order,
                        (depth - 1) as nat,
                    )
                &&& json::field_of(b, "should"@) is Some ==> exists|i: int|
                    0 <= i < listed(b, "should"@).len() && meets(
                        #[trigger] listed(b, "should"@)[i],
                        doc,
                        order,
                        (depth - 1) as nat,
                    )
            },
            _ => false,
        }
    }
}

/// Whether a document meets all of some conditions.
pub open spec fn meets_all(cs: Seq<JsonModel>, doc: Entry, order: Order, depth: nat) -> bool {
    forall|i: int| 0 <= i < cs.len() ==> meets(#[trigger] cs[i], doc, order, depth)
}

/// Whether a document meets one of some conditions.
pub open spec fn meets_one(cs: Seq<JsonModel>, doc: Entry, order: Order, depth: nat) -> bool {
    exists|i: int| 0 <= i < cs.len() && meets(#[trigger] cs[i], doc, order, depth)
}

proof fn lemma_combined(b: JsonModel, doc: Entry, order: Order, depth: nat)
    requires
        depth > 0,
    ensures
        meets(JsonModel::Object(seq![("bool"@, b)]), doc, order, depth) == {
            &&& meets_all(listed(b, "filter"@), doc, order, (depth - 1) as nat)
            &&& meets_all(listed(b, "must"@), doc, order, (depth - 1) as nat)
            &&& json::field_of(b, "should"@) is Some ==> meets_one(
                listed(b, "should"@),
                doc,
                order,
                (depth - 1) as nat,
            )
        },
{
    lemma_words();
    reveal_with_fuel(json::field_from, 3);
    let c = JsonModel::Object(seq![("bool"@, b)]);
    assert(json::field_of(c, "bool"@) == Some(b));
    assert(json::field_of(c, "term"@) is None);
    assert(json::field_of(c, "prefix"@) is None);
    assert(json::field_of(c, "range"@) is None);
}

/// Whether a document is found by a search.
pub open spec fn finds(search: JsonModel, doc: Entry, order: Order) -> bool {
    json::field_of(search, "query"@) matches Some(q) && meets(q, doc, order, 4)
}

proof fn lemma_words()
    ensures
        "term"@ != "prefix"@,
        "term"@ != "range"@,
        "term"@ != "bool"@,
        "prefix"@ != "range"@,
        "prefix"@ != "bool"@,
        "range"@ != "bool"@,
        "filter"@ != "must"@,
        "filter"@ != "should"@,
        "must"@ != "should"@,
        "minimum_should_match"@ != "filter"@,
        "minimum_should_match"@ != "must"@,
        "minimum_should_match"@ != "should"@,
        "gte"@ != "lte"@,
{
    reveal_strlit("term");
    assert("term"@.len() == 4);
    reveal_strlit("prefix");
    assert("prefix"@.len() == 6);
    reveal_strlit("range");
    assert("range"@.len() == 5);
    reveal_strlit("bool");
    assert("bool"@.len() == 4);
    reveal_strlit("filter");
    assert("filter"@.len() == 6);
    reveal_strlit("must");
    assert("must"@.len() == 4);
    reveal_strlit("should");
    assert("should"@.len() == 6);
    reveal_strlit("minimum_should_match");
    assert("minimum_should_match"@.len() == 20);
    reveal_strlit("gte");
    assert("gte"@.len() == 3);
    reveal_strlit("lte");
    assert("lte"@.len() == 3);
    assert("term"@[0] != "bool"@[0]);
    assert("term"@[0] != "must"@[0]);
    assert("prefix"@[0] != "filter"@[0]);
    assert("prefix"@[0] != "should"@[0]);
    assert("bool"@[0] != "must"@[0]);
    assert("filter"@[0] != "should"@[0]);
    assert("gte"@[0] != "lte"@[0]);
}

proof fn lemma_term(field: Seq<char>, value: JsonModel, doc: Entry, order: Order, depth: nat)
    requires
        depth > 0,
    ensures
        meets(query::term_of(field, value), doc, order, depth) == doc(field).contains(value),
{
    lemma_words();
    reveal_with_fuel(json::field_from, 3);
    assert(seq![(field, value)][0] == (field, value));
}

proof fn lemma_filtered(filters: Seq<JsonModel>, doc: Entry, order: Order, depth: nat)
    requires
        depth > 0,
    ensures
        meets(query::filtered_of(filters), doc, order, depth) == meets_all(
            filters,
            doc,
            order,
            (depth - 1) as nat,
        ),
{
    lemma_words();
    reveal_with_fuel(json::field_from, 3);
    let b = JsonModel::Object(seq![("filter"@, JsonModel::Array(filters))]);
    assert(json::field_of(b, "filter"@) == Some(JsonModel::Array(filters)));
    assert(json::field_of(b, "must"@) is None);
    assert(json::field_of(b, "should"@) is None);
    lemma_combined(b, doc, order, depth);
}

proof fn lemma_range(field: Seq<char>, bounds: FieldsModel, doc: Entry, order: Order, depth: nat)
    requires
        depth > 0,
        bounds.len() > 0,
    ensures
        query::range_of(field, bounds).len() == 1,
        meets(query::range_of(field, bounds)[0], doc, order, depth) == has_within(
            doc,
            field,
            bounds,
            order,
        ),
{
    lemma_words();
    reveal_with_fuel(json::field_from, 3);
    assert(seq![(field, JsonModel::Object(bounds))][0] == (field, JsonModel::Object(bounds)));
}

// ---------------------------------------------------------------------------
// Ranges
// ---------------------------------------------------------------------------

/// The block that a boundary names, if it is a number.
pub open spec fn block_named(value: Option<Seq<char>>) -> Option<nat> {
    match value {
        Some(s) => text::parsed_nat(s, 0xffff_ffff_ffff_ffff),
        None => None,
    }
}

/// The time that a boundary names, if it is no number.
pub open spec fn time_named(value: Option<Seq<char>>) -> Option<Seq<char>> {
    match value {
        Some(s) => if text::parsed_nat(s, 0xffff_ffff_ffff_ffff) is None {
            Some(s)
        } else {
            None
        },
        None => None,
    }
}

/// Whether a document lies between two boundaries: one that is a number bounds
/// its block, any other its time.
pub open spec fn lies_between(
    doc: Entry,
    order: Order,
    after: Option<Seq<char>>,
    before: Option<Seq<char>>,
) -> bool {
    &&& (block_named(after) is Some || block_named(before) is Some) ==> exists|v: JsonModel|
        {
            &&& #[trigger] doc("block_num"@).contains(v)
            &&& block_named(after) matches Some(n) ==> order(JsonModel::Int(n as int), v)
            &&& block_named(before) matches Some(n) ==> order(v, JsonModel::Int(n as int))
        }
    &&& (time_named(after) is Some || time_named(before) is Some) ==> exists|v: JsonModel|
        {
            &&& #[trigger] doc("@timestamp"@).contains(v)
            &&& time_named(after) matches Some(t) ==> order(JsonModel::Str(t), v)
            &&& time_named(before) matches Some(t) ==> order(v, JsonModel::Str(t))
        }
}

proof fn lemma_meets_both(
    a: Seq<JsonModel>,
    b: Seq<JsonModel>,
    doc: Entry,
    order: Order,
    depth: nat,
)
    ensures
        meets_all(a + b, doc, order, depth) == (meets_all(a, doc, order, depth) && meets_all(
            b,
            doc,
            order,
            depth,
        )),
{
    let c = a + b;
    if meets_all(c, doc, order, depth) {
        assert forall|i: int| 0 <= i < a.len() implies meets(
            #[trigger] a[i],
            doc,
            order,
            depth,
        ) by {
            assert(meets(c[i], doc, order, depth));
        }
        assert forall|i: int| 0 <= i < b.len() implies meets(
            #[trigger] b[i],
            doc,
            order,
            depth,
        ) by {
            assert(meets(c[i + a.len()], doc, order, depth));
        }
    }
    if meets_all(a, doc, order, depth) && meets_all(b, doc, order, depth) {
        assert forall|i: int| 0 <= i < c.len() implies meets(
            #[trigger] c[i],
            doc,
            order,
            depth,
        ) by {
            if i < a.len() {
                assert(c[i] == a[i]);
            } else {
                assert(c[i] == b[i - a.len()]);
            }
        }
    }
}

proof fn lemma_meets_one(c: JsonModel, doc: Entry, order: Order, depth: nat)
    ensures
        meets_all(seq![c], doc, order, depth) == meets(c, doc, order, depth),
{
    let cs = seq![c];
    assert(cs[0] == c);
    if meets_all(cs, doc, order, depth) {
        assert(meets(cs[0], doc, order, depth));
    }
}

proof fn lemma_meets_none(doc: Entry, order: Order, depth: nat)
    ensures
        meets_all(seq![], doc, order, depth),
{
}

/// The boundaries of a request are met exactly by the documents between them.
pub proof fn law_boundaries(
    after: Option<Seq<char>>,
    before: Option<Seq<char>>,
    doc: Entry,
    order: Order,
    depth: nat,
)
    requires
        depth > 0,
    ensures
        meets_all(query::range_filters_of(after, before), doc, order, depth) == lies_between(
            doc,
            order,
            after,
            before,
        ),
{
    lemma_words();
    let blocks = query::block_bound("gte"@, after) + query::block_bound("lte"@, before);
    let times = query::time_bound("gte"@, after) + query::time_bound("lte"@, before);
    lemma_meets_both(
        query::range_of("block_num"@, blocks),
        query::range_of("@timestamp"@, times),
        doc,
        order,
        depth,
    );
    lemma_bounds(
        "block_num"@,
        match block_named(after) {
            Some(n) => Some(JsonModel::Int(n as int)),
            None => None,
        },
        match block_named(before) {
            Some(n) => Some(JsonModel::Int(n as int)),
            None => None,
        },
        doc,
        order,
        depth,
    );
    lemma_bounds(
        "@timestamp"@,
        match time_named(after) {
            Some(t) => Some(JsonModel::Str(t)),
            None => None,
        },
        match time_named(before) {
            Some(t) => Some(JsonModel::Str(t)),
            None => None,
        },
        doc,
        order,
        depth,
    );
    let b1 = bounds_of(
        match block_named(after) {
            Some(n) => Some(JsonModel::Int(n as int)),
            None => None,
        },
        match block_named(before) {
            Some(n) => Some(JsonModel::Int(n as int)),
            None => None,
        },
    );
    let b2 = bounds_of(
        match time_named(after) {
            Some(t) => Some(JsonModel::Str(t)),
            None => None,
        },
        match time_named(before) {
            Some(t) => Some(JsonModel::Str(t)),
            None => None,
        },
    );
    assert(blocks =~= b1);
    assert(times =~= b2);
}

/// The bounds of a range.
spec fn bounds_of(low: Option<JsonModel>, high: Option<JsonModel>) -> FieldsModel {
    (match low {
        Some(v) => seq![("gte"@, v)],
        None => seq![],
    }) + (match high {
        Some(v) => seq![("lte"@, v)],
        None => seq![],
    })
}

proof fn lemma_bounds(
    field: Seq<char>,
    low: Option<JsonModel>,
    high: Option<JsonModel>,
    doc: Entry,
    order: Order,
    depth: nat,
)
    requires
        depth > 0,
    ensures
        meets_all(query::range_of(field, bounds_of(low, high)), doc, order, depth) == ((low is Some
            || high is Some) ==> exists|v: JsonModel|
            {
                &&& #[trigger] doc(field).contains(v)
                &&& low matches Some(l) ==> order(l, v)
                &&& high matches Some(h) ==> order(v, h)
            }),
{
    lemma_words();
    let bounds = bounds_of(low, high);
    assert forall|v: JsonModel| is_within(v, bounds, order) == ((low matches Some(l) ==> order(
        l,
        v,
    )) && (high matches Some(h) ==> order(v, h))) by {
        match (low, high) {
            (Some(l), Some(h)) => {
                assert(bounds[0] == ("gte"@, l));
                assert(bounds[1] == ("lte"@, h));
            },
            (Some(l), None) => {
                assert(bounds[0] == ("gte"@, l));
            },
            (None, Some(h)) => {
                assert(bounds[0] == ("lte"@, h));
            },
            (None, None) => {},
        }
    }
    if bounds.len() > 0 {
        lemma_range(field, bounds, doc, order, depth);
        let rs = query::range_of(field, bounds);
        assert(rs =~= seq![rs[0]]);
        lemma_meets_one(rs[0], doc, order, depth);
    }
}

// ---------------------------------------------------------------------------
// Actions
// ---------------------------------------------------------------------------

/// Whether a document is of an action that an entry `code:action` names, where
/// `*` is any.
pub open spec fn is_named(entry: Seq<char>, doc: Entry) -> bool {
    exists|code: Seq<char>, action: Seq<char>|
        {
            &&& entry == #[trigger] (code + seq![':'] + action)
            &&& !code.contains(':')
            &&& code != seq!['*'] ==> doc("act.account"@).contains(JsonModel::Str(code))
            &&& action != seq!['*'] ==> doc("act.name"@).contains(JsonModel::Str(action))
        }
}

/// Whether a document is of an action that a filter names: one of its entries,
/// which commas separate.
pub open spec fn passes(filter: Seq<char>, doc: Entry) -> bool {
    exists|i: int|
        0 <= i < text::pieces_of(filter, seq![',']).len() && is_named(
            #[trigger] text::pieces_of(filter, seq![','])[i],
            doc,
        )
}

pub proof fn lemma_same_split(a: Seq<char>, b: Seq<char>, x: Seq<char>, y: Seq<char>)
    requires
        a + seq![':'] + b == x + seq![':'] + y,
        !a.contains(':'),
        !x.contains(':'),
    ensures
        a == x,
        b == y,
{
    let s = a + seq![':'] + b;
    if a.len() < x.len() {
        assert(s[a.len() as int] == ':');
        assert((x + seq![':'] + y)[a.len() as int] == x[a.len() as int]);
        assert(x.contains(x[a.len() as int]));
    } else if x.len() < a.len() {
        assert((x + seq![':'] + y)[x.len() as int] == ':');
        assert(s[x.len() as int] == a[x.len() as int]);
        assert(a.contains(a[x.len() as int]));
    }
    assert(a =~= s.take(a.len() as int));
    assert(x =~= (x + seq![':'] + y).take(a.len() as int));
    assert(b =~= s.skip(a.len() as int + 1));
    assert(y =~= (x + seq![':'] + y).skip(a.len() as int + 1));
}

proof fn lemma_entry(entry: Seq<char>, doc: Entry, order: Order, depth: nat)
    requires
        depth > 1,
        text::split_text(entry, ":"@) is Some,
    ensures
        ({
            let (code, action) = text::split_text(entry, ":"@)->0;
            meets(history::entry_clause(code, action), doc, order, depth) == is_named(entry, doc)
        }),
{
    lemma_words();
    reveal_strlit(":");
    reveal_strlit("*");
    assert(":"@ =~= seq![':']);
    assert("*"@ =~= seq!['*']);
    text::law_split_at_char(entry, ':');
    let (code, action) = text::split_text(entry, ":"@)->0;
    let on_code = if code == "*"@ {
        seq![]
    } else {
        seq![query::term_of("act.account"@, JsonModel::Str(code))]
    };
    let on_action = if action == "*"@ {
        seq![]
    } else {
        seq![query::term_of("act.name"@, JsonModel::Str(action))]
    };
    let must = on_code + on_action;
    let b = JsonModel::Object(seq![("must"@, JsonModel::Array(must))]);
    let c = history::entry_clause(code, action);
    reveal_with_fuel(json::field_from, 3);
    assert(json::field_of(c, "bool"@) == Some(b));
    assert(json::field_of(b, "must"@) == Some(JsonModel::Array(must)));
    assert(json::field_of(b, "filter"@) is None);
    assert(json::field_of(b, "should"@) is None);
    let d = (depth - 1) as nat;
    lemma_combined(b, doc, order, depth);
    assert(meets(c, doc, order, depth) == meets_all(must, doc, order, d));
    lemma_meets_both(on_code, on_action, doc, order, d);
    lemma_meets_none(doc, order, d);
    lemma_meets_one(query::term_of("act.account"@, JsonModel::Str(code)), doc, order, d);
    lemma_meets_one(query::term_of("act.name"@, JsonModel::Str(action)), doc, order, d);
    lemma_term("act.account"@, JsonModel::Str(code), doc, order, d);
    lemma_term("act.name"@, JsonModel::Str(action), doc, order, d);
    if meets(c, doc, order, depth) {
        assert(entry == code + seq![':'] + action);
    }
    if is_named(entry, doc) {
        let (x, y) = choose|x: Seq<char>, y: Seq<char>|
            {
                &&& entry == #[trigger] (x + seq![':'] + y)
                &&& !x.contains(':')
                &&& x != seq!['*'] ==> doc("act.account"@).contains(JsonModel::Str(x))
                &&& y != seq!['*'] ==> doc("act.name"@).contains(JsonModel::Str(y))
            };
        lemma_same_split(code, action, x, y);
    }
}

proof fn lemma_entries(entries: Seq<Seq<char>>, n: nat)
    requires
        n <= entries.len(),
    ensures
        match history::entry_clauses(entries, n) {
            Ok(cs) => cs.len() == n && forall|i: int|
                0 <= i < n ==> text::split_text(#[trigger] entries[i], ":"@) is Some && cs[i]
                    == history::entry_clause(
                    (text::split_text(entries[i], ":"@)->0).0,
                    (text::split_text(entries[i], ":"@)->0).1,
                ),
            Err(e) => exists|i: int|
                0 <= i < n && text::split_text(#[trigger] entries[i], ":"@) is None,
        },
    decreases n,
{
    if n > 0 {
        lemma_entries(entries, (n - 1) as nat);
    }
}

/// A filter is accepted exactly if each of its entries has a colon, and is met
/// exactly by the actions that it names.
pub proof fn law_filters(filter: Seq<char>, doc: Entry, order: Order)
    ensures
        history::filter_clause_of(filter) is Ok <==> forall|i: int|
            0 <= i < text::pieces_of(filter, seq![',']).len() ==> (
            #[trigger] text::pieces_of(filter, seq![','])[i]).contains(':'),
        history::filter_clause_of(filter) matches Ok(c) ==> meets(c, doc, order, 3) == passes(
            filter,
            doc,
        ),
        history::filter_clause_of(filter) matches Err(e) ==> e.status == 400,
{
    lemma_words();
    reveal_strlit(",");
    reveal_strlit(":");
    assert(","@ =~= seq![',']);
    assert(":"@ =~= seq![':']);
    let entries = text::pieces_of(filter, seq![',']);
    lemma_entries(entries, entries.len());
    assert forall|i: int| 0 <= i < entries.len() implies (text::split_text(
        #[trigger] entries[i],
        ":"@,
    ) is Some) == entries[i].contains(':') by {
        text::law_split_at_char(entries[i], ':');
        if let Some((a, b)) = text::split_text(entries[i], seq![':']) {
            assert(entries[i][a.len() as int] == ':');
        }
    }
    match history::entry_clauses(entries, entries.len()) {
        Ok(cs) => {
            let c = history::filter_clause_of(filter)->Ok_0;
            let b = JsonModel::Object(
                seq![
                    ("should"@, JsonModel::Array(cs)),
                    ("minimum_should_match"@, JsonModel::Int(1)),
                ],
            );
            reveal_with_fuel(json::field_from, 4);
            assert(json::field_of(c, "bool"@) == Some(b));
            assert(json::field_of(b, "should"@) == Some(JsonModel::Array(cs)));
            assert(json::field_of(b, "filter"@) is None);
            assert(json::field_of(b, "must"@) is None);
            lemma_combined(b, doc, order, 3);
            assert(meets(c, doc, order, 3) == meets_one(cs, doc, order, 2));
            assert forall|i: int| 0 <= i < cs.len() implies meets(
                #[trigger] cs[i],
                doc,
                order,
                2,
            ) == is_named(entries[i], doc) by {
                assert(text::split_text(entries[i], ":"@) is Some);
                lemma_entry(entries[i], doc, order, 2);
            }
            if passes(filter, doc) {
                let i = choose|i: int| 0 <= i < entries.len() && is_named(
                    #[trigger] entries[i],
                    doc,
                );
                assert(meets(cs[i], doc, order, 2));
            }
            if meets(c, doc, order, 3) {
                let i = choose|i: int|
                    0 <= i < cs.len() && meets(#[trigger] cs[i], doc, order, 2);
                assert(is_named(entries[i], doc));
            }
        },
        Err(e) => {},
    }
}

proof fn lemma_search_words()
    ensures
        "track_total_hits"@ != "query"@,
        "from"@ != "query"@,
        "size"@ != "query"@,
        "sort"@ != "query"@,
        "track_total_hits"@ != "size"@,
        "track_total_hits"@ != "from"@,
        "track_total_hits"@ != "sort"@,
        "from"@ != "size"@,
        "from"@ != "sort"@,
        "size"@ != "sort"@,
{
    reveal_strlit("track_total_hits");
    assert("track_total_hits"@.len() == 16);
    reveal_strlit("from");
    assert("from"@.len() == 4);
    reveal_strlit("size");
    assert("size"@.len() == 4);
    reveal_strlit("sort");
    assert("sort"@.len() == 4);
    reveal_strlit("query");
    assert("query"@.len() == 5);
    assert("from"@[0] != "size"@[0]);
    assert("from"@[0] != "sort"@[0]);
    assert("size"@[1] != "sort"@[1]);
}

/// The order that is asked for: newest first unless `asc` is.
pub open spec fn order_asked(sort: Option<Seq<char>>) -> Option<Seq<char>> {
    match sort {
        None => Some("desc"@),
        Some(s) => if s == "desc"@ || s == "asc"@ {
            Some(s)
        } else {
            None
        },
    }
}

/// A search is in the order of one field.
pub open spec fn in_order(search: JsonModel, field: Seq<char>, order: Seq<char>) -> bool {
    json::field_of(search, "sort"@) matches Some(JsonModel::Array(xs)) && xs.len() == 1 && xs[0]
        == JsonModel::Object(
        seq![(field, JsonModel::Object(seq![("order"@, JsonModel::Str(order))]))],
    )
}

/// A request for actions is refused exactly if an entry of its filter has no
/// colon or its order is unknown. Else its search finds exactly the actions
/// that the account was notified of, that the filter names and that lie
/// between the boundaries, each if it is given; in the order that is asked for,
/// as many as are asked for but no more than the limit, behind as many as are
/// to be passed over.
#[verifier::rlimit(40)]
pub proof fn law_actions_search(
    p: GetActionsParamsModel,
    max_limit: usize,
    doc: Entry,
    order: Order,
)
    ensures
        history::actions_query_of(p, max_limit) is Ok <==> order_asked(p.sort) is Some && (
        p.filter matches Some(f) ==> forall|i: int|
            0 <= i < text::pieces_of(f, seq![',']).len() ==> (
            #[trigger] text::pieces_of(f, seq![','])[i]).contains(':')),
        history::actions_query_of(p, max_limit) matches Err(e) ==> e.status == 400,
        history::actions_query_of(p, max_limit) matches Ok(search) ==> {
            &&& finds(search, doc, order) == {
                &&& p.account matches Some(a) ==> doc("notified"@).contains(JsonModel::Str(a))
                &&& p.filter matches Some(f) ==> passes(f, doc)
                &&& lies_between(doc, order, p.after, p.before)
            }
            &&& in_order(search, "global_sequence"@, order_asked(p.sort)->0)
            &&& json::field_of(search, "size"@) matches Some(JsonModel::Int(n)) && n <= max_limit
                && (n == max_limit || n == match p.limit {
                Some(l) => l as int,
                None => 100,
            }) && n <= match p.limit {
                Some(l) => l as int,
                None => 100,
            }
            &&& json::field_of(search, "from"@) == Some(
                JsonModel::Int(
                    match p.skip {
                        Some(n) => n as int,
                        None => 0,
                    },
                ),
            )
            &&& json::field_of(search, "track_total_hits"@) == Some(
                if p.track == Some("true"@) {
                    JsonModel::Bool(true)
                } else {
                    JsonModel::Int(10000)
                },
            )
        },
{
    lemma_search_words();
    reveal_with_fuel(json::field_from, 7);
    reveal_strlit("asc");
    reveal_strlit("desc");
    let first = history::account_filters(p.account);
    let ranges = query::range_filters_of(p.after, p.before);
    law_boundaries(p.after, p.before, doc, order, 3);
    if let Some(a) = p.account {
        lemma_term("notified"@, JsonModel::Str(a), doc, order, 3);
        lemma_meets_one(query::term_of("notified"@, JsonModel::Str(a)), doc, order, 3);
    }
    lemma_meets_none(doc, order, 3);
    match p.filter {
        Some(f) => {
            law_filters(f, doc, order);
            if let Ok(clause) = history::filter_clause_of(f) {
                let filters = first.push(clause) + ranges;
                assert(first.push(clause) =~= first + seq![clause]);
                lemma_meets_both(first, seq![clause], doc, order, 3);
                lemma_meets_one(clause, doc, order, 3);
                lemma_meets_both(first.push(clause), ranges, doc, order, 3);
                lemma_filtered(filters, doc, order, 4);
            }
        },
        None => {
            let filters = first + ranges;
            lemma_meets_both(first, ranges, doc, order, 3);
            lemma_filtered(filters, doc, order, 4);
        },
    }
}

/// With the account that is asked for, every action that is found has that
/// account among those notified, whatever else is asked.
pub proof fn law_account_is_notified(
    p: GetActionsParamsModel,
    max_limit: usize,
    doc: Entry,
    order: Order,
)
    ensures
        p.account is Some && (history::actions_query_of(p, max_limit) matches Ok(search) && finds(
            search,
            doc,
            order,
        )) ==> doc("notified"@).contains(JsonModel::Str(p.account->0)),
{
    law_actions_search(p, max_limit, doc, order);
}

/// The search for a transaction finds exactly its actions, oldest first.
pub proof fn law_transaction_search(id: Seq<char>, doc: Entry, order: Order)
    ensures
        ({
            let search = JsonModel::Object(history::transaction_search(id));
            &&& finds(search, doc, order) == {
                &&& doc("trx_id"@).contains(JsonModel::Str(id))
            }
            &&& in_order(search, "global_sequence"@, "asc"@)
            &&& json::field_of(search, "size"@) == Some(JsonModel::Int(1000))
        }),
{
    lemma_search_words();
    lemma_words();
    reveal_with_fuel(json::field_from, 7);
    lemma_term("trx_id"@, JsonModel::Str(id), doc, order, 3);
    lemma_meets_one(query::term_of("trx_id"@, JsonModel::Str(id)), doc, order, 3);
    lemma_filtered(seq![query::term_of("trx_id"@, JsonModel::Str(id))], doc, order, 4);
}

/// The search by a key finds exactly the permissions that the key is in.
pub proof fn law_key_search(key: Seq<char>, doc: Entry, order: Order)
    ensures
        ({
            let search = JsonModel::Object(state::key_search(key));
            &&& finds(search, doc, order) == {
                &&& doc("keys"@).contains(JsonModel::Str(key))
            }
            &&& in_order(search, "owner"@, "asc"@)
            &&& json::field_of(search, "size"@) == Some(JsonModel::Int(1000))
        }),
{
    lemma_search_words();
    lemma_words();
    reveal_with_fuel(json::field_from, 7);
    lemma_term("keys"@, JsonModel::Str(key), doc, order, 3);
    lemma_meets_one(query::term_of("keys"@, JsonModel::Str(key)), doc, order, 3);
    lemma_filtered(seq![query::term_of("keys"@, JsonModel::Str(key))], doc, order, 4);
}

/// The search for balances finds exactly those that an account holds, the
/// largest first.
pub proof fn law_tokens_search(account: Seq<char>, doc: Entry, order: Order)
    ensures
        ({
            let search = JsonModel::Object(state::tokens_search(account));
            &&& finds(search, doc, order) == {
                &&& doc("scope"@).contains(JsonModel::Str(account))
            }
            &&& in_order(search, "amount"@, "desc"@)
            &&& json::field_of(search, "size"@) == Some(JsonModel::Int(1000))
        }),
{
    lemma_search_words();
    lemma_words();
    reveal_with_fuel(json::field_from, 7);
    lemma_term("scope"@, JsonModel::Str(account), doc, order, 3);
    lemma_meets_one(query::term_of("scope"@, JsonModel::Str(account)), doc, order, 3);
    lemma_filtered(seq![query::term_of("scope"@, JsonModel::Str(account))], doc, order, 4);
}

/// The search for an account's actions finds exactly those that it was notified
/// of, newest first.
pub proof fn law_account_actions_search(account: Seq<char>, doc: Entry, order: Order)
    ensures
        ({
            let search = JsonModel::Object(state::account_actions_search(account));
            &&& finds(search, doc, order) == {
                &&& doc("notified"@).contains(JsonModel::Str(account))
            }
            &&& in_order(search, "global_sequence"@, "desc"@)
            &&& json::field_of(search, "size"@) == Some(JsonModel::Int(20))
        }),
{
    lemma_search_words();
    lemma_words();
    reveal_with_fuel(json::field_from, 7);
    lemma_term("notified"@, JsonModel::Str(account), doc, order, 3);
    lemma_meets_one(query::term_of("notified"@, JsonModel::Str(account)), doc, order, 3);
    lemma_filtered(seq![query::term_of("notified"@, JsonModel::Str(account))], doc, order, 4);
}

/// The search for an account's permissions finds exactly its own.
pub proof fn law_account_permissions_search(account: Seq<char>, doc: Entry, order: Order)
    ensures
        ({
            let search = JsonModel::Object(state::account_permissions_search(account));
            &&& finds(search, doc, order) == {
                &&& doc("owner"@).contains(JsonModel::Str(account))
            }
            &&& json::field_of(search, "size"@) == Some(JsonModel::Int(100))
        }),
{
    lemma_search_words();
    lemma_words();
    reveal_with_fuel(json::field_from, 7);
    lemma_term("owner"@, JsonModel::Str(account), doc, order, 3);
    lemma_meets_one(query::term_of("owner"@, JsonModel::Str(account)), doc, order, 3);
    lemma_filtered(seq![query::term_of("owner"@, JsonModel::Str(account))], doc, order, 4);
}

/// The search for a window of an account's actions finds exactly those that it
/// was notified of, in the order and the place of the window.
pub proof fn law_v1_actions_search(account: Seq<char>, w: v1::Window, doc: Entry, order: Order)
    ensures
        ({
            let search = JsonModel::Object(v1::actions_search(account, w));
            &&& finds(search, doc, order) == {
                &&& doc("notified"@).contains(JsonModel::Str(account))
            }
            &&& in_order(search, "global_sequence"@, if w.newest_first {
                "desc"@
            } else {
                "asc"@
            })
            &&& json::field_of(search, "size"@) == Some(JsonModel::Int(w.size as int))
            &&& json::field_of(search, "from"@) == Some(JsonModel::Int(w.from as int))
        }),
{
    lemma_search_words();
    lemma_words();
    reveal_with_fuel(json::field_from, 7);
    lemma_term("notified"@, JsonModel::Str(account), doc, order, 3);
    lemma_meets_one(query::term_of("notified"@, JsonModel::Str(account)), doc, order, 3);
    lemma_filtered(seq![query::term_of("notified"@, JsonModel::Str(account))], doc, order, 4);
}

/// The search for created accounts finds exactly the actions by which an
/// account created others, newest first.
pub proof fn law_created_search(account: Seq<char>, doc: Entry, order: Order)
    ensures
        ({
            let search = JsonModel::Object(history::created_search(account));
            &&& finds(search, doc, order) == {
                &&& doc("act.name"@).contains(JsonModel::Str("newaccount"@))
                &&& doc("act.data.creator.keyword"@).contains(JsonModel::Str(account))
            }
            &&& in_order(search, "global_sequence"@, "desc"@)
            &&& json::field_of(search, "size"@) == Some(JsonModel::Int(100))
        }),
{
    lemma_search_words();
    lemma_words();
    reveal_with_fuel(json::field_from, 7);
    let created = query::term_of("act.name"@, JsonModel::Str("newaccount"@));
    let by = query::term_of("act.data.creator.keyword"@, JsonModel::Str(account));
    lemma_term("act.name"@, JsonModel::Str("newaccount"@), doc, order, 3);
    lemma_term("act.data.creator.keyword"@, JsonModel::Str(account), doc, order, 3);
    lemma_meets_one(created, doc, order, 3);
    lemma_meets_one(by, doc, order, 3);
    assert(seq![created, by] =~= seq![created] + seq![by]);
    lemma_meets_both(seq![created], seq![by], doc, order, 3);
    lemma_filtered(seq![created, by], doc, order, 4);
}

/// The search for a creator finds exactly the actions by which an account was
/// created, under either name of the field, oldest first.
pub proof fn law_creator_search(account: Seq<char>, doc: Entry, order: Order)
    ensures
        ({
            let search = JsonModel::Object(history::creator_search(account));
            &&& finds(search, doc, order) == {
                &&& doc("act.name"@).contains(JsonModel::Str("newaccount"@))
                &&& {
                    ||| doc("act.data.newact.keyword"@).contains(JsonModel::Str(account))
                    ||| doc("act.data.name.keyword"@).contains(JsonModel::Str(account))
                }
            }
            &&& in_order(search, "global_sequence"@, "asc"@)
            &&& json::field_of(search, "size"@) == Some(JsonModel::Int(1))
        }),
{
    lemma_search_words();
    lemma_words();
    reveal_with_fuel(json::field_from, 7);
    let b = JsonModel::Object(history::creator_filter(account));
    let q = JsonModel::Object(seq![("bool"@, b)]);
    let created = query::term_of("act.name"@, JsonModel::Str("newaccount"@));
    let x = query::term_of("act.data.newact.keyword"@, JsonModel::Str(account));
    let y = query::term_of("act.data.name.keyword"@, JsonModel::Str(account));
    let search = JsonModel::Object(history::creator_search(account));
    assert(json::field_of(search, "query"@) == Some(q));
    assert(json::field_of(q, "bool"@) == Some(b));
    assert(json::field_of(b, "filter"@) == Some(JsonModel::Array(seq![created])));
    assert(json::field_of(b, "should"@) == Some(JsonModel::Array(seq![x, y])));
    assert(json::field_of(b, "must"@) is None);
    lemma_term("act.name"@, JsonModel::Str("newaccount"@), doc, order, 3);
    lemma_term("act.data.newact.keyword"@, JsonModel::Str(account), doc, order, 3);
    lemma_term("act.data.name.keyword"@, JsonModel::Str(account), doc, order, 3);
    lemma_meets_one(created, doc, order, 3);
    lemma_combined(b, doc, order, 4);
    let should = seq![x, y];
    assert(should[0] == x && should[1] == y);
    assert(
        meets(q, doc, order, 4) == (
            meets(created, doc, order, 3) && meets_one(should, doc, order, 3)
        )
    );
    if meets(x, doc, order, 3) {
        assert(meets(should[0], doc, order, 3));
    }
    if meets(y, doc, order, 3) {
        assert(meets(should[1], doc, order, 3));
    }
}

proof fn lemma_optional_term(
    field: Seq<char>,
    value: Option<Seq<char>>,
    doc: Entry,
    order: Order,
)
    ensures
        meets_all(history::optional_term(field, value), doc, order, 3) == (value matches Some(v)
            ==> doc(field).contains(JsonModel::Str(v))),
{
    if let Some(v) = value {
        lemma_term(field, JsonModel::Str(v), doc, order, 3);
        lemma_meets_one(query::term_of(field, JsonModel::Str(v)), doc, order, 3);
    }
}

/// The search for table rows finds exactly those with the contract, scope,
/// table, payer and presence that are asked for, each if it is given, between
/// the boundaries; newest first unless `asc` is asked for.
#[verifier::rlimit(40)]
pub proof fn law_deltas_search(
    p: GetDeltasParamsModel,
    max_limit: usize,
    doc: Entry,
    order: Order,
)
    ensures
        ({
            let search = JsonModel::Object(history::deltas_query_of(p, max_limit));
            &&& finds(search, doc, order) == {
                &&& p.code matches Some(v) ==> doc("code"@).contains(JsonModel::Str(v))
                &&& p.scope matches Some(v) ==> doc("scope"@).contains(JsonModel::Str(v))
                &&& p.table matches Some(v) ==> doc("table"@).contains(JsonModel::Str(v))
                &&& p.payer matches Some(v) ==> doc("payer"@).contains(JsonModel::Str(v))
                &&& p.present matches Some(v) ==> doc("present"@).contains(JsonModel::Bool(v))
                &&& lies_between(doc, order, p.after, p.before)
            }
            &&& in_order(
                search,
                "block_num"@,
                if p.sort == Some("asc"@) {
                    "asc"@
                } else {
                    "desc"@
                },
            )
            &&& json::field_of(search, "size"@) matches Some(JsonModel::Int(n)) && n <= max_limit
                && (n == max_limit || n == match p.limit {
                Some(l) => l as int,
                None => 100,
            }) && n <= match p.limit {
                Some(l) => l as int,
                None => 100,
            }
            &&& json::field_of(search, "from"@) == Some(
                JsonModel::Int(
                    match p.skip {
                        Some(n) => n as int,
                        None => 0,
                    },
                ),
            )
        }),
{
    lemma_search_words();
    reveal_with_fuel(json::field_from, 7);
    let a = history::optional_term("code"@, p.code);
    let b = history::optional_term("scope"@, p.scope);
    let c = history::optional_term("table"@, p.table);
    let d = history::optional_term("payer"@, p.payer);
    let e = match p.present {
        Some(v) => seq![query::term_of("present"@, JsonModel::Bool(v))],
        None => seq![],
    };
    let r = query::range_filters_of(p.after, p.before);
    lemma_optional_term("code"@, p.code, doc, order);
    lemma_optional_term("scope"@, p.scope, doc, order);
    lemma_optional_term("table"@, p.table, doc, order);
    lemma_optional_term("payer"@, p.payer, doc, order);
    lemma_meets_none(doc, order, 3);
    if let Some(v) = p.present {
        lemma_term("present"@, JsonModel::Bool(v), doc, order, 3);
        lemma_meets_one(query::term_of("present"@, JsonModel::Bool(v)), doc, order, 3);
    }
    law_boundaries(p.after, p.before, doc, order, 3);
    lemma_meets_both(a, b, doc, order, 3);
    lemma_meets_both(a + b, c, doc, order, 3);
    lemma_meets_both(a + b + c, d, doc, order, 3);
    lemma_meets_both(a + b + c + d, e, doc, order, 3);
    lemma_meets_both(a + b + c + d + e, r, doc, order, 3);
    lemma_filtered(history::delta_filters(p), doc, order, 4);
}

/// The search for an ABI finds exactly those of a contract, up to a block if
/// one is given, the latest first.
pub proof fn law_snapshot_search(p: AbiSnapshotParamsModel, doc: Entry, order: Order)
    ensures
        ({
            let search = JsonModel::Object(history::snapshot_query_of(p));
            &&& finds(search, doc, order) == {
                &&& doc("account"@).contains(JsonModel::Str(p.contract))
                &&& p.block matches Some(b) ==> exists|v: JsonModel| #[trigger]
                    doc("block_num"@).contains(v) && order(v, JsonModel::Int(b as int))
            }
            &&& in_order(search, "block_num"@, "desc"@)
            &&& json::field_of(search, "size"@) == Some(JsonModel::Int(1))
        }),
{
    lemma_search_words();
    lemma_words();
    reveal_with_fuel(json::field_from, 7);
    let own = query::term_of("account"@, JsonModel::Str(p.contract));
    lemma_term("account"@, JsonModel::Str(p.contract), doc, order, 3);
    lemma_meets_one(own, doc, order, 3);
    lemma_filtered(history::snapshot_filters(p), doc, order, 4);
    if let Some(b) = p.block {
        let bounds = seq![("lte"@, JsonModel::Int(b as int))];
        let high = Some(JsonModel::Int(b as int));
        assert(bounds_of(None, high) =~= bounds);
        lemma_bounds("block_num"@, None, high, doc, order, 3);
        lemma_meets_both(seq![own], query::range_of("block_num"@, bounds), doc, order, 3);
    }
}

// ---------------------------------------------------------------------------
// Controlled accounts
// ---------------------------------------------------------------------------

/// The search for controlled accounts finds exactly the permissions that list
/// an authority of the account.
pub proof fn law_controlled_search(account: Seq<char>, doc: Entry, order: Order)
    ensures
        ({
            let search = JsonModel::Object(v1::controlled_search(account));
            &&& finds(search, doc, order) == has_prefix(
                doc,
                "accounts"@,
                account + seq!['@'],
            )
            &&& in_order(search, "owner"@, "asc"@)
            &&& json::field_of(search, "size"@) == Some(JsonModel::Int(1000))
        }),
{
    lemma_search_words();
    lemma_words();
    reveal_with_fuel(json::field_from, 7);
    reveal_strlit("@");
    assert("@"@ =~= seq!['@']);
    let f = seq![("accounts"@, JsonModel::Str(account + "@"@))];
    let c = JsonModel::Object(seq![("prefix"@, JsonModel::Object(f))]);
    assert(f[0] == ("accounts"@, JsonModel::Str(account + "@"@)));
    assert(json::field_of(c, "prefix"@) == Some(JsonModel::Object(f)));
    assert(json::field_of(c, "term"@) is None);
    assert(json::field_of(c, "range"@) is None);
    assert(json::field_of(c, "bool"@) is None);
    lemma_meets_one(c, doc, order, 3);
    lemma_filtered(seq![c], doc, order, 4);
}

proof fn lemma_no_at(n: Name)
    ensures
        !name::name_text(n.0).contains('@'),
{
    name::law_name_reads_back(n.0);
    let s = name::name_text(n.0);
    if s.contains('@') {
        let i = s.index_of('@');
        assert(name::is_name_char(s[i]));
    }
}

/// An authority `actor@permission` is one of an account exactly if the account
/// is the actor: the start that a search for controlled accounts asks for
/// tells accounts apart.
pub proof fn law_authorities_start_with_their_actor(actor: Name, permission: Name, account: Name)
    ensures
        starts_with(
            name::name_text(actor.0) + seq!['@'] + name::name_text(permission.0),
            name::name_text(account.0) + seq!['@'],
        ) <==> actor == account,
{
    let a = name::name_text(actor.0);
    let b = name::name_text(account.0);
    let s = a + seq!['@'] + name::name_text(permission.0);
    lemma_no_at(actor);
    lemma_no_at(account);
    if actor == account {
        assert(s == (b + seq!['@']) + name::name_text(permission.0));
    }
    if starts_with(s, b + seq!['@']) {
        let rest = choose|rest: Seq<char>| s == #[trigger] ((b + seq!['@']) + rest);
        let t = (b + seq!['@']) + rest;
        if a.len() < b.len() {
            assert(s[a.len() as int] == '@');
            assert(t[a.len() as int] == b[a.len() as int]);
            assert(b.contains(b[a.len() as int]));
        } else if b.len() < a.len() {
            assert(t[b.len() as int] == '@');
            assert(s[b.len() as int] == a[b.len() as int]);
            assert(a.contains(a[b.len() as int]));
        }
        assert(a =~= s.take(a.len() as int));
        assert(b =~= t.take(a.len() as int));
        name::law_name_reads_back(actor.0);
        name::law_name_reads_back(account.0);
    }
}

} // verus!
