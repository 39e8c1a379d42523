//! The parts that searches are made of.

use crate::json;
use crate::json::{put, string, FieldsModel, Json, JsonModel};
use crate::lists::{no_items, push_item};
use crate::text;
use vstd::prelude::*;

verus! {

/// The limit of a search where none is given.
pub const DEFAULT_LIMIT: usize = 100;

/// Clamp a user-supplied limit to the configured maximum.
pub open spec fn clamped(limit: Option<usize>, max_limit: usize) -> usize {
    let wanted = match limit {
        Some(n) => n,
        None => DEFAULT_LIMIT,
    };
    if wanted < max_limit {
        wanted
    } else {
        max_limit
    }
}

/// Clamp a user-supplied limit to the configured maximum.
pub fn clamp_limit(limit: Option<usize>, max_limit: usize) -> (r: usize)
    ensures
        r == clamped(limit, max_limit),
        r <= max_limit,
{
    let wanted: usize = match limit {
        Some(n) => n,
        None => DEFAULT_LIMIT,
    };
    if wanted < max_limit {
        wanted
    } else {
        max_limit
    }
}

/// A field that must have a value.
pub open spec fn term_of(field: Seq<char>, value: JsonModel) -> JsonModel {
    JsonModel::Object(seq![("term"@, JsonModel::Object(seq![(field, value)]))])
}

pub fn term(field: &str, value: Json) -> (r: Json)
    ensures
        r.deep_view() == term_of(field@, value.deep_view()),
{
    json::single("term", json::single(field, value))
}

/// A field that must have a text as its value.
pub fn text_term(field: &str, value: &str) -> (r: Json)
    ensures
        r.deep_view() == term_of(field@, JsonModel::Str(value@)),
{
    term(field, string(value))
}

/// Documents that meet all of some conditions.
pub open spec fn filtered_of(filters: Seq<JsonModel>) -> JsonModel {
    JsonModel::Object(
        seq![("bool"@, JsonModel::Object(seq![("filter"@, JsonModel::Array(filters))]))],
    )
}

pub fn filtered(filters: Vec<Json>) -> (r: Json)
    ensures
        r.deep_view() == filtered_of(filters.deep_view()),
{
    json::single("bool", json::single("filter", json::array(filters)))
}

/// Documents that meet one condition.
pub fn filtered_by(filter: Json) -> (r: Json)
    ensures
        r.deep_view() == filtered_of(seq![filter.deep_view()]),
{
    json::single("bool", json::single("filter", json::one(filter)))
}

/// In the order of a field.
pub open spec fn sorted_of(field: Seq<char>, order: Seq<char>) -> JsonModel {
    JsonModel::Array(
        seq![
            JsonModel::Object(
                seq![(field, JsonModel::Object(seq![("order"@, JsonModel::Str(order))]))],
            ),
        ],
    )
}

pub fn sorted(field: &str, order: &str) -> (r: Json)
    ensures
        r.deep_view() == sorted_of(field@, order@),
{
    json::one(json::single(field, json::single("order", string(order))))
}

/// The block that a boundary names: integers are block numbers, anything else
/// is treated as an ISO timestamp.
pub open spec fn boundary_block(value: Seq<char>) -> Option<nat> {
    text::parsed_nat(value, 0xffff_ffff_ffff_ffff)
}

/// What a boundary adds to the range of blocks.
pub open spec fn block_bound(key: Seq<char>, value: Option<Seq<char>>) -> FieldsModel {
    match value {
        Some(v) => match boundary_block(v) {
            Some(n) => seq![(key, JsonModel::Int(n as int))],
            None => seq![],
        },
        None => seq![],
    }
}

/// What a boundary adds to the range of times.
pub open spec fn time_bound(key: Seq<char>, value: Option<Seq<char>>) -> FieldsModel {
    match value {
        Some(v) => match boundary_block(v) {
            Some(_) => seq![],
            None => seq![(key, JsonModel::Str(v))],
        },
        None => seq![],
    }
}

/// A condition on the range of a field, if there is a bound.
pub open spec fn range_of(field: Seq<char>, bounds: FieldsModel) -> Seq<JsonModel> {
    if bounds.len() == 0 {
        seq![]
    } else {
        seq![
            JsonModel::Object(
                seq![("range"@, JsonModel::Object(seq![(field, JsonModel::Object(bounds))]))],
            ),
        ]
    }
}

/// The conditions that an `after` and a `before` boundary stand for.
pub open spec fn range_filters_of(
    after: Option<Seq<char>>,
    before: Option<Seq<char>>,
) -> Seq<JsonModel> {
    range_of("block_num"@, block_bound("gte"@, after) + block_bound("lte"@, before)) + range_of(
        "@timestamp"@,
        time_bound("gte"@, after) + time_bound("lte"@, before),
    )
}

/// Sorts a boundary into the range of blocks or of times.
fn push_bound(
    key: &str,
    value: &Option<String>,
    blocks: &mut Vec<(String, Json)>,
    times: &mut Vec<(String, Json)>,
)
    ensures
        final(blocks).deep_view() == old(blocks).deep_view() + block_bound(
            key@,
            value.deep_view(),
        ),
        final(times).deep_view() == old(times).deep_view() + time_bound(key@, value.deep_view()),
{
    if let Some(v) = value {
        match text::parse_nat(v.as_str(), 0xffff_ffff_ffff_ffff) {
            Some(n) => put(blocks, key, Json::Int(n as i128)),
            None => put(times, key, string(v.as_str())),
        }
    }
    assert(blocks.deep_view() =~= old(blocks).deep_view() + block_bound(key@, value.deep_view()));
    assert(times.deep_view() =~= old(times).deep_view() + time_bound(key@, value.deep_view()));
}

/// Interpret an `after`/`before` boundary: integers are block numbers,
/// anything else is treated as an ISO timestamp.
pub fn push_range_filters(
    filters: &mut Vec<Json>,
    after: &Option<String>,
    before: &Option<String>,
)
    ensures
        final(filters).deep_view() == old(filters).deep_view() + range_filters_of(
            after.deep_view(),
            before.deep_view(),
        ),
{
    let ghost start = filters.deep_view();
    let mut blocks: Vec<(String, Json)> = no_items();
    let mut times: Vec<(String, Json)> = no_items();
    push_bound("gte", after, &mut blocks, &mut times);
    push_bound("lte", before, &mut blocks, &mut times);
    let ghost b = block_bound("gte"@, after.deep_view()) + block_bound("lte"@, before.deep_view());
    let ghost t = time_bound("gte"@, after.deep_view()) + time_bound("lte"@, before.deep_view());
    assert(blocks.deep_view() =~= b);
    assert(times.deep_view() =~= t);
    if blocks.len() > 0 {
        push_item(
            filters,
            json::single("range", json::single("block_num", json::object(blocks))),
        );
    }
    if times.len() > 0 {
        push_item(
            filters,
            json::single("range", json::single("@timestamp", json::object(times))),
        );
    }
    assert(filters.deep_view() =~= start + range_filters_of(
        after.deep_view(),
        before.deep_view(),
    ));
}

/// The conditions that an `after` and a `before` boundary stand for.
pub fn range_filters(after: &Option<String>, before: &Option<String>) -> (r: Vec<Json>)
    ensures
        r.deep_view() == range_filters_of(after.deep_view(), before.deep_view()),
{
    let mut filters: Vec<Json> = no_items();
    push_range_filters(&mut filters, after, before);
    assert(filters.deep_view() =~= range_filters_of(after.deep_view(), before.deep_view()));
    filters
}

/// Whether an optional text is a given one.
pub fn is_text(value: &Option<String>, expected: &str) -> (r: bool)
    ensures
        r == (value.deep_view() == Some(expected@)),
{
    match value {
        Some(v) => text::same_text(v.as_str(), expected),
        None => false,
    }
}

} // verus!
