//! Antelope timestamp conversions. All chain timestamps are rendered in the
//! canonical `%Y-%m-%dT%H:%M:%S%.3f` form (UTC, no `Z` suffix) that nodeos
//! uses.

use crate::foreign;
use vstd::prelude::*;

verus! {

/// Milliseconds between the Unix epoch and the block-timestamp epoch
/// (2000-01-01T00:00:00.000Z).
pub const BLOCK_TIMESTAMP_EPOCH_MS: i64 = 946_684_800_000;

/// Each block-timestamp slot is 500 ms.
pub const BLOCK_INTERVAL_MS: i64 = 500;

/// An instant, given in microseconds since the Unix epoch, in canonical form.
/// One that the calendar does not cover is rendered as the epoch.
pub open spec fn instant_text(micros: int) -> Seq<char> {
    foreign::utc_text(
        if foreign::in_calendar(micros) {
            micros
        } else {
            0
        },
        "%Y-%m-%dT%H:%M:%S%.3f"@,
    )
}

/// Milliseconds since the Unix epoch at which a block-timestamp slot starts.
pub open spec fn slot_ms(slot: u32) -> int {
    BLOCK_TIMESTAMP_EPOCH_MS + slot * BLOCK_INTERVAL_MS
}

fn format(micros: i64) -> (r: String)
    ensures
        r@ == instant_text(micros as int),
{
    match foreign::utc_format(micros, "%Y-%m-%dT%H:%M:%S%.3f") {
        Some(t) => t,
        None => match foreign::utc_format(0, "%Y-%m-%dT%H:%M:%S%.3f") {
            Some(t) => t,
            None => String::new(),
        },
    }
}

/// `time_point`: microseconds since the Unix epoch.
pub fn time_point_to_string(micros: i64) -> (r: String)
    ensures
        r@ == instant_text(micros as int),
{
    format(micros)
}

/// `time_point_sec`: seconds since the Unix epoch.
pub fn time_point_sec_to_string(secs: u32) -> (r: String)
    ensures
        r@ == instant_text(secs * 1_000_000),
{
    format(secs as i64 * 1_000_000)
}

/// `block_timestamp_type`: 500 ms slots since 2000-01-01.
pub fn block_timestamp_to_string(slot: u32) -> (r: String)
    ensures
        r@ == instant_text(slot_ms(slot) * 1_000),
{
    format(block_timestamp_to_ms(slot) * 1_000)
}

/// Milliseconds since the Unix epoch for a block-timestamp slot.
pub fn block_timestamp_to_ms(slot: u32) -> (r: i64)
    ensures
        r == slot_ms(slot),
        BLOCK_TIMESTAMP_EPOCH_MS <= r <= 3_094_168_447_500,
{
    BLOCK_TIMESTAMP_EPOCH_MS + slot as i64 * BLOCK_INTERVAL_MS
}

/// A second and a block slot always lie in the calendar: their text is that
/// of the instant itself, never of the epoch in its place.
pub proof fn law_chain_times_in_calendar(secs: u32, slot: u32)
    ensures
        foreign::in_calendar(secs * 1_000_000),
        foreign::in_calendar(slot_ms(slot) * 1_000),
{
}

/// A later slot starts later, by half a second for each slot between.
pub proof fn law_slots_ascend(a: u32, b: u32)
    requires
        a <= b,
    ensures
        slot_ms(b) - slot_ms(a) == 500 * (b - a),
{
}

} // verus!
