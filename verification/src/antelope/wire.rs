//! The meaning of the Antelope serialization format. A [`Cursor`] stands at
//! the bytes that are still unread, or at the first fault; each `get_*`
//! function says which value is read there and where the cursor stands then.
//! Once there is a fault, nothing more is read.

use crate::antelope::name::Name;
use crate::foreign;
use vstd::prelude::*;

verus! {

/// What can be wrong with a buffer.
pub enum Fault {
    Eof { needed: nat, remaining: nat },
    BadVarint,
    BadName(Seq<char>),
    BadSymbol(Seq<char>),
    BadUtf8,
    UnknownType(Seq<char>),
    BadAbi(Seq<char>),
    BadKeyType(u8),
    BadVariantIndex { variant: Seq<char>, index: u32 },
    UnsupportedVariant { kind: Seq<char>, index: u32 },
    WebSocket(Seq<char>),
    Closed,
    Protocol(Seq<char>),
}

/// The fault of a variant that is of a later version than is known.
pub open spec fn unsupported(kind: Seq<char>, index: u32) -> Fault {
    Fault::UnsupportedVariant { kind, index }
}

/// An error type whose values stand for faults.
pub trait HasFault {
    spec fn fault(&self) -> Fault;
}

/// A place in a buffer: the bytes that are still unread, and the fault that
/// was met there, if any.
pub struct Cursor {
    pub rest: Seq<u8>,
    pub fault: Option<Fault>,
}

impl Cursor {
    /// The same place, with a fault.
    pub open spec fn failed(self, fault: Fault) -> Cursor {
        Cursor { rest: self.rest, fault: Some(fault) }
    }

    /// The same place, with a fault unless there is one already or `ok` holds.
    pub open spec fn checked(self, ok: bool, fault: Fault) -> Cursor {
        if self.fault is None && !ok {
            self.failed(fault)
        } else {
            self
        }
    }

    /// Whether something can be read here.
    pub open spec fn sound(self) -> bool {
        self.fault is None
    }
}

/// The start of a buffer.
pub open spec fn at(data: Seq<u8>) -> Cursor {
    Cursor { rest: data, fault: None }
}

/// The number that bytes stand for, the lowest first.
pub open spec fn le_value(bytes: Seq<u8>) -> nat
    decreases bytes.len(),
{
    if bytes.len() == 0 {
        0
    } else {
        bytes[0] as nat + 256 * le_value(bytes.drop_first())
    }
}

/// The lowest `n` bytes of a number, the lowest first.
pub open spec fn le_bytes(value: nat, n: nat) -> Seq<u8>
    decreases n,
{
    if n == 0 {
        seq![]
    } else {
        seq![(value % 256) as u8] + le_bytes(value / 256, (n - 1) as nat)
    }
}

/// 256 to the power of `k`.
pub open spec fn pow256(k: nat) -> nat
    decreases k,
{
    if k == 0 {
        1
    } else {
        256 * pow256((k - 1) as nat)
    }
}

/// `n` bytes.
#[verifier::opaque]
pub open spec fn get_exact(c: Cursor, n: nat) -> (Seq<u8>, Cursor) {
    if !c.sound() {
        (seq![], c)
    } else if c.rest.len() < n {
        (seq![], c.failed(Fault::Eof { needed: n, remaining: c.rest.len() }))
    } else {
        (c.rest.take(n as int), at(c.rest.skip(n as int)))
    }
}

#[verifier::opaque]
pub open spec fn get_u8(c: Cursor) -> (u8, Cursor) {
    let (b, c1) = get_exact(c, 1);
    (le_value(b) as u8, c1)
}

#[verifier::opaque]
pub open spec fn get_u16(c: Cursor) -> (u16, Cursor) {
    let (b, c1) = get_exact(c, 2);
    (le_value(b) as u16, c1)
}

#[verifier::opaque]
pub open spec fn get_u32(c: Cursor) -> (u32, Cursor) {
    let (b, c1) = get_exact(c, 4);
    (le_value(b) as u32, c1)
}

#[verifier::opaque]
pub open spec fn get_u64(c: Cursor) -> (u64, Cursor) {
    let (b, c1) = get_exact(c, 8);
    (le_value(b) as u64, c1)
}

#[verifier::opaque]
pub open spec fn get_u128(c: Cursor) -> (u128, Cursor) {
    let (b, c1) = get_exact(c, 16);
    (le_value(b) as u128, c1)
}

/// Signed integers are stored in two's complement.
pub open spec fn get_i8(c: Cursor) -> (i8, Cursor) {
    let (v, c1) = get_u8(c);
    (v as i8, c1)
}

pub open spec fn get_i16(c: Cursor) -> (i16, Cursor) {
    let (v, c1) = get_u16(c);
    (v as i16, c1)
}

pub open spec fn get_i32(c: Cursor) -> (i32, Cursor) {
    let (v, c1) = get_u32(c);
    (v as i32, c1)
}

pub open spec fn get_i64(c: Cursor) -> (i64, Cursor) {
    let (v, c1) = get_u64(c);
    (v as i64, c1)
}

pub open spec fn get_i128(c: Cursor) -> (i128, Cursor) {
    let (v, c1) = get_u128(c);
    (v as i128, c1)
}

/// One byte; anything but zero is true.
pub open spec fn get_bool(c: Cursor) -> (bool, Cursor) {
    let (v, c1) = get_u8(c);
    (v != 0, c1)
}

/// 128 to the power of `i`.
pub open spec fn pow128(i: nat) -> nat
    decreases i,
{
    if i == 0 {
        1
    } else {
        128 * pow128((i - 1) as nat)
    }
}

/// The rest of a variable-length number whose first `i` groups add up to
/// `acc`. Each byte carries seven bits, the lowest group first; its high bit
/// says that another byte follows. There are at most five.
pub open spec fn varuint_from(c: Cursor, i: nat, acc: nat) -> (nat, Cursor)
    decreases 5 - i,
{
    let (b, c1) = get_u8(c);
    let value = acc + (b % 128) as nat * pow128(i);
    if !c1.sound() {
        (0, c1)
    } else if b < 128 {
        (value, c1)
    } else if i >= 4 {
        (0, c1.failed(Fault::BadVarint))
    } else {
        varuint_from(c1, i + 1, value)
    }
}

/// A variable-length number that fits in 32 bits.
#[verifier::opaque]
pub open spec fn get_varuint32(c: Cursor) -> (u32, Cursor) {
    let (v, c1) = varuint_from(c, 0, 0);
    if c1.sound() && v > u32::MAX {
        (0, c1.failed(Fault::BadVarint))
    } else {
        (v as u32, c1)
    }
}

/// The signed number that a zigzag code stands for: 0, -1, 1, -2, ...
pub open spec fn zigzag(v: u32) -> int {
    if v % 2 == 0 {
        (v / 2) as int
    } else {
        -((v / 2) as int) - 1
    }
}

pub open spec fn get_varint32(c: Cursor) -> (i32, Cursor) {
    let (v, c1) = get_varuint32(c);
    (zigzag(v) as i32, c1)
}

/// A byte string after its length.
#[verifier::opaque]
pub open spec fn get_blob(c: Cursor) -> (Seq<u8>, Cursor) {
    let (n, c1) = get_varuint32(c);
    get_exact(c1, n as nat)
}

pub open spec fn get_name(c: Cursor) -> (Name, Cursor) {
    let (v, c1) = get_u64(c);
    (Name(v), c1)
}

/// A byte string after its length, read as UTF-8 with every ill-formed part
/// replaced.
pub open spec fn get_string(c: Cursor) -> (Seq<char>, Cursor) {
    let (b, c1) = get_blob(c);
    (foreign::utf8_text(b), c1)
}

/// A digest of 32 bytes, in hexadecimal.
pub open spec fn get_digest(c: Cursor) -> (Seq<char>, Cursor) {
    let (b, c1) = get_exact(c, 32);
    (foreign::hex_text(b), c1)
}

/// A value that is there if the byte before it says so.
pub open spec fn get_option<T>(p: spec_fn(Cursor) -> (T, Cursor), c: Cursor) -> (
    Option<T>,
    Cursor,
) {
    let (present, c1) = get_bool(c);
    if c1.sound() && present {
        let (v, c2) = p(c1);
        (Some(v), c2)
    } else {
        (None, c1)
    }
}

/// `n` values, one after another.
pub open spec fn get_many<T>(p: spec_fn(Cursor) -> (T, Cursor), n: nat, c: Cursor) -> (
    Seq<T>,
    Cursor,
)
    decreases n,
{
    if n == 0 {
        (seq![], c)
    } else {
        let (vs, c1) = get_many(p, (n - 1) as nat, c);
        if c1.sound() {
            let (v, c2) = p(c1);
            (vs.push(v), c2)
        } else {
            (vs, c1)
        }
    }
}

/// A list: the number of values, then the values.
pub open spec fn get_list<T>(p: spec_fn(Cursor) -> (T, Cursor), c: Cursor) -> (Seq<T>, Cursor) {
    let (n, c1) = get_varuint32(c);
    if c1.sound() {
        get_many(p, n as nat, c1)
    } else {
        (seq![], c1)
    }
}

// ---------------------------------------------------------------------------
// Nothing is read at a fault
// ---------------------------------------------------------------------------

pub broadcast proof fn lemma_exact_latch(c: Cursor, n: nat)
    ensures
        !c.sound() ==> (#[trigger] get_exact(c, n)).1 == c,
{
    reveal(get_exact);
}

pub broadcast proof fn lemma_u8_latch(c: Cursor)
    ensures
        !c.sound() ==> (#[trigger] get_u8(c)).1 == c,
{
    reveal(get_exact);
    reveal(get_u8);
}

pub broadcast proof fn lemma_u16_latch(c: Cursor)
    ensures
        !c.sound() ==> (#[trigger] get_u16(c)).1 == c,
{
    reveal(get_exact);
    reveal(get_u16);
}

pub broadcast proof fn lemma_u32_latch(c: Cursor)
    ensures
        !c.sound() ==> (#[trigger] get_u32(c)).1 == c,
{
    reveal(get_exact);
    reveal(get_u32);
}

pub broadcast proof fn lemma_u64_latch(c: Cursor)
    ensures
        !c.sound() ==> (#[trigger] get_u64(c)).1 == c,
{
    reveal(get_exact);
    reveal(get_u64);
}

pub broadcast proof fn lemma_u128_latch(c: Cursor)
    ensures
        !c.sound() ==> (#[trigger] get_u128(c)).1 == c,
{
    reveal(get_exact);
    reveal(get_u128);
}

pub broadcast proof fn lemma_varuint32_latch(c: Cursor)
    ensures
        !c.sound() ==> (#[trigger] get_varuint32(c)).1 == c,
{
    reveal(get_exact);
    reveal(get_varuint32);
    reveal(get_u8);
}

pub broadcast proof fn lemma_blob_latch(c: Cursor)
    ensures
        !c.sound() ==> (#[trigger] get_blob(c)).1 == c,
{
    reveal(get_exact);
    reveal(get_blob);
    reveal(get_u8);
    reveal(get_varuint32);
}

pub broadcast group group_latch {
    lemma_exact_latch,
    lemma_u8_latch,
    lemma_u16_latch,
    lemma_u32_latch,
    lemma_u64_latch,
    lemma_u128_latch,
    lemma_varuint32_latch,
    lemma_blob_latch,
}

// ---------------------------------------------------------------------------
// Reading leaves no more bytes than there were
// ---------------------------------------------------------------------------

pub broadcast proof fn lemma_exact_shrinks(c: Cursor, n: nat)
    ensures
        (#[trigger] get_exact(c, n)).1.rest.len() <= c.rest.len(),
        get_exact(c, n).1.sound() ==> c.sound() && get_exact(c, n).1.rest.len() + n
            == c.rest.len(),
{
    reveal(get_exact);
}

pub broadcast proof fn lemma_u8_shrinks(c: Cursor)
    ensures
        (#[trigger] get_u8(c)).1.rest.len() <= c.rest.len(),
        get_u8(c).1.sound() ==> c.sound() && get_u8(c).1.rest.len() < c.rest.len(),
{
    reveal(get_exact);
    reveal(get_u8);
}

pub broadcast proof fn lemma_u16_shrinks(c: Cursor)
    ensures
        (#[trigger] get_u16(c)).1.rest.len() <= c.rest.len(),
        get_u16(c).1.sound() ==> c.sound() && get_u16(c).1.rest.len() < c.rest.len(),
{
    reveal(get_exact);
    reveal(get_u16);
}

pub broadcast proof fn lemma_u32_shrinks(c: Cursor)
    ensures
        (#[trigger] get_u32(c)).1.rest.len() <= c.rest.len(),
        get_u32(c).1.sound() ==> c.sound() && get_u32(c).1.rest.len() < c.rest.len(),
{
    reveal(get_exact);
    reveal(get_u32);
}

pub broadcast proof fn lemma_u64_shrinks(c: Cursor)
    ensures
        (#[trigger] get_u64(c)).1.rest.len() <= c.rest.len(),
        get_u64(c).1.sound() ==> c.sound() && get_u64(c).1.rest.len() < c.rest.len(),
{
    reveal(get_exact);
    reveal(get_u64);
}

pub broadcast proof fn lemma_u128_shrinks(c: Cursor)
    ensures
        (#[trigger] get_u128(c)).1.rest.len() <= c.rest.len(),
        get_u128(c).1.sound() ==> c.sound() && get_u128(c).1.rest.len() < c.rest.len(),
{
    reveal(get_exact);
    reveal(get_u128);
}

/// Reading a number leaves no more bytes than there were.
pub proof fn lemma_varuint_shrinks(c: Cursor, i: nat, acc: nat)
    ensures
        varuint_from(c, i, acc).1.rest.len() <= c.rest.len(),
        varuint_from(c, i, acc).1.sound() ==> c.sound() && varuint_from(c, i, acc).1.rest.len()
            < c.rest.len(),
    decreases 5 - i,
{
    lemma_u8_shrinks(c);
    let (b, c1) = get_u8(c);
    if c1.sound() && b >= 128 && i < 4 {
        lemma_varuint_shrinks(c1, i + 1, acc + (b % 128) as nat * pow128(i));
    }
}

pub broadcast proof fn lemma_varuint32_shrinks(c: Cursor)
    ensures
        (#[trigger] get_varuint32(c)).1.rest.len() <= c.rest.len(),
        get_varuint32(c).1.sound() ==> c.sound() && get_varuint32(c).1.rest.len() < c.rest.len(),
{
    reveal(get_varuint32);
    lemma_varuint_shrinks(c, 0, 0);
}

pub broadcast proof fn lemma_blob_shrinks(c: Cursor)
    ensures
        (#[trigger] get_blob(c)).1.rest.len() <= c.rest.len(),
        get_blob(c).1.sound() ==> c.sound() && get_blob(c).1.rest.len() < c.rest.len(),
{
    reveal(get_blob);
    lemma_varuint32_shrinks(c);
    let (n, c1) = get_varuint32(c);
    lemma_exact_shrinks(c1, n as nat);
}

/// Reading a list leaves no more bytes than there were, if reading one of its
/// values never does.
pub proof fn lemma_many_shrinks<T>(p: spec_fn(Cursor) -> (T, Cursor), n: nat, c: Cursor)
    requires
        forall|d: Cursor| (#[trigger] p(d)).1.rest.len() <= d.rest.len(),
    ensures
        get_many(p, n, c).1.rest.len() <= c.rest.len(),
    decreases n,
{
    if n > 0 {
        lemma_many_shrinks(p, (n - 1) as nat, c);
        let (vs, c1) = get_many(p, (n - 1) as nat, c);
        assert(p(c1).1.rest.len() <= c1.rest.len());
    }
}

/// As many values are read as were asked for, at most.
pub proof fn lemma_many_len<T>(p: spec_fn(Cursor) -> (T, Cursor), n: nat, c: Cursor)
    ensures
        get_many(p, n, c).0.len() <= n,
        get_many(p, n, c).1.sound() ==> get_many(p, n, c).0.len() == n,
    decreases n,
{
    if n > 0 {
        lemma_many_len(p, (n - 1) as nat, c);
    }
}

pub broadcast group group_shrinks {
    lemma_exact_shrinks,
    lemma_u8_shrinks,
    lemma_u16_shrinks,
    lemma_u32_shrinks,
    lemma_u64_shrinks,
    lemma_u128_shrinks,
    lemma_varuint32_shrinks,
    lemma_blob_shrinks,
}

/// A fault among the first values stays: no further value is read.
pub proof fn lemma_many_stuck<T>(p: spec_fn(Cursor) -> (T, Cursor), k: nat, n: nat, c: Cursor)
    requires
        k <= n,
    ensures
        !get_many(p, k, c).1.sound() ==> get_many(p, n, c) == get_many(p, k, c),
    decreases n,
{
    if k < n {
        lemma_many_stuck(p, k, (n - 1) as nat, c);
    }
}

// ---------------------------------------------------------------------------
// What is read does not depend on the bytes behind it
// ---------------------------------------------------------------------------

/// A place with more bytes at the end of the buffer.
pub open spec fn extended(c: Cursor, extra: Seq<u8>) -> Cursor {
    Cursor { rest: c.rest + extra, fault: c.fault }
}

pub broadcast proof fn lemma_exact_extends(c: Cursor, n: nat, extra: Seq<u8>)
    ensures
        get_exact(c, n).1.sound() ==> #[trigger] get_exact(extended(c, extra), n) == (
            get_exact(c, n).0,
            extended(get_exact(c, n).1, extra),
        ),
{
    reveal(get_exact);
    if get_exact(c, n).1.sound() {
        assert((c.rest + extra).take(n as int) =~= c.rest.take(n as int));
        assert((c.rest + extra).skip(n as int) =~= c.rest.skip(n as int) + extra);
    }
}

pub broadcast proof fn lemma_u8_extends(c: Cursor, extra: Seq<u8>)
    ensures
        get_u8(c).1.sound() ==> #[trigger] get_u8(extended(c, extra)) == (
            get_u8(c).0,
            extended(get_u8(c).1, extra),
        ),
{
    reveal(get_u8);
    lemma_exact_extends(c, 1, extra);
}

pub broadcast proof fn lemma_u16_extends(c: Cursor, extra: Seq<u8>)
    ensures
        get_u16(c).1.sound() ==> #[trigger] get_u16(extended(c, extra)) == (
            get_u16(c).0,
            extended(get_u16(c).1, extra),
        ),
{
    reveal(get_u16);
    lemma_exact_extends(c, 2, extra);
}

pub broadcast proof fn lemma_u32_extends(c: Cursor, extra: Seq<u8>)
    ensures
        get_u32(c).1.sound() ==> #[trigger] get_u32(extended(c, extra)) == (
            get_u32(c).0,
            extended(get_u32(c).1, extra),
        ),
{
    reveal(get_u32);
    lemma_exact_extends(c, 4, extra);
}

pub broadcast proof fn lemma_u64_extends(c: Cursor, extra: Seq<u8>)
    ensures
        get_u64(c).1.sound() ==> #[trigger] get_u64(extended(c, extra)) == (
            get_u64(c).0,
            extended(get_u64(c).1, extra),
        ),
{
    reveal(get_u64);
    lemma_exact_extends(c, 8, extra);
}

pub broadcast proof fn lemma_u128_extends(c: Cursor, extra: Seq<u8>)
    ensures
        get_u128(c).1.sound() ==> #[trigger] get_u128(extended(c, extra)) == (
            get_u128(c).0,
            extended(get_u128(c).1, extra),
        ),
{
    reveal(get_u128);
    lemma_exact_extends(c, 16, extra);
}

proof fn lemma_varuint_extends(c: Cursor, i: nat, acc: nat, extra: Seq<u8>)
    ensures
        varuint_from(c, i, acc).1.sound() ==> varuint_from(extended(c, extra), i, acc) == (
            varuint_from(c, i, acc).0,
            extended(varuint_from(c, i, acc).1, extra),
        ),
    decreases 5 - i,
{
    lemma_u8_extends(c, extra);
    let (b, c1) = get_u8(c);
    if c1.sound() && b >= 128 && i < 4 {
        lemma_varuint_extends(c1, i + 1, acc + (b % 128) as nat * pow128(i), extra);
    }
}

pub broadcast proof fn lemma_varuint32_extends(c: Cursor, extra: Seq<u8>)
    ensures
        get_varuint32(c).1.sound() ==> #[trigger] get_varuint32(extended(c, extra)) == (
            get_varuint32(c).0,
            extended(get_varuint32(c).1, extra),
        ),
{
    reveal(get_varuint32);
    lemma_varuint_extends(c, 0, 0, extra);
}

pub broadcast proof fn lemma_blob_extends(c: Cursor, extra: Seq<u8>)
    ensures
        get_blob(c).1.sound() ==> #[trigger] get_blob(extended(c, extra)) == (
            get_blob(c).0,
            extended(get_blob(c).1, extra),
        ),
{
    reveal(get_blob);
    lemma_varuint32_extends(c, extra);
    let (n, c1) = get_varuint32(c);
    lemma_exact_extends(c1, n as nat, extra);
    lemma_exact_latch(c1, n as nat);
}

pub broadcast group group_extends {
    lemma_exact_extends,
    lemma_u8_extends,
    lemma_u16_extends,
    lemma_u32_extends,
    lemma_u64_extends,
    lemma_u128_extends,
    lemma_varuint32_extends,
    lemma_blob_extends,
}

/// The values of a list do not depend on the bytes behind it, if none of them
/// depends on the bytes behind it.
pub proof fn lemma_many_extends<T>(
    p: spec_fn(Cursor) -> (T, Cursor),
    n: nat,
    c: Cursor,
    extra: Seq<u8>,
)
    requires
        forall|d: Cursor|
            p(d).1.sound() ==> #[trigger] p(extended(d, extra)) == (
                p(d).0,
                extended(p(d).1, extra),
            ),
    ensures
        get_many(p, n, c).1.sound() ==> get_many(p, n, extended(c, extra)) == (
            get_many(p, n, c).0,
            extended(get_many(p, n, c).1, extra),
        ),
    decreases n,
{
    if n > 0 {
        lemma_many_extends(p, (n - 1) as nat, c, extra);
        let c1 = get_many(p, (n - 1) as nat, c).1;
        assert(p(c1).1.sound() ==> p(extended(c1, extra)) == (
            p(c1).0,
            extended(p(c1).1, extra),
        ));
    }
}

} // verus!
