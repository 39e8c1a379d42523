//! Reading values of a known layout, and lists of them.

use crate::antelope::reader::ByteReader;
use crate::antelope::wire;
use crate::antelope::wire::{Cursor, HasFault};
use crate::antelope::AntelopeError;
use crate::lists::{no_items, push_item};
use vstd::prelude::*;

verus! {

broadcast use wire::group_latch;

/// An error type that can carry what is wrong with Antelope data.
pub trait Failure: HasFault + Sized {
    fn of(e: AntelopeError) -> (r: Self)
        ensures
            r.fault() == e.fault(),
    ;
}

impl Failure for AntelopeError {
    fn of(e: AntelopeError) -> (r: Self) {
        e
    }
}

/// A layout: what is read, and how.
pub trait Codec {
    type Item: DeepView;

    type Error: Failure;

    /// The value that is read at a place, and the place behind it.
    spec fn get(c: Cursor) -> (<Self::Item as DeepView>::V, Cursor);

    /// No more bytes are left than there were.
    proof fn shrinks(c: Cursor)
        ensures
            Self::get(c).1.rest.len() <= c.rest.len(),
    ;

    /// What is read does not depend on the bytes behind it.
    proof fn extends(c: Cursor, extra: Seq<u8>)
        ensures
            Self::get(c).1.sound() ==> Self::get(wire::extended(c, extra)) == (
                Self::get(c).0,
                wire::extended(Self::get(c).1, extra),
            ),
    ;

    /// Reads the value.
    fn take(r: &mut ByteReader) -> (res: Result<Self::Item, Self::Error>)
        ensures
            super::reader::reads(Self::get(old(r).cursor()), res, *old(r), *final(r)),
    ;
}

/// A list of values of one layout.
#[verifier::opaque]
pub open spec fn list_of<C: Codec>(c: Cursor) -> (Seq<<C::Item as DeepView>::V>, Cursor) {
    wire::get_list(|d: Cursor| C::get(d), c)
}

/// Nothing is read at a fault.
pub broadcast proof fn lemma_list_latch<C: Codec>(c: Cursor)
    ensures
        !c.sound() ==> (#[trigger] list_of::<C>(c)).1 == c,
{
    reveal(list_of);
}

/// Reading a list leaves no more bytes than there were.
pub broadcast proof fn lemma_list_shrinks<C: Codec>(c: Cursor)
    ensures
        (#[trigger] list_of::<C>(c)).1.rest.len() <= c.rest.len(),
{
    reveal(list_of);
    let p = |d: Cursor| C::get(d);
    wire::lemma_varuint32_shrinks(c);
    let (n, c1) = wire::get_varuint32(c);
    assert forall|d: Cursor| (#[trigger] p(d)).1.rest.len() <= d.rest.len() by {
        C::shrinks(d);
    }
    wire::lemma_many_shrinks(p, n as nat, c1);
}

/// A list does not depend on the bytes behind it.
pub broadcast proof fn lemma_list_extends<C: Codec>(c: Cursor, extra: Seq<u8>)
    ensures
        list_of::<C>(c).1.sound() ==> #[trigger] list_of::<C>(wire::extended(c, extra)) == (
            list_of::<C>(c).0,
            wire::extended(list_of::<C>(c).1, extra),
        ),
{
    reveal(list_of);
    let p = |d: Cursor| C::get(d);
    wire::lemma_varuint32_extends(c, extra);
    let (n, c1) = wire::get_varuint32(c);
    assert forall|d: Cursor|
        p(d).1.sound() implies #[trigger] p(wire::extended(d, extra)) == (
        p(d).0,
        wire::extended(p(d).1, extra),
    ) by {
        C::extends(d, extra);
    }
    wire::lemma_many_extends(p, n as nat, c1, extra);
}

/// A list is as long as a 32-bit number can say.
pub proof fn lemma_list_len<C: Codec>(c: Cursor)
    ensures
        list_of::<C>(c).0.len() <= u32::MAX,
{
    reveal(list_of);
    let p = |d: Cursor| C::get(d);
    let (n, c1) = wire::get_varuint32(c);
    wire::lemma_many_len(p, n as nat, c1);
}

/// Reads a list of values of one layout.
pub fn read_list<C: Codec>(r: &mut ByteReader) -> (res: Result<Vec<C::Item>, C::Error>)
    ensures
        super::reader::reads(list_of::<C>(old(r).cursor()), res, *old(r), *final(r)),
{
    proof {
        reveal(list_of);
    }
    let ghost p = |d: Cursor| C::get(d);
    let n: u32 = match r.read_varuint32() {
        Ok(n) => n,
        Err(e) => {
            return Err(C::Error::of(e));
        },
    };
    let ghost c1 = r.cursor();
    let mut out: Vec<C::Item> = no_items();
    let mut i: u32 = 0;
    while i < n
        invariant
            i <= n,
            p == (|d: Cursor| C::get(d)),
            r.bytes() == old(r).bytes(),
            wire::get_many(p, i as nat, c1) == (out.deep_view(), r.cursor()),
            list_of::<C>(old(r).cursor()) == wire::get_many(p, n as nat, c1),
        decreases n - i,
    {
        match C::take(r) {
            Ok(v) => push_item(&mut out, v),
            Err(e) => {
                proof {
                    wire::lemma_many_stuck(p, (i + 1) as nat, n as nat, c1);
                }
                return Err(e);
            },
        }
        i = i + 1;
    }
    Ok(out)
}

} // verus!
