//! A little-endian cursor over an Antelope-serialized byte buffer.

use crate::antelope::name::Name;
use crate::antelope::wire;
use crate::antelope::wire::{Cursor, HasFault};
use crate::antelope::AntelopeError;
use crate::foreign;
use vstd::prelude::*;

verus! {

broadcast use wire::group_latch;

/// A little-endian cursor over an Antelope-serialized byte buffer.
pub struct ByteReader<'a> {
    data: &'a [u8],
    pos: usize,
}

/// What it means that reading gave `got` and moved the reader from `before`
/// to `after`, where `want` is the value and the place that are due.
pub open spec fn reads<T: DeepView, E: HasFault>(
    want: (T::V, Cursor),
    got: Result<T, E>,
    before: ByteReader,
    after: ByteReader,
) -> bool {
    &&& after.bytes() == before.bytes()
    &&& after.rest() == want.1.rest
    &&& match got {
        Ok(v) => want.1.fault is None && want.0 == v.deep_view(),
        Err(e) => want.1.fault == Some(e.fault()),
    }
}

/// What it means that a whole buffer was decoded as `got`, where `want` is the
/// value that is due and the place where its decoding ends.
pub open spec fn decodes<T: DeepView, E: HasFault>(
    want: (T::V, Cursor),
    got: Result<T, E>,
) -> bool {
    match got {
        Ok(v) => want.1.fault is None && want.0 == v.deep_view(),
        Err(e) => want.1.fault == Some(e.fault()),
    }
}

impl<'a> ByteReader<'a> {
    #[verifier::type_invariant]
    spec fn inside(self) -> bool {
        self.pos <= self.data@.len()
    }

    /// The whole buffer.
    pub closed spec fn bytes(&self) -> Seq<u8> {
        self.data@
    }

    /// How many bytes were read.
    pub closed spec fn position(&self) -> nat {
        self.pos as nat
    }

    /// The bytes that are still unread.
    pub open spec fn rest(&self) -> Seq<u8> {
        self.bytes().skip(self.position() as int)
    }

    pub open spec fn cursor(&self) -> Cursor {
        wire::at(self.rest())
    }

    pub fn new(data: &'a [u8]) -> (r: Self)
        ensures
            r.bytes() == data@,
            r.position() == 0,
            r.rest() == data@,
    {
        let r = ByteReader { data, pos: 0 };
        assert(r.rest() == data@);
        r
    }

    pub fn remaining(&self) -> (n: usize)
        ensures
            n == self.rest().len(),
    {
        proof {
            use_type_invariant(self);
        }
        self.data.len() - self.pos
    }

    pub fn is_empty(&self) -> (r: bool)
        ensures
            r == (self.rest().len() == 0),
    {
        self.remaining() == 0
    }

    pub fn pos(&self) -> (n: usize)
        ensures
            n == self.position(),
            n <= self.bytes().len(),
    {
        proof {
            use_type_invariant(self);
        }
        self.pos
    }

    /// Borrow an arbitrary span of the underlying buffer (does not move the
    /// cursor). Used to re-capture already-consumed multi-field payloads.
    pub fn data_slice(&self, start: usize, end: usize) -> (out: &'a [u8])
        requires
            start <= end <= self.bytes().len(),
        ensures
            out@ == self.bytes().subrange(start as int, end as int),
    {
        vstd::slice::slice_subrange(self.data, start, end)
    }

    pub fn read_exact(&mut self, n: usize) -> (r: Result<&'a [u8], AntelopeError>)
        ensures
            final(self).bytes() == old(self).bytes(),
            ({
                let (b, c) = wire::get_exact(old(self).cursor(), n as nat);
                &&& final(self).rest() == c.rest
                &&& match r {
                    Ok(v) => c.fault is None && v@ == b,
                    Err(e) => c.fault == Some(e.fault()),
                }
            }),
    {
        proof {
            use_type_invariant(&*self);
            reveal(wire::get_exact);
        }
        let remaining: usize = self.data.len() - self.pos;
        if remaining < n {
            return Err(AntelopeError::Eof { needed: n, remaining });
        }
        let out: &'a [u8] = vstd::slice::slice_subrange(self.data, self.pos, self.pos + n);
        assert(out@ == old(self).rest().take(n as int));
        self.pos = self.pos + n;
        assert(self.rest() == old(self).rest().skip(n as int));
        Ok(out)
    }

    pub fn read_u8(&mut self) -> (r: Result<u8, AntelopeError>)
        ensures
            reads(wire::get_u8(old(self).cursor()), r, *old(self), *final(self)),
    {
        proof {
            reveal(wire::get_u8);
            reveal(wire::get_exact);
        }
        let b: &[u8] = self.read_exact(1)?;
        proof {
            reveal_with_fuel(wire::le_value, 2);
        }
        Ok(b[0])
    }

    pub fn read_u16(&mut self) -> (r: Result<u16, AntelopeError>)
        ensures
            reads(wire::get_u16(old(self).cursor()), r, *old(self), *final(self)),
    {
        proof {
            reveal(wire::get_u16);
            reveal(wire::get_exact);
        }
        let b: &[u8] = self.read_exact(2)?;
        proof {
            reveal_with_fuel(wire::le_value, 3);
        }
        Ok(b[0] as u16 + b[1] as u16 * 0x100)
    }

    pub fn read_u32(&mut self) -> (r: Result<u32, AntelopeError>)
        ensures
            reads(wire::get_u32(old(self).cursor()), r, *old(self), *final(self)),
    {
        proof {
            reveal(wire::get_u32);
            reveal(wire::get_exact);
        }
        let b: &[u8] = self.read_exact(4)?;
        proof {
            reveal_with_fuel(wire::le_value, 5);
        }
        Ok(b[0] as u32 + b[1] as u32 * 0x100 + b[2] as u32 * 0x1_0000 + b[3] as u32 * 0x100_0000)
    }

    pub fn read_u64(&mut self) -> (r: Result<u64, AntelopeError>)
        ensures
            reads(wire::get_u64(old(self).cursor()), r, *old(self), *final(self)),
    {
        proof {
            reveal(wire::get_u64);
            reveal(wire::get_exact);
        }
        let b: &[u8] = self.read_exact(8)?;
        proof {
            reveal_with_fuel(wire::le_value, 9);
        }
        Ok(
            b[0] as u64 + b[1] as u64 * 0x100 + b[2] as u64 * 0x1_0000 + b[3] as u64 * 0x100_0000
                + b[4] as u64 * 0x1_0000_0000 + b[5] as u64 * 0x100_0000_0000 + b[6] as u64
                * 0x1_0000_0000_0000 + b[7] as u64 * 0x100_0000_0000_0000,
        )
    }

    pub fn read_u128(&mut self) -> (r: Result<u128, AntelopeError>)
        ensures
            reads(wire::get_u128(old(self).cursor()), r, *old(self), *final(self)),
    {
        proof {
            reveal(wire::get_u128);
            reveal(wire::get_exact);
        }
        let b: &[u8] = self.read_exact(16)?;
        let mut value: u128 = 0;
        let mut i: usize = 16;
        while i > 0
            invariant
                i <= 16,
                b@.len() == 16,
                value == wire::le_value(b@.skip(i as int)),
                value < wire_bound((16 - i) as nat),
            decreases i,
        {
            i = i - 1;
            proof {
                lemma_wire_bound((16 - i) as nat);
                assert(b@.skip(i as int).drop_first() == b@.skip(i + 1));
            }
            value = value * 256 + b[i] as u128;
        }
        assert(b@.skip(0) == b@);
        Ok(value)
    }

    pub fn read_i8(&mut self) -> (r: Result<i8, AntelopeError>)
        ensures
            reads(wire::get_i8(old(self).cursor()), r, *old(self), *final(self)),
    {
        Ok(self.read_u8()? as i8)
    }

    pub fn read_i16(&mut self) -> (r: Result<i16, AntelopeError>)
        ensures
            reads(wire::get_i16(old(self).cursor()), r, *old(self), *final(self)),
    {
        Ok(self.read_u16()? as i16)
    }

    pub fn read_i32(&mut self) -> (r: Result<i32, AntelopeError>)
        ensures
            reads(wire::get_i32(old(self).cursor()), r, *old(self), *final(self)),
    {
        Ok(self.read_u32()? as i32)
    }

    pub fn read_i64(&mut self) -> (r: Result<i64, AntelopeError>)
        ensures
            reads(wire::get_i64(old(self).cursor()), r, *old(self), *final(self)),
    {
        Ok(self.read_u64()? as i64)
    }

    pub fn read_i128(&mut self) -> (r: Result<i128, AntelopeError>)
        ensures
            reads(wire::get_i128(old(self).cursor()), r, *old(self), *final(self)),
    {
        Ok(self.read_u128()? as i128)
    }

    pub fn read_bool(&mut self) -> (r: Result<bool, AntelopeError>)
        ensures
            reads(wire::get_bool(old(self).cursor()), r, *old(self), *final(self)),
    {
        Ok(self.read_u8()? != 0)
    }

    pub fn read_varuint32(&mut self) -> (r: Result<u32, AntelopeError>)
        ensures
            reads(wire::get_varuint32(old(self).cursor()), r, *old(self), *final(self)),
    {
        let mut value: u64 = 0;
        let mut scale: u64 = 1;
        let mut i: u32 = 0;
        loop
            invariant
                i <= 4,
                scale == wire::pow128(i as nat),
                value < scale,
                scale <= 0x1000_0000,
                self.bytes() == old(self).bytes(),
                wire::varuint_from(old(self).cursor(), 0, 0) == wire::varuint_from(
                    self.cursor(),
                    i as nat,
                    value as nat,
                ),
            decreases 5 - i,
        {
            proof {
                reveal(wire::get_varuint32);
            }
            let byte: u8 = self.read_u8()?;
            proof {
                reveal_with_fuel(wire::pow128, 6);
                assert((byte % 128) as nat * wire::pow128(i as nat) <= 127 * scale)
                    by (nonlinear_arith)
                    requires
                        byte % 128 <= 127,
                        scale == wire::pow128(i as nat),
                ;
            }
            value = value + (byte % 128) as u64 * scale;
            if byte < 128 {
                return if value > u32::MAX as u64 {
                    Err(AntelopeError::BadVarint)
                } else {
                    Ok(value as u32)
                };
            }
            if i >= 4 {
                return Err(AntelopeError::BadVarint);
            }
            scale = scale * 128;
            i = i + 1;
        }
    }

    pub fn read_varint32(&mut self) -> (r: Result<i32, AntelopeError>)
        ensures
            reads(wire::get_varint32(old(self).cursor()), r, *old(self), *final(self)),
    {
        let v: u32 = self.read_varuint32()?;
        let half: i32 = (v / 2) as i32;
        if v % 2 == 0 {
            Ok(half)
        } else {
            Ok(-half - 1)
        }
    }

    pub fn read_name(&mut self) -> (r: Result<Name, AntelopeError>)
        ensures
            reads(wire::get_name(old(self).cursor()), r, *old(self), *final(self)),
    {
        Ok(Name(self.read_u64()?))
    }

    /// Length-prefixed byte blob.
    pub fn read_bytes(&mut self) -> (r: Result<&'a [u8], AntelopeError>)
        ensures
            final(self).bytes() == old(self).bytes(),
            ({
                let (b, c) = wire::get_blob(old(self).cursor());
                &&& final(self).rest() == c.rest
                &&& match r {
                    Ok(v) => c.fault is None && v@ == b,
                    Err(e) => c.fault == Some(e.fault()),
                }
            }),
    {
        proof {
            reveal(wire::get_blob);
        }
        let len: usize = self.read_varuint32()? as usize;
        self.read_exact(len)
    }

    pub fn read_string(&mut self) -> (r: Result<String, AntelopeError>)
        ensures
            reads(wire::get_string(old(self).cursor()), r, *old(self), *final(self)),
    {
        let bytes: &[u8] = self.read_bytes()?;
        // Consoles and on-chain strings are not always valid UTF-8; be lossy
        // rather than dropping the whole trace.
        Ok(foreign::text_lossy(bytes))
    }

    pub fn read_checksum256(&mut self) -> (r: Result<[u8; 32], AntelopeError>)
        ensures
            final(self).bytes() == old(self).bytes(),
            ({
                let (b, c) = wire::get_exact(old(self).cursor(), 32);
                &&& final(self).rest() == c.rest
                &&& match r {
                    Ok(v) => c.fault is None && v@ == b,
                    Err(e) => c.fault == Some(e.fault()),
                }
            }),
    {
        proof {
            reveal(wire::get_exact);
        }
        let b: &[u8] = self.read_exact(32)?;
        let mut out: [u8; 32] = [0u8; 32];
        let mut i: usize = 0;
        while i < 32
            invariant
                i <= 32,
                b@.len() == 32,
                forall|k: int| 0 <= k < i ==> out@[k] == b@[k],
            decreases 32 - i,
        {
            out[i] = b[i];
            i = i + 1;
        }
        assert(out@ =~= b@);
        Ok(out)
    }

    pub fn read_checksum256_hex(&mut self) -> (r: Result<String, AntelopeError>)
        ensures
            reads(wire::get_digest(old(self).cursor()), r, *old(self), *final(self)),
    {
        Ok(foreign::hex_encode(self.read_exact(32)?))
    }
}

/// 256 to the power of `n`.
spec fn wire_bound(n: nat) -> nat
    decreases n,
{
    if n == 0 {
        1
    } else {
        256 * wire_bound((n - 1) as nat)
    }
}

proof fn lemma_wire_bound(n: nat)
    requires
        n <= 16,
    ensures
        wire_bound(n) <= 0x1_0000_0000_0000_0000_0000_0000_0000_0000,
{
    reveal_with_fuel(wire_bound, 17);
}

} // verus!
