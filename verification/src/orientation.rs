use vstd::prelude::*;
use vstd::bytes::{
    lemma_auto_spec_u32_to_from_le_bytes, spec_u32_from_le_bytes, spec_u32_to_le_bytes,
    u32_from_le_bytes, u32_to_le_bytes,
};

verus! {

/// A single-precision IEEE-754 number, carried by its bit pattern.
///
/// The library never computes with such numbers: it stores them, hands them
/// back and lays them out as bytes. `f32::to_bits` and `f32::from_bits` on
/// the caller's side are the two directions of the conversion, so the bytes
/// written here are those of `f32::to_le_bytes`.
#[derive(Clone, Copy, Debug, PartialEq, Eq, Structural)]
pub struct F32Bits {
    pub bits: u32,
}

impl F32Bits {
    /// Positive zero (`0.0f32`), whose bit pattern is all zeros.
    pub fn zero() -> (r: Self)
        ensures
            r.bits == 0,
    {
        F32Bits { bits: 0 }
    }
}

/// Pitch and roll of the frame.
#[derive(Clone, Copy, Debug, PartialEq, Eq, Structural)]
pub struct SpatialOrientation {
    pub pitch: F32Bits,
    pub roll: F32Bits,
}

/// Length of the byte form of a [`SpatialOrientation`].
pub const BUFF_SIZE: usize = 8;

/// The byte form of an orientation: pitch then roll, each little-endian.
pub open spec fn orientation_bytes(o: SpatialOrientation) -> Seq<u8> {
    spec_u32_to_le_bytes(o.pitch.bits) + spec_u32_to_le_bytes(o.roll.bits)
}

/// The orientation that eight bytes stand for.
pub open spec fn orientation_from_bytes(b: Seq<u8>) -> SpatialOrientation
    recommends
        b.len() == 8,
{
    SpatialOrientation {
        pitch: F32Bits { bits: spec_u32_from_le_bytes(b.subrange(0, 4)) },
        roll: F32Bits { bits: spec_u32_from_le_bytes(b.subrange(4, 8)) },
    }
}

impl SpatialOrientation {
    /// The orientation as bytes: the four little-endian bytes of the pitch
    /// followed by those of the roll.
    pub fn to_byte_array(&self) -> (r: [u8; 8])
        ensures
            r@ == orientation_bytes(*self),
    {
        proof {
            lemma_auto_spec_u32_to_from_le_bytes();
        }
        let p = u32_to_le_bytes(self.pitch.bits);
        let q = u32_to_le_bytes(self.roll.bits);
        let r: [u8; 8] = [p[0], p[1], p[2], p[3], q[0], q[1], q[2], q[3]];
        assert(r@ =~= orientation_bytes(*self));
        r
    }

    /// Reads an orientation back from the eight bytes of its byte form.
    pub fn from_byte_slice(bytes: &[u8]) -> (r: SpatialOrientation)
        requires
            bytes@.len() == BUFF_SIZE,
        ensures
            r == orientation_from_bytes(bytes@),
    {
        let p: [u8; 4] = [bytes[0], bytes[1], bytes[2], bytes[3]];
        let q: [u8; 4] = [bytes[4], bytes[5], bytes[6], bytes[7]];
        assert(p@ =~= bytes@.subrange(0, 4));
        assert(q@ =~= bytes@.subrange(4, 8));
        let pitch = u32_from_le_bytes(p.as_slice());
        let roll = u32_from_le_bytes(q.as_slice());
        SpatialOrientation { pitch: F32Bits { bits: pitch }, roll: F32Bits { bits: roll } }
    }
}

/// Reading back what `to_byte_array` wrote gives the same orientation, and
/// its byte form is always eight bytes long.
pub proof fn lemma_orientation_roundtrip(o: SpatialOrientation)
    ensures
        orientation_bytes(o).len() == BUFF_SIZE,
        orientation_from_bytes(orientation_bytes(o)) == o,
{
    lemma_auto_spec_u32_to_from_le_bytes();
    let b = orientation_bytes(o);
    assert(b.subrange(0, 4) =~= spec_u32_to_le_bytes(o.pitch.bits));
    assert(b.subrange(4, 8) =~= spec_u32_to_le_bytes(o.roll.bits));
}

/// The pitch comes first in the byte form, the roll after it: the first four
/// bytes read as a little-endian word give the pitch's bits, the last four
/// the roll's.
pub proof fn lemma_pitch_then_roll(o: SpatialOrientation)
    ensures
        orientation_bytes(o).len() == 8,
        spec_u32_from_le_bytes(orientation_bytes(o).subrange(0, 4)) == o.pitch.bits,
        spec_u32_from_le_bytes(orientation_bytes(o).subrange(4, 8)) == o.roll.bits,
        orientation_bytes(o).subrange(0, 4) == spec_u32_to_le_bytes(o.pitch.bits),
        orientation_bytes(o).subrange(4, 8) == spec_u32_to_le_bytes(o.roll.bits),
{
    lemma_auto_spec_u32_to_from_le_bytes();
    let b = orientation_bytes(o);
    assert(b.subrange(0, 4) =~= spec_u32_to_le_bytes(o.pitch.bits));
    assert(b.subrange(4, 8) =~= spec_u32_to_le_bytes(o.roll.bits));
}

/// Every eight bytes are the byte form of the orientation read from them.
pub proof fn lemma_bytes_roundtrip(b: Seq<u8>)
    requires
        b.len() == BUFF_SIZE,
    ensures
        orientation_bytes(orientation_from_bytes(b)) == b,
{
    lemma_auto_spec_u32_to_from_le_bytes();
    let lo = b.subrange(0, 4);
    let hi = b.subrange(4, 8);
    assert(spec_u32_to_le_bytes(spec_u32_from_le_bytes(lo)) == lo);
    assert(spec_u32_to_le_bytes(spec_u32_from_le_bytes(hi)) == hi);
    assert(lo + hi =~= b);
}

} // verus!
