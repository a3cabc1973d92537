//! Reading and writing fixed-width unsigned integers in a chosen byte order.
//!
//! `Encoding` selects little- or big-endian layout. The spec functions below
//! define, for each width, the integer a byte sequence denotes and the byte
//! sequence an integer is laid out as; the round-trip lemmas show the two
//! directions invert each other.

use vstd::prelude::*;

verus! {

/// The byte order in which multi-byte integers are laid out.
#[derive(Debug, Clone, Copy, PartialEq, Eq, Structural)]
pub enum Encoding {
    Little,
    Big,
}

/// The `u16` denoted by the two bytes of `s` in byte order `e`.
pub open spec fn spec_read_u16(e: Encoding, s: Seq<u8>) -> u16
    recommends
        s.len() == 2,
{
    match e {
        Encoding::Little => (s[0] as u16) | (s[1] as u16) << 8,
        Encoding::Big => (s[1] as u16) | (s[0] as u16) << 8,
    }
}

/// The two bytes that lay out `x` in byte order `e`.
pub open spec fn spec_u16_bytes(e: Encoding, x: u16) -> Seq<u8> {
    match e {
        Encoding::Little => seq![(x & 0xff) as u8, ((x >> 8) & 0xff) as u8],
        Encoding::Big => seq![((x >> 8) & 0xff) as u8, (x & 0xff) as u8],
    }
}

/// The `u32` denoted by the four bytes of `s` in byte order `e`.
pub open spec fn spec_read_u32(e: Encoding, s: Seq<u8>) -> u32
    recommends
        s.len() == 4,
{
    match e {
        Encoding::Little => (s[0] as u32) | (s[1] as u32) << 8 | (s[2] as u32) << 16 | (s[3]
            as u32) << 24,
        Encoding::Big => (s[3] as u32) | (s[2] as u32) << 8 | (s[1] as u32) << 16 | (s[0]
            as u32) << 24,
    }
}

/// The four bytes that lay out `x` in byte order `e`.
pub open spec fn spec_u32_bytes(e: Encoding, x: u32) -> Seq<u8> {
    match e {
        Encoding::Little => seq![
            (x & 0xff) as u8,
            ((x >> 8) & 0xff) as u8,
            ((x >> 16) & 0xff) as u8,
            ((x >> 24) & 0xff) as u8,
        ],
        Encoding::Big => seq![
            ((x >> 24) & 0xff) as u8,
            ((x >> 16) & 0xff) as u8,
            ((x >> 8) & 0xff) as u8,
            (x & 0xff) as u8,
        ],
    }
}

/// The `u64` denoted by the eight bytes of `s` in byte order `e`.
pub open spec fn spec_read_u64(e: Encoding, s: Seq<u8>) -> u64
    recommends
        s.len() == 8,
{
    match e {
        Encoding::Little => (s[0] as u64) | (s[1] as u64) << 8 | (s[2] as u64) << 16 | (s[3]
            as u64) << 24 | (s[4] as u64) << 32 | (s[5] as u64) << 40 | (s[6] as u64) << 48 | (s[7]
            as u64) << 56,
        Encoding::Big => (s[7] as u64) | (s[6] as u64) << 8 | (s[5] as u64) << 16 | (s[4]
            as u64) << 24 | (s[3] as u64) << 32 | (s[2] as u64) << 40 | (s[1] as u64) << 48 | (s[0]
            as u64) << 56,
    }
}

/// The eight bytes that lay out `x` in byte order `e`.
pub open spec fn spec_u64_bytes(e: Encoding, x: u64) -> Seq<u8> {
    match e {
        Encoding::Little => seq![
            (x & 0xff) as u8,
            ((x >> 8) & 0xff) as u8,
            ((x >> 16) & 0xff) as u8,
            ((x >> 24) & 0xff) as u8,
            ((x >> 32) & 0xff) as u8,
            ((x >> 40) & 0xff) as u8,
            ((x >> 48) & 0xff) as u8,
            ((x >> 56) & 0xff) as u8,
        ],
        Encoding::Big => seq![
            ((x >> 56) & 0xff) as u8,
            ((x >> 48) & 0xff) as u8,
            ((x >> 40) & 0xff) as u8,
            ((x >> 32) & 0xff) as u8,
            ((x >> 24) & 0xff) as u8,
            ((x >> 16) & 0xff) as u8,
            ((x >> 8) & 0xff) as u8,
            (x & 0xff) as u8,
        ],
    }
}

impl Encoding {
    /// Read the `u16` laid out at `src[pos..pos + 2]` in this byte order.
    pub fn read_u16(&self, src: &[u8], pos: usize) -> (x: u16)
        requires
            pos + 2 <= src@.len(),
        ensures
            x == spec_read_u16(*self, src@.subrange(pos as int, pos as int + 2)),
    {
        let b0 = src[pos];
        let b1 = src[pos + 1];
        proof {
            let s = src@.subrange(pos as int, pos as int + 2);
            assert(s[0] == src@[pos as int]);
            assert(s[1] == src@[pos as int + 1]);
        }
        match self {
            Encoding::Little => (b0 as u16) | (b1 as u16) << 8,
            Encoding::Big => (b1 as u16) | (b0 as u16) << 8,
        }
    }

    /// Read the `u32` laid out at `src[pos..pos + 4]` in this byte order.
    pub fn read_u32(&self, src: &[u8], pos: usize) -> (x: u32)
        requires
            pos + 4 <= src@.len(),
        ensures
            x == spec_read_u32(*self, src@.subrange(pos as int, pos as int + 4)),
    {
        let b0 = src[pos];
        let b1 = src[pos + 1];
        let b2 = src[pos + 2];
        let b3 = src[pos + 3];
        proof {
            let s = src@.subrange(pos as int, pos as int + 4);
            assert(s[0] == src@[pos as int]);
            assert(s[1] == src@[pos as int + 1]);
            assert(s[2] == src@[pos as int + 2]);
            assert(s[3] == src@[pos as int + 3]);
        }
        match self {
            Encoding::Little => (b0 as u32) | (b1 as u32) << 8 | (b2 as u32) << 16 | (b3
                as u32) << 24,
            Encoding::Big => (b3 as u32) | (b2 as u32) << 8 | (b1 as u32) << 16 | (b0
                as u32) << 24,
        }
    }

    /// Read the `u64` laid out at `src[pos..pos + 8]` in this byte order.
    pub fn read_u64(&self, src: &[u8], pos: usize) -> (x: u64)
        requires
            pos + 8 <= src@.len(),
        ensures
            x == spec_read_u64(*self, src@.subrange(pos as int, pos as int + 8)),
    {
        let b0 = src[pos];
        let b1 = src[pos + 1];
        let b2 = src[pos + 2];
        let b3 = src[pos + 3];
        let b4 = src[pos + 4];
        let b5 = src[pos + 5];
        let b6 = src[pos + 6];
        let b7 = src[pos + 7];
        proof {
            let s = src@.subrange(pos as int, pos as int + 8);
            assert(s[0] == src@[pos as int]);
            assert(s[1] == src@[pos as int + 1]);
            assert(s[2] == src@[pos as int + 2]);
            assert(s[3] == src@[pos as int + 3]);
            assert(s[4] == src@[pos as int + 4]);
            assert(s[5] == src@[pos as int + 5]);
            assert(s[6] == src@[pos as int + 6]);
            assert(s[7] == src@[pos as int + 7]);
        }
        match self {
            Encoding::Little => (b0 as u64) | (b1 as u64) << 8 | (b2 as u64) << 16 | (b3
                as u64) << 24 | (b4 as u64) << 32 | (b5 as u64) << 40 | (b6 as u64) << 48 | (b7
                as u64) << 56,
            Encoding::Big => (b7 as u64) | (b6 as u64) << 8 | (b5 as u64) << 16 | (b4
                as u64) << 24 | (b3 as u64) << 32 | (b2 as u64) << 40 | (b1 as u64) << 48 | (b0
                as u64) << 56,
        }
    }

    /// Append the single byte `value` to `target`.
    pub fn write_u8(&self, value: u8, target: &mut Vec<u8>)
        ensures
            final(target)@ == old(target)@.push(value),
    {
        target.push(value);
    }

    /// Append the two bytes that lay out `value` in this byte order.
    pub fn write_u16(&self, value: u16, target: &mut Vec<u8>)
        ensures
            final(target)@ == old(target)@ + spec_u16_bytes(*self, value),
    {
        match self {
            Encoding::Little => {
                target.push((value & 0xff) as u8);
                target.push(((value >> 8) & 0xff) as u8);
            },
            Encoding::Big => {
                target.push(((value >> 8) & 0xff) as u8);
                target.push((value & 0xff) as u8);
            },
        }
        proof {
            assert(target@ =~= old(target)@ + spec_u16_bytes(*self, value));
        }
    }

    /// Append the four bytes that lay out `value` in this byte order.
    pub fn write_u32(&self, value: u32, target: &mut Vec<u8>)
        ensures
            final(target)@ == old(target)@ + spec_u32_bytes(*self, value),
    {
        match self {
            Encoding::Little => {
                target.push((value & 0xff) as u8);
                target.push(((value >> 8) & 0xff) as u8);
                target.push(((value >> 16) & 0xff) as u8);
                target.push(((value >> 24) & 0xff) as u8);
            },
            Encoding::Big => {
                target.push(((value >> 24) & 0xff) as u8);
                target.push(((value >> 16) & 0xff) as u8);
                target.push(((value >> 8) & 0xff) as u8);
                target.push((value & 0xff) as u8);
            },
        }
        proof {
            assert(target@ =~= old(target)@ + spec_u32_bytes(*self, value));
        }
    }

    /// Append the eight bytes that lay out `value` in this byte order.
    pub fn write_u64(&self, value: u64, target: &mut Vec<u8>)
        ensures
            final(target)@ == old(target)@ + spec_u64_bytes(*self, value),
    {
        match self {
            Encoding::Little => {
                target.push((value & 0xff) as u8);
                target.push(((value >> 8) & 0xff) as u8);
                target.push(((value >> 16) & 0xff) as u8);
                target.push(((value >> 24) & 0xff) as u8);
                target.push(((value >> 32) & 0xff) as u8);
                target.push(((value >> 40) & 0xff) as u8);
                target.push(((value >> 48) & 0xff) as u8);
                target.push(((value >> 56) & 0xff) as u8);
            },
            Encoding::Big => {
                target.push(((value >> 56) & 0xff) as u8);
                target.push(((value >> 48) & 0xff) as u8);
                target.push(((value >> 40) & 0xff) as u8);
                target.push(((value >> 32) & 0xff) as u8);
                target.push(((value >> 24) & 0xff) as u8);
                target.push(((value >> 16) & 0xff) as u8);
                target.push(((value >> 8) & 0xff) as u8);
                target.push((value & 0xff) as u8);
            },
        }
        proof {
            assert(target@ =~= old(target)@ + spec_u64_bytes(*self, value));
        }
    }
}

/// Laying out a `u16` and reading it back yields the same integer.
pub proof fn lemma_u16_round_trip(e: Encoding, x: u16)
    ensures
        spec_u16_bytes(e, x).len() == 2,
        spec_read_u16(e, spec_u16_bytes(e, x)) == x,
{
    assert(((x & 0xff) as u8 as u16) | (((x >> 8) & 0xff) as u8 as u16) << 8 == x)
        by (bit_vector);
}

/// Reading a two-byte sequence and laying the integer out again yields the
/// same bytes.
pub proof fn lemma_u16_bytes_round_trip(e: Encoding, s: Seq<u8>)
    requires
        s.len() == 2,
    ensures
        spec_u16_bytes(e, spec_read_u16(e, s)) == s,
{
    let b0 = s[0];
    let b1 = s[1];
    let x = (b0 as u16) | (b1 as u16) << 8;
    assert((x & 0xff) as u8 == b0 && ((x >> 8) & 0xff) as u8 == b1) by (bit_vector)
        requires
            x == (b0 as u16) | (b1 as u16) << 8,
    ;
    let y = (b1 as u16) | (b0 as u16) << 8;
    assert((y & 0xff) as u8 == b1 && ((y >> 8) & 0xff) as u8 == b0) by (bit_vector)
        requires
            y == (b1 as u16) | (b0 as u16) << 8,
    ;
    assert(spec_u16_bytes(e, spec_read_u16(e, s)) =~= s);
}

/// Laying out a `u32` and reading it back yields the same integer.
pub proof fn lemma_u32_round_trip(e: Encoding, x: u32)
    ensures
        spec_u32_bytes(e, x).len() == 4,
        spec_read_u32(e, spec_u32_bytes(e, x)) == x,
{
    assert(((x & 0xff) as u8 as u32) | (((x >> 8) & 0xff) as u8 as u32) << 8 | (((x >> 16) & 0xff)
        as u8 as u32) << 16 | (((x >> 24) & 0xff) as u8 as u32) << 24 == x) by (bit_vector);
}

/// Reading a four-byte sequence and laying the integer out again yields the
/// same bytes.
pub proof fn lemma_u32_bytes_round_trip(e: Encoding, s: Seq<u8>)
    requires
        s.len() == 4,
    ensures
        spec_u32_bytes(e, spec_read_u32(e, s)) == s,
{
    let b0 = s[0];
    let b1 = s[1];
    let b2 = s[2];
    let b3 = s[3];
    let x = (b0 as u32) | (b1 as u32) << 8 | (b2 as u32) << 16 | (b3 as u32) << 24;
    assert((x & 0xff) as u8 == b0 && ((x >> 8) & 0xff) as u8 == b1 && ((x >> 16) & 0xff) as u8 == b2
        && ((x >> 24) & 0xff) as u8 == b3) by (bit_vector)
        requires
            x == (b0 as u32) | (b1 as u32) << 8 | (b2 as u32) << 16 | (b3 as u32) << 24,
    ;
    let y = (b3 as u32) | (b2 as u32) << 8 | (b1 as u32) << 16 | (b0 as u32) << 24;
    assert((y & 0xff) as u8 == b3 && ((y >> 8) & 0xff) as u8 == b2 && ((y >> 16) & 0xff) as u8 == b1
        && ((y >> 24) & 0xff) as u8 == b0) by (bit_vector)
        requires
            y == (b3 as u32) | (b2 as u32) << 8 | (b1 as u32) << 16 | (b0 as u32) << 24,
    ;
    assert(spec_u32_bytes(e, spec_read_u32(e, s)) =~= s);
}

/// Laying out a `u64` and reading it back yields the same integer.
pub proof fn lemma_u64_round_trip(e: Encoding, x: u64)
    ensures
        spec_u64_bytes(e, x).len() == 8,
        spec_read_u64(e, spec_u64_bytes(e, x)) == x,
{
    assert(((x & 0xff) as u8 as u64) | (((x >> 8) & 0xff) as u8 as u64) << 8 | (((x >> 16) & 0xff)
        as u8 as u64) << 16 | (((x >> 24) & 0xff) as u8 as u64) << 24 | (((x >> 32) & 0xff) as u8
        as u64) << 32 | (((x >> 40) & 0xff) as u8 as u64) << 40 | (((x >> 48) & 0xff) as u8
        as u64) << 48 | (((x >> 56) & 0xff) as u8 as u64) << 56 == x) by (bit_vector);
}

/// Reading an eight-byte sequence and laying the integer out again yields the
/// same bytes.
pub proof fn lemma_u64_bytes_round_trip(e: Encoding, s: Seq<u8>)
    requires
        s.len() == 8,
    ensures
        spec_u64_bytes(e, spec_read_u64(e, s)) == s,
{
    let b0 = s[0];
    let b1 = s[1];
    let b2 = s[2];
    let b3 = s[3];
    let b4 = s[4];
    let b5 = s[5];
    let b6 = s[6];
    let b7 = s[7];
    let x = (b0 as u64) | (b1 as u64) << 8 | (b2 as u64) << 16 | (b3 as u64) << 24 | (b4
        as u64) << 32 | (b5 as u64) << 40 | (b6 as u64) << 48 | (b7 as u64) << 56;
    assert((x & 0xff) as u8 == b0 && ((x >> 8) & 0xff) as u8 == b1 && ((x >> 16) & 0xff) as u8 == b2
        && ((x >> 24) & 0xff) as u8 == b3 && ((x >> 32) & 0xff) as u8 == b4 && ((x >> 40) & 0xff)
        as u8 == b5 && ((x >> 48) & 0xff) as u8 == b6 && ((x >> 56) & 0xff) as u8 == b7)
        by (bit_vector)
        requires
            x == (b0 as u64) | (b1 as u64) << 8 | (b2 as u64) << 16 | (b3 as u64) << 24 | (b4
                as u64) << 32 | (b5 as u64) << 40 | (b6 as u64) << 48 | (b7 as u64) << 56,
    ;
    let y = (b7 as u64) | (b6 as u64) << 8 | (b5 as u64) << 16 | (b4 as u64) << 24 | (b3
        as u64) << 32 | (b2 as u64) << 40 | (b1 as u64) << 48 | (b0 as u64) << 56;
    assert((y & 0xff) as u8 == b7 && ((y >> 8) & 0xff) as u8 == b6 && ((y >> 16) & 0xff) as u8 == b5
        && ((y >> 24) & 0xff) as u8 == b4 && ((y >> 32) & 0xff) as u8 == b3 && ((y >> 40) & 0xff)
        as u8 == b2 && ((y >> 48) & 0xff) as u8 == b1 && ((y >> 56) & 0xff) as u8 == b0)
        by (bit_vector)
        requires
            y == (b7 as u64) | (b6 as u64) << 8 | (b5 as u64) << 16 | (b4 as u64) << 24 | (b3
                as u64) << 32 | (b2 as u64) << 40 | (b1 as u64) << 48 | (b0 as u64) << 56,
    ;
    assert(spec_u64_bytes(e, spec_read_u64(e, s)) =~= s);
}

} // verus!
