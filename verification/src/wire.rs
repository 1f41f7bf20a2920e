//! Little-endian wire primitives shared by the whole V2 codec.
//!
//! Every fixed-width integer on the wire is little-endian.  For each width
//! there is a spec-level serializer (`ser_*`), a spec-level reader (`le*_at`),
//! exec writers that append to a byte vector, and exec readers that take a
//! slice and a position.  The exec functions are proved exact against the spec
//! functions, and the spec functions invert each other, which is what the
//! frame-level round-trip proofs build on.

use vstd::prelude::*;

verus! {

// ---------------------------------------------------------------------------
// Spec-level serialization
// ---------------------------------------------------------------------------

/// Wire bytes of a `u8`.
pub open spec fn ser_u8(v: u8) -> Seq<u8> {
    seq![v]
}

/// Wire byte of a boolean: 1 for true, 0 for false.
pub open spec fn ser_bool(b: bool) -> Seq<u8> {
    seq![if b { 1u8 } else { 0u8 }]
}

/// Little-endian wire bytes of a `u16`.
pub open spec fn ser_u16(v: u16) -> Seq<u8> {
    seq![(v % 256) as u8, (v / 256) as u8]
}

/// Little-endian wire bytes of the low 24 bits of a `u32`.
pub open spec fn ser_u24(v: u32) -> Seq<u8> {
    seq![(v % 256) as u8, ((v / 256) % 256) as u8, ((v / 65536) % 256) as u8]
}

/// Little-endian wire bytes of a `u32`.
pub open spec fn ser_u32(v: u32) -> Seq<u8> {
    seq![
        (v % 256) as u8,
        ((v / 256) % 256) as u8,
        ((v / 65536) % 256) as u8,
        ((v / 16777216) % 256) as u8,
    ]
}

// ---------------------------------------------------------------------------
// Spec-level readers
// ---------------------------------------------------------------------------

/// Value of the two little-endian bytes at `i`.
pub open spec fn le16_at(s: Seq<u8>, i: int) -> int {
    s[i] + 256 * s[i + 1]
}

/// Value of the three little-endian bytes at `i`.
pub open spec fn le24_at(s: Seq<u8>, i: int) -> int {
    s[i] + 256 * s[i + 1] + 65536 * s[i + 2]
}

/// Value of the four little-endian bytes at `i`.
pub open spec fn le32_at(s: Seq<u8>, i: int) -> int {
    s[i] + 256 * s[i + 1] + 65536 * s[i + 2] + 16777216 * s[i + 3]
}

// ---------------------------------------------------------------------------
// Exec writers
// ---------------------------------------------------------------------------

/// Append one byte.
pub fn write_u8(out: &mut Vec<u8>, v: u8)
    ensures
        final(out)@ == old(out)@ + ser_u8(v),
{
    out.push(v);
    proof {
        assert(out@ =~= old(out)@ + ser_u8(v));
    }
}

/// Append one boolean byte (1 or 0).
pub fn write_bool(out: &mut Vec<u8>, b: bool)
    ensures
        final(out)@ == old(out)@ + ser_bool(b),
{
    out.push(if b { 1u8 } else { 0u8 });
    proof {
        assert(out@ =~= old(out)@ + ser_bool(b));
    }
}

/// Append a `u16` in little-endian order.
pub fn write_u16(out: &mut Vec<u8>, v: u16)
    ensures
        final(out)@ == old(out)@ + ser_u16(v),
{
    out.push((v % 256) as u8);
    out.push((v / 256) as u8);
    proof {
        assert(out@ =~= old(out)@ + ser_u16(v));
    }
}

/// Append the low 24 bits of a `u32` in little-endian order.
pub fn write_u24(out: &mut Vec<u8>, v: u32)
    requires
        v < 0x1000000,
    ensures
        final(out)@ == old(out)@ + ser_u24(v),
{
    out.push((v % 256) as u8);
    out.push(((v / 256) % 256) as u8);
    out.push(((v / 65536) % 256) as u8);
    proof {
        assert(out@ =~= old(out)@ + ser_u24(v));
    }
}

/// Append a `u32` in little-endian order.
pub fn write_u32(out: &mut Vec<u8>, v: u32)
    ensures
        final(out)@ == old(out)@ + ser_u32(v),
{
    out.push((v % 256) as u8);
    out.push(((v / 256) % 256) as u8);
    out.push(((v / 65536) % 256) as u8);
    out.push(((v / 16777216) % 256) as u8);
    proof {
        assert(out@ =~= old(out)@ + ser_u32(v));
    }
}

/// Append a run of plain bytes.
pub fn write_bytes(out: &mut Vec<u8>, data: &Vec<u8>)
    ensures
        final(out)@ == old(out)@ + data@,
{
    let n = data.len();
    let mut k: usize = 0;
    while k < n
        invariant
            n == data@.len(),
            k <= n,
            out@ == old(out)@ + data@.subrange(0, k as int),
        decreases n - k,
    {
        out.push(data[k]);
        k = k + 1;
        proof {
            assert(out@ =~= old(out)@ + data@.subrange(0, k as int));
        }
    }
    proof {
        assert(data@.subrange(0, n as int) =~= data@);
    }
}

// ---------------------------------------------------------------------------
// Exec readers
// ---------------------------------------------------------------------------

/// Read one little-endian `u16` at `pos`.
pub fn read_u16(buf: &[u8], pos: usize) -> (r: u16)
    requires
        pos + 2 <= buf@.len(),
    ensures
        r == le16_at(buf@, pos as int),
{
    let b0 = buf[pos] as u16;
    let b1 = buf[pos + 1] as u16;
    b0 + 256 * b1
}

/// Read three little-endian bytes at `pos` as a `u32` below 2^24.
pub fn read_u24(buf: &[u8], pos: usize) -> (r: u32)
    requires
        pos + 3 <= buf@.len(),
    ensures
        r == le24_at(buf@, pos as int),
        r < 0x1000000,
{
    let b0 = buf[pos] as u32;
    let b1 = buf[pos + 1] as u32;
    let b2 = buf[pos + 2] as u32;
    b0 + 256 * b1 + 65536 * b2
}

/// Read one little-endian `u32` at `pos`.
pub fn read_u32(buf: &[u8], pos: usize) -> (r: u32)
    requires
        pos + 4 <= buf@.len(),
    ensures
        r == le32_at(buf@, pos as int),
{
    let b0 = buf[pos] as u32;
    let b1 = buf[pos + 1] as u32;
    let b2 = buf[pos + 2] as u32;
    let b3 = buf[pos + 3] as u32;
    b0 + 256 * b1 + 65536 * b2 + 16777216 * b3
}

/// Copy `n` bytes starting at `pos` into a fresh vector.
pub fn read_bytes(buf: &[u8], pos: usize, n: usize) -> (r: Vec<u8>)
    requires
        pos + n <= buf@.len(),
    ensures
        r@ == buf@.subrange(pos as int, pos as int + n as int),
{
    let len = buf.len();
    let mut r: Vec<u8> = Vec::new();
    let mut k: usize = 0;
    while k < n
        invariant
            pos + n <= len == buf@.len(),
            k <= n,
            r@ == buf@.subrange(pos as int, pos as int + k as int),
        decreases n - k,
    {
        r.push(buf[pos + k]);
        k = k + 1;
        proof {
            assert(r@ =~= buf@.subrange(pos as int, pos as int + k as int));
        }
    }
    r
}

} // verus!
