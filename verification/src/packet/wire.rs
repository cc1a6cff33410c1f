use vstd::prelude::*;

verus! {

/// The two bytes of `v` in network (big-endian) order.
pub open spec fn be16_bytes(v: u16) -> Seq<u8> {
    seq![(v / 256) as u8, (v % 256) as u8]
}

/// The 16-bit value whose network-order bytes are `hi`, `lo`.
pub open spec fn be16_value(hi: u8, lo: u8) -> u16 {
    (hi as nat * 256 + lo as nat) as u16
}

/// The four bytes of `v` in network (big-endian) order.
pub open spec fn be32_bytes(v: u32) -> Seq<u8> {
    seq![
        (v / 0x1000000) as u8,
        ((v / 0x10000) % 256) as u8,
        ((v / 256) % 256) as u8,
        (v % 256) as u8,
    ]
}

/// The 32-bit value whose network-order bytes are `b0` .. `b3`.
pub open spec fn be32_value(b0: u8, b1: u8, b2: u8, b3: u8) -> u32 {
    (b0 as nat * 0x1000000 + b1 as nat * 0x10000 + b2 as nat * 256 + b3 as nat) as u32
}

pub proof fn lemma_be16_roundtrip(v: u16)
    ensures
        be16_value(be16_bytes(v)[0], be16_bytes(v)[1]) == v,
{
}

pub proof fn lemma_be16_bytes_of_value(hi: u8, lo: u8)
    ensures
        be16_bytes(be16_value(hi, lo)) == seq![hi, lo],
{
    assert(be16_bytes(be16_value(hi, lo)) =~= seq![hi, lo]);
}

pub proof fn lemma_be32_roundtrip(v: u32)
    ensures
        ({
            let b = be32_bytes(v);
            be32_value(b[0], b[1], b[2], b[3]) == v
        }),
{
}

pub proof fn lemma_be32_bytes_of_value(b0: u8, b1: u8, b2: u8, b3: u8)
    ensures
        be32_bytes(be32_value(b0, b1, b2, b3)) == seq![b0, b1, b2, b3],
{
    let v: nat = b0 as nat * 0x1000000 + b1 as nat * 0x10000 + b2 as nat * 256 + b3 as nat;
    assert(v < 0x100000000) by (nonlinear_arith)
        requires v == b0 as nat * 0x1000000 + b1 as nat * 0x10000 + b2 as nat * 256 + b3 as nat,
            b0 < 256, b1 < 256, b2 < 256, b3 < 256;
    assert(v / 0x1000000 == b0 && (v / 0x10000) % 256 == b1 && (v / 256) % 256 == b2 && v % 256 == b3)
        by (nonlinear_arith)
        requires v == b0 as nat * 0x1000000 + b1 as nat * 0x10000 + b2 as nat * 256 + b3 as nat,
            b0 < 256, b1 < 256, b2 < 256, b3 < 256;
    assert(be32_value(b0, b1, b2, b3) as nat == v);
    assert(be32_bytes(be32_value(b0, b1, b2, b3)) =~= seq![b0, b1, b2, b3]);
}

/// Appends `v` in network byte order.
pub fn push_be16(buf: &mut Vec<u8>, v: u16)
    ensures
        final(buf)@ == old(buf)@ + be16_bytes(v),
{
    buf.push((v / 256) as u8);
    buf.push((v % 256) as u8);
    assert(final(buf)@ =~= old(buf)@ + be16_bytes(v));
}

/// Appends `v` in network byte order.
pub fn push_be32(buf: &mut Vec<u8>, v: u32)
    ensures
        final(buf)@ == old(buf)@ + be32_bytes(v),
{
    buf.push((v / 0x1000000) as u8);
    buf.push(((v / 0x10000) % 256) as u8);
    buf.push(((v / 256) % 256) as u8);
    buf.push((v % 256) as u8);
    assert(final(buf)@ =~= old(buf)@ + be32_bytes(v));
}

/// Reads the 16-bit network-order value at `at`.
pub fn read_be16(buf: &[u8], at: usize) -> (r: u16)
    requires
        at + 1 < buf@.len(),
    ensures
        r == be16_value(buf@[at as int], buf@[at + 1]),
{
    buf[at] as u16 * 256 + buf[at + 1] as u16
}

/// Reads the 32-bit network-order value at `at`.
pub fn read_be32(buf: &[u8], at: usize) -> (r: u32)
    requires
        at + 3 < buf@.len(),
    ensures
        r == be32_value(buf@[at as int], buf@[at + 1], buf@[at + 2], buf@[at + 3]),
{
    buf[at] as u32 * 0x1000000 + buf[at + 1] as u32 * 0x10000 + buf[at + 2] as u32 * 256
        + buf[at + 3] as u32
}

/// Appends all of `data`.
pub fn extend_bytes(buf: &mut Vec<u8>, data: &[u8])
    ensures
        final(buf)@ == old(buf)@ + data@,
{
    let mut i: usize = 0;
    while i < data.len()
        invariant
            i <= data@.len(),
            buf@ == old(buf)@ + data@.take(i as int),
        decreases data.len() - i,
    {
        buf.push(data[i]);
        i = i + 1;
        assert(buf@ =~= old(buf)@ + data@.take(i as int));
    }
    assert(data@.take(data@.len() as int) =~= data@);
}

/// Overwrites the two bytes at `at` with `v` in network byte order.
pub fn write_be16_at(buf: &mut Vec<u8>, at: usize, v: u16)
    requires
        at + 1 < old(buf)@.len(),
    ensures
        final(buf)@ == old(buf)@.take(at as int) + be16_bytes(v) + old(buf)@.skip(at + 2),
{
    let total = buf.len();
    assert(at + 1 < total);
    let next = at + 1;
    buf.set(at, (v / 256) as u8);
    buf.set(next, (v % 256) as u8);
    assert(final(buf)@ =~= old(buf)@.take(at as int) + be16_bytes(v) + old(buf)@.skip(at + 2));
}

/// A byte as a 16-bit number.
pub fn widen_byte(b: u8) -> (r: u16)
    ensures
        r == b,
{
    b as u16
}

/// A byte as a 64-bit number.
pub fn widen_byte_u64(b: u8) -> (r: u64)
    ensures
        r == b,
{
    b as u64
}

/// An index that fits in 16 bits, as a 16-bit number.
pub fn index_u16(i: usize) -> (r: u16)
    requires
        i <= u16::MAX,
    ensures
        r == i,
{
    i as u16
}


/// A 16-bit value read from two bytes is their big-endian value, with
/// nothing cut off.
pub proof fn lemma_be16_value_exact(hi: u8, lo: u8)
    ensures
        be16_value(hi, lo) == hi * 256 + lo,
{
}

/// A 32-bit value read from four bytes is their big-endian value, with
/// nothing cut off.
pub proof fn lemma_be32_value_exact(b0: u8, b1: u8, b2: u8, b3: u8)
    ensures
        be32_value(b0, b1, b2, b3) == b0 * 0x1000000 + b1 * 0x10000 + b2 * 256 + b3,
{
    let v: nat = b0 as nat * 0x1000000 + b1 as nat * 0x10000 + b2 as nat * 256 + b3 as nat;
    assert(v < 0x100000000) by (nonlinear_arith)
        requires v == b0 as nat * 0x1000000 + b1 as nat * 0x10000 + b2 as nat * 256 + b3 as nat,
            b0 < 256, b1 < 256, b2 < 256, b3 < 256;
}

} // verus!
