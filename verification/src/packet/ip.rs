use vstd::prelude::*;

use crate::packet::wire::{be16_bytes, be16_value, lemma_be16_roundtrip, push_be16, read_be16};

verus! {

pub const IPV4_HEADER_LEN: usize = 20;
pub const IP_PROTO_ICMP: u8 = 1;
pub const IP_PROTO_TCP: u8 = 6;
pub const IP_PROTO_UDP: u8 = 17;

/// The fixed twenty-byte IPv4 header (no options); addresses are held as
/// their four octets in network order.
#[derive(Debug, Clone, Copy)]
pub struct Ipv4Header {
    pub version: u8,
    pub ihl: u8,
    pub dscp: u8,
    pub ecn: u8,
    pub total_length: u16,
    pub identification: u16,
    pub flags: u8,
    pub fragment_offset: u16,
    pub ttl: u8,
    pub protocol: u8,
    pub checksum: u16,
    pub source: [u8; 4],
    pub destination: [u8; 4],
}

/// The header's twenty bytes with `csum` in the checksum field; each bit
/// field keeps only as many low bits as it has room for.
pub open spec fn ipv4_wire_with(h: Ipv4Header, csum: u16) -> Seq<u8> {
    seq![
        ((h.version % 16) * 16 + h.ihl % 16) as u8,
        ((h.dscp % 64) * 4 + h.ecn % 4) as u8,
    ] + be16_bytes(h.total_length) + be16_bytes(h.identification) + seq![
        ((h.flags % 8) * 32 + (h.fragment_offset / 256) % 32) as u8,
        (h.fragment_offset % 256) as u8,
        h.ttl,
        h.protocol,
    ] + be16_bytes(csum) + h.source@ + h.destination@
}

/// The checksum that `encode` writes: over the header with a zero checksum field.
pub open spec fn ipv4_header_checksum(h: Ipv4Header) -> u16 {
    checksum_spec(ipv4_wire_with(h, 0))
}

/// The bytes that `encode` produces.
pub open spec fn ipv4_wire(h: Ipv4Header) -> Seq<u8> {
    ipv4_wire_with(h, ipv4_header_checksum(h))
}

/// The header read from the first twenty bytes of `buf`.
pub open spec fn ipv4_from_wire(buf: Seq<u8>) -> Ipv4Header {
    Ipv4Header {
        version: buf[0] / 16,
        ihl: buf[0] % 16,
        dscp: buf[1] / 4,
        ecn: buf[1] % 4,
        total_length: be16_value(buf[2], buf[3]),
        identification: be16_value(buf[4], buf[5]),
        flags: buf[6] / 32,
        fragment_offset: ((buf[6] % 32) as nat * 256 + buf[7] as nat) as u16,
        ttl: buf[8],
        protocol: buf[9],
        checksum: be16_value(buf[10], buf[11]),
        source: [buf[12], buf[13], buf[14], buf[15]],
        destination: [buf[16], buf[17], buf[18], buf[19]],
    }
}

/// Sum of the data read as big-endian 16-bit words; an odd trailing byte
/// counts as the high byte of a last word.
pub open spec fn word_sum(data: Seq<u8>) -> nat
    decreases data.len(),
{
    if data.len() == 0 {
        0
    } else if data.len() == 1 {
        data[0] as nat * 256
    } else {
        (data[0] as nat * 256 + data[1] as nat) + word_sum(data.skip(2))
    }
}

/// Adds the carries above 16 bits back into the low 16 bits until none is left.
pub open spec fn fold_carries(s: nat) -> nat
    decreases s,
{
    if s < 0x10000 {
        s
    } else {
        fold_carries(s / 0x10000 + s % 0x10000)
    }
}

/// The Internet checksum (RFC 1071): the ones' complement of the ones'
/// complement sum of the data's 16-bit words.
pub open spec fn checksum_spec(data: Seq<u8>) -> u16 {
    (0xFFFF - fold_carries(word_sum(data))) as u16
}

/// Longest input whose word sum fits the 32-bit accumulator.
pub open spec fn checksum_input_fits(len: int) -> bool {
    len <= 131074
}

pub proof fn lemma_fold_carries_bounds(s: nat)
    ensures
        fold_carries(s) < 0x10000,
        fold_carries(s) % 65535 == s % 65535,
        s == 0 <==> fold_carries(s) == 0,
    decreases s,
{
    if s >= 0x10000 {
        let q = s / 0x10000;
        let r = s % 0x10000;
        assert(s == 0x10000 * q + r);
        assert((0x10000 * q + r) % 65535 == (q + r) % 65535) by (nonlinear_arith)
            requires q >= 0, r >= 0;
        assert(q + r < s);
        lemma_fold_carries_bounds((q + r) as nat);
    }
}

/// The word sum of a concatenation whose first part has an even length is
/// the sum of the parts' word sums.
pub proof fn lemma_word_sum_append(a: Seq<u8>, b: Seq<u8>)
    requires
        a.len() % 2 == 0,
    ensures
        word_sum(a + b) == word_sum(a) + word_sum(b),
    decreases a.len(),
{
    if a.len() == 0 {
        assert(a + b =~= b);
    } else {
        assert((a + b).skip(2) =~= a.skip(2) + b);
        lemma_word_sum_append(a.skip(2), b);
    }
}

/// Checksum verification: when the checksum computed over data whose 16-bit
/// checksum field (at an even offset) is zero is written into that field, the
/// checksum of the result is zero, which is what a receiver checks.
pub proof fn lemma_checksum_field_verifies(prefix: Seq<u8>, suffix: Seq<u8>)
    requires
        prefix.len() % 2 == 0,
    ensures
        ({
            let c = checksum_spec(prefix + seq![0u8, 0u8] + suffix);
            checksum_spec(prefix + be16_bytes(c) + suffix) == 0
        }),
{
    let zero_field = seq![0u8, 0u8];
    let c = checksum_spec(prefix + zero_field + suffix);
    let field = be16_bytes(c);
    lemma_word_sum_append(prefix, zero_field + suffix);
    lemma_word_sum_append(zero_field, suffix);
    lemma_word_sum_append(prefix, field + suffix);
    lemma_word_sum_append(field, suffix);
    assert(prefix + zero_field + suffix =~= prefix + (zero_field + suffix));
    assert(prefix + field + suffix =~= prefix + (field + suffix));
    assert(word_sum(zero_field.skip(2)) == 0);
    assert(word_sum(field.skip(2)) == 0);
    assert(word_sum(zero_field) == 0);
    assert(word_sum(field) == c as nat);
    let s0 = word_sum(prefix + zero_field + suffix);
    lemma_fold_carries_bounds(s0);
    let f = fold_carries(s0);
    assert(c as nat == 65535 - f);
    let s1 = word_sum(prefix + field + suffix);
    assert(s1 == s0 + c);
    lemma_fold_carries_bounds(s1);
    assert(s1 > 0);
    assert((s0 + (65535 - f)) % 65535 == 0) by (nonlinear_arith)
        requires f % 65535 == s0 % 65535, f <= 65535;
    assert(fold_carries(s1) == 65535);
}

/// The Internet checksum of `data`.
pub fn internet_checksum(data: &[u8]) -> (r: u16)
    requires
        checksum_input_fits(data@.len() as int),
    ensures
        r == checksum_spec(data@),
{
    let mut sum: u32 = 0;
    let mut i: usize = 0;
    assert(data@.skip(0) =~= data@);
    while i + 1 < data.len()
        invariant
            i <= data.len(),
            i % 2 == 0,
            checksum_input_fits(data@.len() as int),
            sum as int + word_sum(data@.skip(i as int)) == word_sum(data@),
            sum as int <= 65535 * (i as int / 2),
        decreases data.len() - i,
    {
        assert(data@.skip(i as int).skip(2) =~= data@.skip(i + 2));
        sum = sum + (data[i] as u32 * 256 + data[i + 1] as u32);
        i = i + 2;
    }
    if i < data.len() {
        assert(data@.skip(i as int).len() == 1);
        sum = sum + data[i] as u32 * 256;
    } else {
        assert(data@.skip(i as int).len() == 0);
    }
    let ghost total = word_sum(data@);
    assert(sum == total);
    while sum >= 0x10000
        invariant
            fold_carries(sum as nat) == fold_carries(total),
        decreases sum,
    {
        sum = sum % 0x10000 + sum / 0x10000;
    }
    proof {
        lemma_fold_carries_bounds(total);
    }
    0xFFFF - sum as u16
}

impl Ipv4Header {
    /// The header's twenty bytes in network order, with the header checksum
    /// computed and written into bytes 10 and 11 (the `checksum` field itself
    /// is not written).
    pub fn encode(&self) -> (r: Vec<u8>)
        ensures
            r@ == ipv4_wire(*self),
            r@.len() == IPV4_HEADER_LEN,
    {
        let mut buf: Vec<u8> = Vec::new();
        buf.push((self.version % 16) * 16 + self.ihl % 16);
        buf.push((self.dscp % 64) * 4 + self.ecn % 4);
        push_be16(&mut buf, self.total_length);
        push_be16(&mut buf, self.identification);
        buf.push((self.flags % 8) * 32 + ((self.fragment_offset / 256) % 32) as u8);
        buf.push((self.fragment_offset % 256) as u8);
        buf.push(self.ttl);
        buf.push(self.protocol);
        buf.push(0);
        buf.push(0);
        buf.push(self.source[0]);
        buf.push(self.source[1]);
        buf.push(self.source[2]);
        buf.push(self.source[3]);
        buf.push(self.destination[0]);
        buf.push(self.destination[1]);
        buf.push(self.destination[2]);
        buf.push(self.destination[3]);
        assert(buf@ =~= ipv4_wire_with(*self, 0));
        let csum = internet_checksum(buf.as_slice());
        buf.set(10, (csum / 256) as u8);
        buf.set(11, (csum % 256) as u8);
        assert(buf@ =~= ipv4_wire(*self));
        buf
    }

    /// The header at the start of `buf`; `None` when `buf` is shorter than a header.
    pub fn decode(buf: &[u8]) -> (r: Option<Self>)
        ensures
            r is Some <==> buf@.len() >= IPV4_HEADER_LEN,
            r matches Some(h) ==> h == ipv4_from_wire(buf@),
    {
        if buf.len() < IPV4_HEADER_LEN {
            return None;
        }
        Some(
            Ipv4Header {
                version: buf[0] / 16,
                ihl: buf[0] % 16,
                dscp: buf[1] / 4,
                ecn: buf[1] % 4,
                total_length: read_be16(buf, 2),
                identification: read_be16(buf, 4),
                flags: buf[6] / 32,
                fragment_offset: (buf[6] % 32) as u16 * 256 + buf[7] as u16,
                ttl: buf[8],
                protocol: buf[9],
                checksum: read_be16(buf, 10),
                source: [buf[12], buf[13], buf[14], buf[15]],
                destination: [buf[16], buf[17], buf[18], buf[19]],
            },
        )
    }
}

/// An encoded header checks out: its checksum over all twenty bytes is zero.
pub proof fn lemma_ipv4_encoded_checksum_verifies(h: Ipv4Header)
    ensures
        checksum_spec(ipv4_wire(h)) == 0,
{
    let w0 = ipv4_wire_with(h, 0);
    let prefix = w0.take(10);
    let suffix = w0.skip(12);
    assert(w0 =~= prefix + seq![0u8, 0u8] + suffix);
    assert(ipv4_wire(h) =~= prefix + be16_bytes(ipv4_header_checksum(h)) + suffix);
    lemma_checksum_field_verifies(prefix, suffix);
}

/// Decoding what was encoded gives the header back, each bit field cut to its
/// width and the checksum field holding the computed header checksum.
pub proof fn lemma_ipv4_decode_encode(h: Ipv4Header)
    ensures
        ipv4_from_wire(ipv4_wire(h)) == (Ipv4Header {
            version: h.version % 16,
            ihl: h.ihl % 16,
            dscp: h.dscp % 64,
            ecn: h.ecn % 4,
            flags: h.flags % 8,
            fragment_offset: h.fragment_offset % 8192,
            checksum: ipv4_header_checksum(h),
            ..h
        }),
{
    lemma_be16_roundtrip(h.total_length);
    lemma_be16_roundtrip(h.identification);
    lemma_be16_roundtrip(ipv4_header_checksum(h));
    let d = ipv4_from_wire(ipv4_wire(h));
    assert(d.source@ =~= h.source@);
    assert(d.destination@ =~= h.destination@);
    assert(d.version == h.version % 16);
    assert(d.ihl == h.ihl % 16);
    assert(d.dscp == h.dscp % 64);
    assert(d.ecn == h.ecn % 4);
    assert(d.flags == h.flags % 8);
    assert(d.fragment_offset == h.fragment_offset % 8192);
    assert(d.source == h.source);
    assert(d.destination == h.destination);
}

/// The big-endian word at index `k` of `data` (an odd trailing byte counts
/// as the high byte of a last word); zero where `k` is past the end.
pub open spec fn word_at(data: Seq<u8>, k: int) -> nat {
    if 0 <= k && 2 * k + 1 < data.len() {
        data[2 * k] as nat * 256 + data[2 * k + 1] as nat
    } else if 0 <= k && 2 * k < data.len() {
        data[2 * k] as nat * 256
    } else {
        0
    }
}

/// What pnet's `util::checksum` returns: zero for no data, otherwise the
/// Internet checksum with the word at index `skipword` left out.
pub open spec fn pnet_checksum_spec(data: Seq<u8>, skipword: int) -> u16 {
    if data.len() == 0 {
        0
    } else {
        (0xFFFF - fold_carries((word_sum(data) - word_at(data, skipword)) as nat)) as u16
    }
}

/// Calls pnet_packet's `util::checksum(data, skipword)`. Trusted, as its
/// source shows: it returns 0 for empty data; otherwise it sums the data's
/// big-endian 16-bit words (an odd last byte as a high byte), leaving out the
/// word at index `skipword`, folds the carries back into 16 bits and returns
/// the complement. Its 32-bit sum cannot overflow for the lengths admitted.
#[verifier::external_body]
pub(crate) fn pnet_checksum(data: &[u8], skipword: usize) -> (r: u16)
    requires
        checksum_input_fits(data@.len() as int),
    ensures
        r == pnet_checksum_spec(data@, skipword as int),
{
    pnet_packet::util::checksum(data, skipword)
}

/// Calls pnet_packet's `Ipv4Packet::new` and, on the view it gives, its
/// `get_header_length`. Trusted, as the source generated by pnet's `packet`
/// macro shows: a view exists exactly when the buffer holds the twenty bytes
/// of the fixed header, and the field read is the low four bits of the first byte.
#[verifier::external_body]
fn ipv4_header_length_field(buf: &[u8]) -> (r: Option<u8>)
    ensures
        r == (if buf@.len() >= 20 { Some(buf@[0] % 16) } else { None::<u8> }),
{
    pnet_packet::ipv4::Ipv4Packet::new(buf).map(|p| p.get_header_length())
}

/// The length in bytes of the IPv4 header at the start of `buf`, as its
/// header-length field gives it (in 32-bit words); `None` when `buf` is
/// shorter than a fixed header.
pub fn ip_header_len(buf: &[u8]) -> (r: Option<usize>)
    ensures
        r == (if buf@.len() >= 20 { Some(((buf@[0] % 16) * 4) as usize) } else { None::<usize> }),
{
    match ipv4_header_length_field(buf) {
        Some(words) => Some(words as usize * 4),
        None => None,
    }
}


/// Where `encode` puts each field (RFC 791): version and header length in
/// the high and low nibbles of byte 0, DSCP and ECN in byte 1, total length
/// in 2-3, identification in 4-5, flags in the top three bits of byte 6 with
/// the fragment offset below them and in byte 7, TTL in byte 8, protocol in
/// byte 9, the header checksum in 10-11, then the source and destination
/// addresses; multi-byte fields most significant byte first.
pub proof fn lemma_ipv4_wire_layout(h: Ipv4Header)
    ensures
        ipv4_wire(h).len() == 20,
        ipv4_wire(h)[0] == (h.version % 16) * 16 + h.ihl % 16,
        ipv4_wire(h)[1] == (h.dscp % 64) * 4 + h.ecn % 4,
        ipv4_wire(h)[2] == h.total_length / 256,
        ipv4_wire(h)[3] == h.total_length % 256,
        ipv4_wire(h)[4] == h.identification / 256,
        ipv4_wire(h)[5] == h.identification % 256,
        ipv4_wire(h)[6] == (h.flags % 8) * 32 + (h.fragment_offset / 256) % 32,
        ipv4_wire(h)[7] == h.fragment_offset % 256,
        ipv4_wire(h)[8] == h.ttl,
        ipv4_wire(h)[9] == h.protocol,
        ipv4_wire(h)[10] == ipv4_header_checksum(h) / 256,
        ipv4_wire(h)[11] == ipv4_header_checksum(h) % 256,
        forall|i: int| 0 <= i < 4 ==> ipv4_wire(h)[12 + i] == h.source[i] && ipv4_wire(h)[16 + i] == h.destination[i],
{
    assert((h.version % 16) * 16 + h.ihl % 16 < 256) by (nonlinear_arith);
    assert((h.dscp % 64) * 4 + h.ecn % 4 < 256) by (nonlinear_arith);
    assert((h.flags % 8) * 32 + (h.fragment_offset / 256) % 32 < 256) by (nonlinear_arith);
}

} // verus!
