use vstd::prelude::*;

use crate::packet::ip::{checksum_input_fits, checksum_spec, internet_checksum, lemma_checksum_field_verifies};
use crate::packet::wire::{
    be16_bytes, be16_value, be32_bytes, be32_value, extend_bytes, lemma_be16_bytes_of_value,
    lemma_be16_roundtrip, lemma_be32_bytes_of_value, lemma_be32_roundtrip, lemma_be32_value_exact, push_be16, push_be32,
    read_be16, read_be32,
};

verus! {

pub const TCP_HEADER_LEN: usize = 20;

pub const TCP_FLAG_FIN: u8 = 0x01;
pub const TCP_FLAG_SYN: u8 = 0x02;
pub const TCP_FLAG_RST: u8 = 0x04;
pub const TCP_FLAG_PSH: u8 = 0x08;
pub const TCP_FLAG_ACK: u8 = 0x10;
pub const TCP_FLAG_URG: u8 = 0x20;

/// The fixed twenty-byte TCP header (no options).
#[derive(Debug, Clone, Copy)]
pub struct TcpHeader {
    pub source_port: u16,
    pub destination_port: u16,
    pub sequence_number: u32,
    pub acknowledgment_number: u32,
    pub data_offset: u8,
    pub flags: u8,
    pub window_size: u16,
    pub checksum: u16,
    pub urgent_pointer: u16,
}

/// The IPv4 pseudo-header that the TCP and UDP checksums cover.
#[derive(Debug, Clone, Copy)]
pub struct Ipv4PseudoHeader {
    pub source: [u8; 4],
    pub destination: [u8; 4],
    pub protocol: u8,
    pub tcp_length: u16,
}

/// The pseudo-header's twelve bytes.
pub open spec fn pseudo_wire(p: Ipv4PseudoHeader) -> Seq<u8> {
    p.source@ + p.destination@ + seq![0u8, p.protocol] + be16_bytes(p.tcp_length)
}

/// The header's twenty bytes as `encode` writes them: the data offset in the
/// high nibble of byte 12 (its low nibble zero) and a zero checksum field.
pub open spec fn tcp_wire(h: TcpHeader) -> Seq<u8> {
    be16_bytes(h.source_port) + be16_bytes(h.destination_port) + be32_bytes(h.sequence_number)
        + be32_bytes(h.acknowledgment_number) + seq![((h.data_offset % 16) * 16) as u8, h.flags]
        + be16_bytes(h.window_size) + seq![0u8, 0u8] + be16_bytes(h.urgent_pointer)
}

/// The header read from the first twenty bytes of `buf`.
pub open spec fn tcp_from_wire(buf: Seq<u8>) -> TcpHeader {
    TcpHeader {
        source_port: be16_value(buf[0], buf[1]),
        destination_port: be16_value(buf[2], buf[3]),
        sequence_number: be32_value(buf[4], buf[5], buf[6], buf[7]),
        acknowledgment_number: be32_value(buf[8], buf[9], buf[10], buf[11]),
        data_offset: buf[12] / 16,
        flags: buf[13],
        window_size: be16_value(buf[14], buf[15]),
        checksum: be16_value(buf[16], buf[17]),
        urgent_pointer: be16_value(buf[18], buf[19]),
    }
}

/// The checksum over pseudo-header, header (checksum field zero) and payload.
pub open spec fn tcp_checksum_spec(h: TcpHeader, p: Ipv4PseudoHeader, payload: Seq<u8>) -> u16 {
    checksum_spec(pseudo_wire(p) + tcp_wire(h) + payload)
}

impl TcpHeader {
    /// The header's twenty bytes in network order; the checksum field is
    /// written as zero and only the low four bits of the data offset are kept.
    pub fn encode(&self) -> (r: Vec<u8>)
        ensures
            r@ == tcp_wire(*self),
            r@.len() == TCP_HEADER_LEN,
    {
        let mut buf: Vec<u8> = Vec::new();
        push_be16(&mut buf, self.source_port);
        push_be16(&mut buf, self.destination_port);
        push_be32(&mut buf, self.sequence_number);
        push_be32(&mut buf, self.acknowledgment_number);
        buf.push((self.data_offset % 16) * 16);
        buf.push(self.flags);
        push_be16(&mut buf, self.window_size);
        buf.push(0);
        buf.push(0);
        push_be16(&mut buf, self.urgent_pointer);
        assert(buf@ =~= tcp_wire(*self));
        buf
    }

    /// The header at the start of `buf`; `None` when `buf` is shorter than a header.
    pub fn decode(buf: &[u8]) -> (r: Option<Self>)
        ensures
            r is Some <==> buf@.len() >= TCP_HEADER_LEN,
            r matches Some(h) ==> h == tcp_from_wire(buf@),
    {
        if buf.len() < TCP_HEADER_LEN {
            return None;
        }
        Some(
            TcpHeader {
                source_port: read_be16(buf, 0),
                destination_port: read_be16(buf, 2),
                sequence_number: read_be32(buf, 4),
                acknowledgment_number: read_be32(buf, 8),
                data_offset: buf[12] / 16,
                flags: buf[13],
                window_size: read_be16(buf, 14),
                checksum: read_be16(buf, 16),
                urgent_pointer: read_be16(buf, 18),
            },
        )
    }

    /// The TCP checksum over the pseudo-header, this header as encoded and `payload`.
    pub fn compute_checksum(&self, pseudo_header: &Ipv4PseudoHeader, payload: &[u8]) -> (r: u16)
        requires
            checksum_input_fits(12 + TCP_HEADER_LEN + payload@.len()),
        ensures
            r == tcp_checksum_spec(*self, *pseudo_header, payload@),
    {
        let mut data = pseudo_header.encode();
        let tcp_header = self.encode();
        extend_bytes(&mut data, tcp_header.as_slice());
        extend_bytes(&mut data, payload);
        internet_checksum(data.as_slice())
    }
}

impl Ipv4PseudoHeader {
    /// The pseudo-header's twelve bytes.
    pub fn encode(&self) -> (r: Vec<u8>)
        ensures
            r@ == pseudo_wire(*self),
            r@.len() == 12,
    {
        let mut buf: Vec<u8> = Vec::with_capacity(12);
        buf.push(self.source[0]);
        buf.push(self.source[1]);
        buf.push(self.source[2]);
        buf.push(self.source[3]);
        buf.push(self.destination[0]);
        buf.push(self.destination[1]);
        buf.push(self.destination[2]);
        buf.push(self.destination[3]);
        buf.push(0);
        buf.push(self.protocol);
        push_be16(&mut buf, self.tcp_length);
        assert(buf@ =~= pseudo_wire(*self));
        buf
    }
}

/// Decoding what was encoded gives the header back, except that only the low
/// four bits of the data offset survive and the checksum reads as zero.
pub proof fn lemma_tcp_decode_encode(h: TcpHeader)
    ensures
        tcp_from_wire(tcp_wire(h)) == (TcpHeader {
            data_offset: h.data_offset % 16,
            checksum: 0,
            ..h
        }),
        tcp_wire(h).len() == TCP_HEADER_LEN,
{
    lemma_be16_roundtrip(h.source_port);
    lemma_be16_roundtrip(h.destination_port);
    lemma_be32_roundtrip(h.sequence_number);
    lemma_be32_roundtrip(h.acknowledgment_number);
    lemma_be16_roundtrip(h.window_size);
    lemma_be16_roundtrip(h.urgent_pointer);
    let w = tcp_wire(h);
    assert(w[12] == ((h.data_offset % 16) * 16) as u8);
    assert(w[16] == 0 && w[17] == 0);
}

/// Encoding what was decoded gives the first twenty bytes back, with the
/// reserved low nibble of byte 12 and the checksum field cleared.
pub proof fn lemma_tcp_encode_decode(buf: Seq<u8>)
    requires
        buf.len() >= TCP_HEADER_LEN,
    ensures
        tcp_wire(tcp_from_wire(buf)) == buf.take(20).update(12, ((buf[12] / 16) * 16) as u8).update(
            16,
            0,
        ).update(17, 0),
{
    lemma_be16_bytes_of_value(buf[0], buf[1]);
    lemma_be16_bytes_of_value(buf[2], buf[3]);
    lemma_be32_bytes_of_value(buf[4], buf[5], buf[6], buf[7]);
    lemma_be32_bytes_of_value(buf[8], buf[9], buf[10], buf[11]);
    lemma_be16_bytes_of_value(buf[14], buf[15]);
    lemma_be16_bytes_of_value(buf[18], buf[19]);
    assert(tcp_wire(tcp_from_wire(buf)) =~= buf.take(20).update(
        12,
        ((buf[12] / 16) * 16) as u8,
    ).update(16, 0).update(17, 0));
}

/// The checksum does not depend on the header's own checksum field.
pub proof fn lemma_tcp_checksum_ignores_field(h: TcpHeader, c: u16, p: Ipv4PseudoHeader, payload: Seq<u8>)
    ensures
        tcp_checksum_spec(TcpHeader { checksum: c, ..h }, p, payload) == tcp_checksum_spec(
            h,
            p,
            payload,
        ),
{
    assert(tcp_wire(TcpHeader { checksum: c, ..h }) =~= tcp_wire(h));
}

/// A segment whose checksum field (bytes 16 and 17 of the header) carries the
/// computed checksum checks out: the checksum over it is zero.
pub proof fn lemma_tcp_checksum_verifies(h: TcpHeader, p: Ipv4PseudoHeader, payload: Seq<u8>)
    ensures
        ({
            let c = tcp_checksum_spec(h, p, payload);
            let filled = tcp_wire(h).update(16, be16_bytes(c)[0]).update(17, be16_bytes(c)[1]);
            checksum_spec(pseudo_wire(p) + filled + payload) == 0
        }),
{
    let c = tcp_checksum_spec(h, p, payload);
    let w = tcp_wire(h);
    let filled = w.update(16, be16_bytes(c)[0]).update(17, be16_bytes(c)[1]);
    let prefix = pseudo_wire(p) + w.take(16);
    let suffix = w.skip(18) + payload;
    assert(pseudo_wire(p) + w + payload =~= prefix + seq![0u8, 0u8] + suffix);
    assert(pseudo_wire(p) + filled + payload =~= prefix + be16_bytes(c) + suffix);
    lemma_checksum_field_verifies(prefix, suffix);
}


/// Where `encode` puts each field (RFC 793): source port in bytes 0-1,
/// destination port in 2-3, sequence number in 4-7, acknowledgment number in
/// 8-11, the data offset in the high nibble of byte 12, the flags in byte 13,
/// the window in 14-15, a zero checksum in 16-17 and the urgent pointer in
/// 18-19, every multi-byte field most significant byte first.
pub proof fn lemma_tcp_wire_layout(h: TcpHeader)
    ensures
        tcp_wire(h).len() == 20,
        tcp_wire(h)[0] == h.source_port / 256,
        tcp_wire(h)[1] == h.source_port % 256,
        tcp_wire(h)[2] == h.destination_port / 256,
        tcp_wire(h)[3] == h.destination_port % 256,
        tcp_wire(h)[4] == h.sequence_number / 0x1000000,
        tcp_wire(h)[5] == (h.sequence_number / 0x10000) % 256,
        tcp_wire(h)[6] == (h.sequence_number / 256) % 256,
        tcp_wire(h)[7] == h.sequence_number % 256,
        tcp_wire(h)[8] == h.acknowledgment_number / 0x1000000,
        tcp_wire(h)[9] == (h.acknowledgment_number / 0x10000) % 256,
        tcp_wire(h)[10] == (h.acknowledgment_number / 256) % 256,
        tcp_wire(h)[11] == h.acknowledgment_number % 256,
        tcp_wire(h)[12] == (h.data_offset % 16) * 16,
        tcp_wire(h)[13] == h.flags,
        tcp_wire(h)[14] == h.window_size / 256,
        tcp_wire(h)[15] == h.window_size % 256,
        tcp_wire(h)[16] == 0,
        tcp_wire(h)[17] == 0,
        tcp_wire(h)[18] == h.urgent_pointer / 256,
        tcp_wire(h)[19] == h.urgent_pointer % 256,
{
    assert((h.data_offset % 16) * 16 < 256) by (nonlinear_arith);
}

/// Where `decode` reads each field: the same offsets as `encode` writes them,
/// multi-byte fields most significant byte first, the data offset from the
/// high nibble of byte 12.
pub proof fn lemma_tcp_from_wire_layout(buf: Seq<u8>)
    requires
        buf.len() >= 20,
    ensures
        tcp_from_wire(buf).source_port == buf[0] * 256 + buf[1],
        tcp_from_wire(buf).destination_port == buf[2] * 256 + buf[3],
        tcp_from_wire(buf).sequence_number == buf[4] * 0x1000000 + buf[5] * 0x10000 + buf[6] * 256 + buf[7],
        tcp_from_wire(buf).acknowledgment_number == buf[8] * 0x1000000 + buf[9] * 0x10000 + buf[10] * 256
            + buf[11],
        tcp_from_wire(buf).data_offset == buf[12] / 16,
        tcp_from_wire(buf).flags == buf[13],
        tcp_from_wire(buf).window_size == buf[14] * 256 + buf[15],
        tcp_from_wire(buf).checksum == buf[16] * 256 + buf[17],
        tcp_from_wire(buf).urgent_pointer == buf[18] * 256 + buf[19],
{
    lemma_be32_value_exact(buf[4], buf[5], buf[6], buf[7]);
    lemma_be32_value_exact(buf[8], buf[9], buf[10], buf[11]);
}

} // verus!
