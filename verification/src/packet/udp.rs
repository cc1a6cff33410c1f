use vstd::prelude::*;

use crate::packet::ip::{checksum_input_fits, checksum_spec, internet_checksum, lemma_checksum_field_verifies};
use crate::packet::tcp::{pseudo_wire, Ipv4PseudoHeader};
use crate::packet::wire::{
    be16_bytes, be16_value, extend_bytes, lemma_be16_bytes_of_value, lemma_be16_roundtrip, push_be16,
    read_be16,
};

verus! {

pub const UDP_HEADER_LEN: usize = 8;

/// The eight-byte UDP header.
#[derive(Debug, Clone, Copy)]
pub struct UdpHeader {
    pub source_port: u16,
    pub destination_port: u16,
    pub length: u16,
    pub checksum: u16,
}

/// The header's eight bytes on the wire.
pub open spec fn udp_wire(h: UdpHeader) -> Seq<u8> {
    be16_bytes(h.source_port) + be16_bytes(h.destination_port) + be16_bytes(h.length) + be16_bytes(
        h.checksum,
    )
}

/// The header read from the first eight bytes of `buf`.
pub open spec fn udp_from_wire(buf: Seq<u8>) -> UdpHeader {
    UdpHeader {
        source_port: be16_value(buf[0], buf[1]),
        destination_port: be16_value(buf[2], buf[3]),
        length: be16_value(buf[4], buf[5]),
        checksum: be16_value(buf[6], buf[7]),
    }
}

/// The checksum over pseudo-header, header (as it stands) and payload.
pub open spec fn udp_checksum_spec(h: UdpHeader, p: Ipv4PseudoHeader, payload: Seq<u8>) -> u16 {
    checksum_spec(pseudo_wire(p) + udp_wire(h) + payload)
}

impl UdpHeader {
    /// A header for a datagram carrying `payload_len` bytes, with a zero checksum.
    pub fn new(source_port: u16, destination_port: u16, payload_len: u16) -> (r: Self)
        requires
            UDP_HEADER_LEN + payload_len <= u16::MAX,
        ensures
            r.source_port == source_port,
            r.destination_port == destination_port,
            r.length == UDP_HEADER_LEN + payload_len,
            r.checksum == 0,
    {
        UdpHeader { source_port, destination_port, length: 8 + payload_len, checksum: 0 }
    }

    /// The header's eight bytes in network order.
    pub fn encode(&self) -> (r: Vec<u8>)
        ensures
            r@ == udp_wire(*self),
            r@.len() == UDP_HEADER_LEN,
    {
        let mut buf: Vec<u8> = Vec::new();
        push_be16(&mut buf, self.source_port);
        push_be16(&mut buf, self.destination_port);
        push_be16(&mut buf, self.length);
        push_be16(&mut buf, self.checksum);
        assert(buf@ =~= udp_wire(*self));
        buf
    }

    /// The header at the start of `buf`; `None` when `buf` is shorter than a header.
    pub fn decode(buf: &[u8]) -> (r: Option<Self>)
        ensures
            r is Some <==> buf@.len() >= UDP_HEADER_LEN,
            r matches Some(h) ==> h == udp_from_wire(buf@),
    {
        if buf.len() < UDP_HEADER_LEN {
            return None;
        }
        Some(
            UdpHeader {
                source_port: read_be16(buf, 0),
                destination_port: read_be16(buf, 2),
                length: read_be16(buf, 4),
                checksum: read_be16(buf, 6),
            },
        )
    }

    /// The UDP checksum over the pseudo-header, this header as encoded
    /// (its checksum field included) and `payload`.
    pub fn compute_checksum(&self, pseudo_header: &Ipv4PseudoHeader, payload: &[u8]) -> (r: u16)
        requires
            checksum_input_fits(12 + UDP_HEADER_LEN + payload@.len()),
        ensures
            r == udp_checksum_spec(*self, *pseudo_header, payload@),
    {
        let mut data = pseudo_header.encode();
        let header = self.encode();
        extend_bytes(&mut data, header.as_slice());
        extend_bytes(&mut data, payload);
        internet_checksum(data.as_slice())
    }
}

/// Decoding what was encoded gives the header back.
pub proof fn lemma_udp_decode_encode(h: UdpHeader)
    ensures
        udp_from_wire(udp_wire(h)) == h,
        udp_wire(h).len() == UDP_HEADER_LEN,
{
    lemma_be16_roundtrip(h.source_port);
    lemma_be16_roundtrip(h.destination_port);
    lemma_be16_roundtrip(h.length);
    lemma_be16_roundtrip(h.checksum);
}

/// Encoding what was decoded gives the first eight bytes back.
pub proof fn lemma_udp_encode_decode(buf: Seq<u8>)
    requires
        buf.len() >= UDP_HEADER_LEN,
    ensures
        udp_wire(udp_from_wire(buf)) == buf.take(8),
{
    lemma_be16_bytes_of_value(buf[0], buf[1]);
    lemma_be16_bytes_of_value(buf[2], buf[3]);
    lemma_be16_bytes_of_value(buf[4], buf[5]);
    lemma_be16_bytes_of_value(buf[6], buf[7]);
    assert(udp_wire(udp_from_wire(buf)) =~= buf.take(8));
}

/// A header whose checksum field carries the checksum computed with that field
/// zero checks out: recomputing over it gives zero.
pub proof fn lemma_udp_checksum_verifies(h: UdpHeader, p: Ipv4PseudoHeader, payload: Seq<u8>)
    ensures
        ({
            let c = udp_checksum_spec(UdpHeader { checksum: 0, ..h }, p, payload);
            udp_checksum_spec(UdpHeader { checksum: c, ..h }, p, payload) == 0
        }),
{
    let c = udp_checksum_spec(UdpHeader { checksum: 0, ..h }, p, payload);
    let prefix = pseudo_wire(p) + be16_bytes(h.source_port) + be16_bytes(h.destination_port)
        + be16_bytes(h.length);
    assert(pseudo_wire(p) + udp_wire(UdpHeader { checksum: 0, ..h }) + payload =~= prefix
        + seq![0u8, 0u8] + payload);
    assert(pseudo_wire(p) + udp_wire(UdpHeader { checksum: c, ..h }) + payload =~= prefix
        + be16_bytes(c) + payload);
    lemma_checksum_field_verifies(prefix, payload);
}


/// Where `encode` puts each field (RFC 768): source port in bytes 0-1,
/// destination port in 2-3, length in 4-5 and checksum in 6-7, each most
/// significant byte first; `decode` reads them from the same places.
pub proof fn lemma_udp_wire_layout(h: UdpHeader, buf: Seq<u8>)
    ensures
        udp_wire(h).len() == 8,
        udp_wire(h)[0] == h.source_port / 256,
        udp_wire(h)[1] == h.source_port % 256,
        udp_wire(h)[2] == h.destination_port / 256,
        udp_wire(h)[3] == h.destination_port % 256,
        udp_wire(h)[4] == h.length / 256,
        udp_wire(h)[5] == h.length % 256,
        udp_wire(h)[6] == h.checksum / 256,
        udp_wire(h)[7] == h.checksum % 256,
        buf.len() >= 8 ==> udp_from_wire(buf).source_port == buf[0] * 256 + buf[1]
            && udp_from_wire(buf).destination_port == buf[2] * 256 + buf[3]
            && udp_from_wire(buf).length == buf[4] * 256 + buf[5]
            && udp_from_wire(buf).checksum == buf[6] * 256 + buf[7],
{
}

} // verus!
