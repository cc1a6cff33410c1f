use vstd::prelude::*;

use crate::packet::ip::{checksum_input_fits, checksum_spec, internet_checksum, lemma_checksum_field_verifies};
use crate::packet::wire::{
    be16_bytes, be16_value, extend_bytes, lemma_be16_bytes_of_value, lemma_be16_roundtrip, push_be16,
    read_be16,
};

verus! {

pub const ICMP_HEADER_LEN: usize = 8;
pub const ICMP_TYPE_ECHO_REPLY: u8 = 0;
pub const ICMP_TYPE_ECHO_REQUEST: u8 = 8;
pub const ICMP_TYPE_DEST_UNREACHABLE: u8 = 3;
pub const ICMP_TYPE_SOURCE_QUENCH: u8 = 4;
pub const ICMP_TYPE_REDIRECT: u8 = 5;
pub const ICMP_TYPE_TIME_EXCEEDED: u8 = 11;
pub const ICMP_TYPE_PARAM_PROBLEM: u8 = 12;
pub const ICMP_TYPE_TIMESTAMP: u8 = 13;
pub const ICMP_TYPE_TIMESTAMP_REPLY: u8 = 14;
pub const ICMP_TYPE_INFO_REQUEST: u8 = 15;
pub const ICMP_TYPE_INFO_REPLY: u8 = 16;
pub const ICMP_TYPE_ADDRESS_MASK: u8 = 17;
pub const ICMP_TYPE_ADDRESS_MASK_REPLY: u8 = 18;

/// The fixed eight-byte ICMP header of an echo-style message.
#[derive(Debug, Clone, Copy)]
pub struct IcmpHeader {
    pub icmp_type: u8,
    pub code: u8,
    pub checksum: u16,
    pub identifier: u16,
    pub sequence: u16,
}

/// The header's eight bytes on the wire.
pub open spec fn icmp_wire(h: IcmpHeader) -> Seq<u8> {
    seq![h.icmp_type, h.code] + be16_bytes(h.checksum) + be16_bytes(h.identifier) + be16_bytes(
        h.sequence,
    )
}

/// The header read from the first eight bytes of `buf`.
pub open spec fn icmp_from_wire(buf: Seq<u8>) -> IcmpHeader {
    IcmpHeader {
        icmp_type: buf[0],
        code: buf[1],
        checksum: be16_value(buf[2], buf[3]),
        identifier: be16_value(buf[4], buf[5]),
        sequence: be16_value(buf[6], buf[7]),
    }
}

/// The same header with its checksum field replaced by `c`.
pub open spec fn icmp_with_checksum(h: IcmpHeader, c: u16) -> IcmpHeader {
    IcmpHeader { checksum: c, ..h }
}

/// The checksum over the header (its checksum field taken as zero) and the payload.
pub open spec fn icmp_checksum_spec(h: IcmpHeader, payload: Seq<u8>) -> u16 {
    checksum_spec(icmp_wire(icmp_with_checksum(h, 0)) + payload)
}

/// Name of each ICMP type that the full scan probes; `None` for the others.
pub open spec fn icmp_name_of_type_spec(t: u8) -> Option<Seq<char>> {
    if t == 0 {
        Some("echo-reply"@)
    } else if t == 3 {
        Some("dest-unreachable"@)
    } else if t == 4 {
        Some("source-quench"@)
    } else if t == 5 {
        Some("redirect"@)
    } else if t == 8 {
        Some("echo-request"@)
    } else if t == 9 {
        Some("router-advertisement"@)
    } else if t == 10 {
        Some("router-solicitation"@)
    } else if t == 11 {
        Some("time-exceeded"@)
    } else if t == 12 {
        Some("param-problem"@)
    } else if t == 13 {
        Some("timestamp"@)
    } else if t == 14 {
        Some("timestamp-reply"@)
    } else if t == 15 {
        Some("info-request"@)
    } else if t == 16 {
        Some("info-reply"@)
    } else if t == 17 {
        Some("address-mask"@)
    } else if t == 18 {
        Some("address-mask-reply"@)
    } else if t == 30 {
        Some("traceroute"@)
    } else if t == 31 {
        Some("datagram-conversion"@)
    } else if t == 33 {
        Some("ipv6-where-are-you"@)
    } else if t == 34 {
        Some("ipv6-i-am-here"@)
    } else if t == 35 {
        Some("mobile-registration"@)
    } else if t == 37 {
        Some("domain-name-request"@)
    } else if t == 38 {
        Some("domain-name-reply"@)
    } else if t == 40 {
        Some("photuris"@)
    } else if t == 42 {
        Some("extended-echo"@)
    } else {
        None
    }
}

/// The label of a type in reports: its name, or `unknown`.
pub open spec fn type_label(t: u8) -> Seq<char> {
    match icmp_name_of_type_spec(t) {
        Some(name) => name,
        None => "unknown"@,
    }
}

/// The ICMP types of the full scan, in scan order.
pub open spec fn all_icmp_types_spec() -> Seq<u8> {
    seq![0u8, 3, 4, 5, 8, 9, 10, 11, 12, 13, 14, 15, 16, 17, 18, 30, 31, 33, 34, 35, 37, 38, 40, 42]
}

impl IcmpHeader {
    /// An echo request with the given identifier and sequence number and a
    /// checksum over the header alone.
    pub fn from_echo_request(id: u16, seq: u16) -> (r: Self)
        ensures
            r.icmp_type == ICMP_TYPE_ECHO_REQUEST,
            r.code == 0,
            r.identifier == id,
            r.sequence == seq,
            r.checksum == icmp_checksum_spec(r, Seq::empty()),
            checksum_spec(icmp_wire(r)) == 0,
    {
        let mut header = IcmpHeader {
            icmp_type: ICMP_TYPE_ECHO_REQUEST,
            code: 0,
            checksum: 0,
            identifier: id,
            sequence: seq,
        };
        let empty: Vec<u8> = Vec::new();
        header.checksum = header.compute_checksum(empty.as_slice());
        proof {
            lemma_icmp_checksum_verifies(header, Seq::empty());
            assert(icmp_wire(header) + Seq::<u8>::empty() =~= icmp_wire(header));
        }
        header
    }

    /// The header's eight bytes in network order.
    pub fn encode(&self) -> (r: Vec<u8>)
        ensures
            r@ == icmp_wire(*self),
            r@.len() == ICMP_HEADER_LEN,
    {
        let mut buf: Vec<u8> = Vec::new();
        buf.push(self.icmp_type);
        buf.push(self.code);
        push_be16(&mut buf, self.checksum);
        push_be16(&mut buf, self.identifier);
        push_be16(&mut buf, self.sequence);
        assert(buf@ =~= icmp_wire(*self));
        buf
    }

    /// The header at the start of `buf`; `None` when `buf` is shorter than a header.
    pub fn decode(buf: &[u8]) -> (r: Option<Self>)
        ensures
            r is Some <==> buf@.len() >= ICMP_HEADER_LEN,
            r matches Some(h) ==> h == icmp_from_wire(buf@),
    {
        if buf.len() < ICMP_HEADER_LEN {
            return None;
        }
        Some(
            IcmpHeader {
                icmp_type: buf[0],
                code: buf[1],
                checksum: read_be16(buf, 2),
                identifier: read_be16(buf, 4),
                sequence: read_be16(buf, 6),
            },
        )
    }

    /// The checksum over this header, with its checksum field taken as zero,
    /// followed by `payload`.
    pub fn compute_checksum(&self, payload: &[u8]) -> (r: u16)
        requires
            checksum_input_fits(ICMP_HEADER_LEN + payload@.len()),
        ensures
            r == icmp_checksum_spec(*self, payload@),
    {
        let zeroed = IcmpHeader {
            icmp_type: self.icmp_type,
            code: self.code,
            checksum: 0,
            identifier: self.identifier,
            sequence: self.sequence,
        };
        let mut encoded = zeroed.encode();
        extend_bytes(&mut encoded, payload);
        internet_checksum(encoded.as_slice())
    }

    /// Human-readable name of an ICMP type, or `"unknown"`.
    pub fn name_of_type(icmp_type: u8) -> (r: &'static str)
        ensures
            icmp_name_of_type_spec(icmp_type) matches Some(name) ==> r@ == name,
            icmp_name_of_type_spec(icmp_type) is None ==> r@ == "unknown"@,
            r@ == type_label(icmp_type),
    {
        match icmp_type {
            0 => "echo-reply",
            3 => "dest-unreachable",
            4 => "source-quench",
            5 => "redirect",
            8 => "echo-request",
            9 => "router-advertisement",
            10 => "router-solicitation",
            11 => "time-exceeded",
            12 => "param-problem",
            13 => "timestamp",
            14 => "timestamp-reply",
            15 => "info-request",
            16 => "info-reply",
            17 => "address-mask",
            18 => "address-mask-reply",
            30 => "traceroute",
            31 => "datagram-conversion",
            33 => "ipv6-where-are-you",
            34 => "ipv6-i-am-here",
            35 => "mobile-registration",
            37 => "domain-name-request",
            38 => "domain-name-reply",
            40 => "photuris",
            42 => "extended-echo",
            _ => "unknown",
        }
    }
}

/// The ICMP types that the full scan probes, in scan order.
pub fn all_icmp_types() -> (r: Vec<u8>)
    ensures
        r@ == all_icmp_types_spec(),
{
    let r = vec![0u8, 3, 4, 5, 8, 9, 10, 11, 12, 13, 14, 15, 16, 17, 18, 30, 31, 33, 34, 35, 37, 38, 40, 42];
    assert(r@ =~= all_icmp_types_spec());
    r
}

/// Every type of the full scan has a name of its own.
pub proof fn lemma_scanned_types_are_named(i: int)
    requires
        0 <= i < all_icmp_types_spec().len(),
    ensures
        icmp_name_of_type_spec(all_icmp_types_spec()[i]) is Some,
{
}

/// Decoding what was encoded gives the header back.
pub proof fn lemma_icmp_decode_encode(h: IcmpHeader)
    ensures
        icmp_from_wire(icmp_wire(h)) == h,
        icmp_wire(h).len() == ICMP_HEADER_LEN,
{
    lemma_be16_roundtrip(h.checksum);
    lemma_be16_roundtrip(h.identifier);
    lemma_be16_roundtrip(h.sequence);
}

/// Encoding what was decoded gives the first eight bytes back.
pub proof fn lemma_icmp_encode_decode(buf: Seq<u8>)
    requires
        buf.len() >= ICMP_HEADER_LEN,
    ensures
        icmp_wire(icmp_from_wire(buf)) == buf.take(8),
{
    lemma_be16_bytes_of_value(buf[2], buf[3]);
    lemma_be16_bytes_of_value(buf[4], buf[5]);
    lemma_be16_bytes_of_value(buf[6], buf[7]);
    assert(icmp_wire(icmp_from_wire(buf)) =~= buf.take(8));
}

/// A header that carries the checksum computed over it and its payload
/// checks out: the checksum over header and payload is zero.
pub proof fn lemma_icmp_checksum_verifies(h: IcmpHeader, payload: Seq<u8>)
    ensures
        checksum_spec(icmp_wire(icmp_with_checksum(h, icmp_checksum_spec(h, payload))) + payload)
            == 0,
{
    let z = icmp_with_checksum(h, 0);
    let c = icmp_checksum_spec(h, payload);
    let prefix = seq![h.icmp_type, h.code];
    let rest = be16_bytes(h.identifier) + be16_bytes(h.sequence) + payload;
    assert(icmp_wire(z) + payload =~= prefix + seq![0u8, 0u8] + rest);
    assert(icmp_wire(icmp_with_checksum(h, c)) + payload =~= prefix + be16_bytes(c) + rest);
    lemma_checksum_field_verifies(prefix, rest);
}


/// Where `encode` puts each field (RFC 792): type in byte 0, code in byte 1,
/// checksum in 2-3, identifier in 4-5 and sequence number in 6-7, each most
/// significant byte first; `decode` reads them from the same places.
pub proof fn lemma_icmp_wire_layout(h: IcmpHeader, buf: Seq<u8>)
    ensures
        icmp_wire(h).len() == 8,
        icmp_wire(h)[0] == h.icmp_type,
        icmp_wire(h)[1] == h.code,
        icmp_wire(h)[2] == h.checksum / 256,
        icmp_wire(h)[3] == h.checksum % 256,
        icmp_wire(h)[4] == h.identifier / 256,
        icmp_wire(h)[5] == h.identifier % 256,
        icmp_wire(h)[6] == h.sequence / 256,
        icmp_wire(h)[7] == h.sequence % 256,
        buf.len() >= 8 ==> icmp_from_wire(buf).icmp_type == buf[0] && icmp_from_wire(buf).code == buf[1]
            && icmp_from_wire(buf).checksum == buf[2] * 256 + buf[3]
            && icmp_from_wire(buf).identifier == buf[4] * 256 + buf[5]
            && icmp_from_wire(buf).sequence == buf[6] * 256 + buf[7],
{
}

/// The names of the ICMP types, as the IANA registry of ICMP type numbers
/// gives them, for every type the full scan probes; any other type has none.
pub proof fn lemma_icmp_type_names(t: u8)
    ensures
        t == 0 ==> type_label(t) == "echo-reply"@,
        t == 3 ==> type_label(t) == "dest-unreachable"@,
        t == 4 ==> type_label(t) == "source-quench"@,
        t == 5 ==> type_label(t) == "redirect"@,
        t == 8 ==> type_label(t) == "echo-request"@,
        t == 9 ==> type_label(t) == "router-advertisement"@,
        t == 10 ==> type_label(t) == "router-solicitation"@,
        t == 11 ==> type_label(t) == "time-exceeded"@,
        t == 12 ==> type_label(t) == "param-problem"@,
        t == 13 ==> type_label(t) == "timestamp"@,
        t == 14 ==> type_label(t) == "timestamp-reply"@,
        t == 15 ==> type_label(t) == "info-request"@,
        t == 16 ==> type_label(t) == "info-reply"@,
        t == 17 ==> type_label(t) == "address-mask"@,
        t == 18 ==> type_label(t) == "address-mask-reply"@,
        t == 30 ==> type_label(t) == "traceroute"@,
        t == 31 ==> type_label(t) == "datagram-conversion"@,
        t == 33 ==> type_label(t) == "ipv6-where-are-you"@,
        t == 34 ==> type_label(t) == "ipv6-i-am-here"@,
        t == 35 ==> type_label(t) == "mobile-registration"@,
        t == 37 ==> type_label(t) == "domain-name-request"@,
        t == 38 ==> type_label(t) == "domain-name-reply"@,
        t == 40 ==> type_label(t) == "photuris"@,
        t == 42 ==> type_label(t) == "extended-echo"@,
        !all_icmp_types_spec().contains(t) ==> type_label(t) == "unknown"@,
{
    if !all_icmp_types_spec().contains(t) {
        if icmp_name_of_type_spec(t) is Some {
            let s = all_icmp_types_spec();
            assert(s[0] == 0 && s[1] == 3 && s[2] == 4 && s[3] == 5 && s[4] == 8 && s[5] == 9);
            assert(s[6] == 10 && s[7] == 11 && s[8] == 12 && s[9] == 13 && s[10] == 14 && s[11] == 15);
            assert(s[12] == 16 && s[13] == 17 && s[14] == 18 && s[15] == 30 && s[16] == 31 && s[17] == 33);
            assert(s[18] == 34 && s[19] == 35 && s[20] == 37 && s[21] == 38 && s[22] == 40 && s[23] == 42);
        }
    }
}

} // verus!
