//! The `icmp-ping` and `icmp-full` probes. Sockets and timing belong to the
//! program; here are the packets, the reading of replies and the decisions.

use vstd::prelude::*;

use crate::orchestrator::{concat_text, ProtocolResult};
use crate::packet::icmp::{
    all_icmp_types, all_icmp_types_spec, icmp_checksum_spec, icmp_from_wire, icmp_wire,
    icmp_with_checksum, lemma_icmp_checksum_verifies, lemma_icmp_decode_encode, type_label,
    IcmpHeader,
};
use crate::packet::ip::{checksum_spec, ip_header_len, ipv4_wire, pnet_checksum, word_at, Ipv4Header};
use crate::packet::wire::{
    be16_bytes, be16_value, extend_bytes, index_u16, push_be16, read_be16, widen_byte,
    write_be16_at,
};
use crate::test::{protocol_info, Direction, Layer, ProtocolInfo, ProtocolView, Transport};
use crate::text::{byte_decimal, byte_decimal_string, push_str};

verus! {

/// One ICMP echo request.
pub struct IcmpPingTest;

/// One probe per ICMP type of the full scan.
pub struct IcmpFullTest;

impl IcmpPingTest {
    pub fn info(&self) -> (r: ProtocolInfo)
        ensures
            r@ == (ProtocolView { name: "icmp-ping"@, layer: Layer::L3, transports: seq![Transport::Icmp] }),
    {
        let t = vec![Transport::Icmp];
        assert(t@ =~= seq![Transport::Icmp]);
        protocol_info("icmp-ping", Layer::L3, t)
    }
}

impl IcmpFullTest {
    pub fn info(&self) -> (r: ProtocolInfo)
        ensures
            r@ == (ProtocolView { name: "icmp-full"@, layer: Layer::L3, transports: seq![Transport::Icmp] }),
    {
        let t = vec![Transport::Icmp];
        assert(t@ =~= seq![Transport::Icmp]);
        protocol_info("icmp-full", Layer::L3, t)
    }
}

/// The payload of every echo request.
pub open spec fn echo_payload() -> Seq<u8> {
    seq![98u8, 105, 109, 97, 112]
}

/// The payload of every echo request: the five bytes of `bimap`.
pub fn echo_payload_bytes() -> (r: Vec<u8>)
    ensures
        r@ == echo_payload(),
{
    let r = vec![98u8, 105, 109, 97, 112];
    assert(r@ =~= echo_payload());
    r
}

/// The header of an echo-style message of type `t`, code 0.
pub open spec fn echo_header(t: u8, id: u16, seq: u16) -> IcmpHeader {
    IcmpHeader { icmp_type: t, code: 0, checksum: 0, identifier: id, sequence: seq }
}

/// The message that the raw-socket probe sends: the header with the checksum
/// over header and payload written in, then the payload.
pub open spec fn echo_packet(t: u8, id: u16, seq: u16, payload: Seq<u8>) -> Seq<u8> {
    let h = echo_header(t, id, seq);
    icmp_wire(icmp_with_checksum(h, icmp_checksum_spec(h, payload))) + payload
}

/// The message with a zero checksum field.
pub open spec fn echo_zeroed(t: u8, id: u16, seq: u16, payload: Seq<u8>) -> Seq<u8> {
    seq![t, 0u8, 0u8, 0u8] + be16_bytes(id) + be16_bytes(seq) + payload
}

proof fn lemma_echo_packet_layout(t: u8, id: u16, seq: u16, payload: Seq<u8>)
    ensures
        echo_packet(t, id, seq, payload) == seq![t, 0u8] + be16_bytes(checksum_spec(echo_zeroed(t, id, seq, payload)))
            + be16_bytes(id) + be16_bytes(seq) + payload,
{
    let h = echo_header(t, id, seq);
    assert(icmp_with_checksum(h, 0) == h);
    assert(be16_bytes(0) =~= seq![0u8, 0u8]);
    assert(icmp_wire(h) + payload =~= echo_zeroed(t, id, seq, payload));
    let c = icmp_checksum_spec(h, payload);
    assert(icmp_wire(icmp_with_checksum(h, c)) + payload =~= seq![t, 0u8] + be16_bytes(c) + be16_bytes(id)
        + be16_bytes(seq) + payload);
}

/// An echo-style message of type `echo_type` with the given identifier,
/// sequence number and payload, its checksum computed by pnet.
pub fn build_echo_packet(echo_type: u8, id: u16, seq: u16, payload: &[u8]) -> (r: Vec<u8>)
    requires
        payload@.len() + 8 <= 131074,
    ensures
        r@ == echo_packet(echo_type, id, seq, payload@),
{
    let mut packet: Vec<u8> = Vec::with_capacity(8 + payload.len());
    packet.push(echo_type);
    packet.push(0);
    push_be16(&mut packet, 0);
    push_be16(&mut packet, id);
    push_be16(&mut packet, seq);
    extend_bytes(&mut packet, payload);
    proof {
        assert(be16_bytes(0) =~= seq![0u8, 0u8]);
        assert(packet@ =~= echo_zeroed(echo_type, id, seq, payload@));
        assert(word_at(packet@, packet@.len() as int) == 0);
    }
    let len = packet.len();
    let c = pnet_checksum(packet.as_slice(), len);
    assert(c == checksum_spec(packet@));
    let ghost zeroed = packet@;
    write_be16_at(&mut packet, 2, c);
    proof {
        assert(packet@ =~= seq![echo_type, 0u8] + be16_bytes(c) + be16_bytes(id) + be16_bytes(seq) + payload@);
        lemma_echo_packet_layout(echo_type, id, seq, payload@);
    }
    packet
}

/// An echo message built by `build_echo_packet` checks out and reads back:
/// its checksum over the whole message is zero, and its header carries the
/// type, code 0, identifier and sequence number it was built with.
pub proof fn lemma_echo_packet_checks_out(t: u8, id: u16, seq: u16, payload: Seq<u8>)
    ensures
        checksum_spec(echo_packet(t, id, seq, payload)) == 0,
        icmp_from_wire(echo_packet(t, id, seq, payload)).icmp_type == t,
        icmp_from_wire(echo_packet(t, id, seq, payload)).code == 0,
        icmp_from_wire(echo_packet(t, id, seq, payload)).identifier == id,
        icmp_from_wire(echo_packet(t, id, seq, payload)).sequence == seq,
{
    let h = echo_header(t, id, seq);
    let hc = icmp_with_checksum(h, icmp_checksum_spec(h, payload));
    lemma_icmp_checksum_verifies(h, payload);
    lemma_icmp_decode_encode(hc);
    let p = echo_packet(t, id, seq, payload);
    assert(p.take(8) =~= icmp_wire(hc));
    assert(icmp_from_wire(p) == icmp_from_wire(p.take(8)));
}

/// Whether a datagram read from the raw socket is an echo reply (type 0)
/// with identifier `id`: the message starts after the IP header whose length
/// the header's length field gives, and holds at least eight bytes.
pub open spec fn is_echo_reply_to(datagram: Seq<u8>, id: u16) -> bool {
    &&& datagram.len() >= 20
    &&& (datagram[0] % 16) * 4 + 8 <= datagram.len()
    &&& datagram[(datagram[0] % 16) * 4] == 0
    &&& be16_value(datagram[(datagram[0] % 16) * 4 + 4], datagram[(datagram[0] % 16) * 4 + 5]) == id
}

/// Whether `datagram` is the echo reply that the raw-socket probe waits for.
pub fn echo_reply_matches(datagram: &[u8], id: u16) -> (r: bool)
    ensures
        r == is_echo_reply_to(datagram@, id),
{
    match ip_header_len(datagram) {
        None => false,
        Some(offset) => {
            if offset + 8 > datagram.len() {
                false
            } else {
                datagram[offset] == 0 && read_be16(datagram, offset + 4) == id
            }
        },
    }
}

/// The verdict when no reply could be read after `sent` bytes went out: a
/// timeout, or the socket's error.
pub fn receive_failure(sent: u64, timed_out: bool, error: &str) -> (r: ProtocolResult)
    ensures
        timed_out ==> (r matches ProtocolResult::Fail { reason, sent_bytes, received_bytes }
            && reason@ == "timeout"@ && sent_bytes == sent && received_bytes == 0),
        !timed_out ==> (r matches ProtocolResult::Fail { reason, sent_bytes, received_bytes }
            && reason@ == "no-reply: "@ + error@ && sent_bytes == sent && received_bytes == 0),
{
    if timed_out {
        ProtocolResult::Fail { reason: "timeout".to_owned(), sent_bytes: sent, received_bytes: 0 }
    } else {
        ProtocolResult::Fail { reason: concat_text("no-reply: ", error), sent_bytes: sent, received_bytes: 0 }
    }
}

/// The error of a probe that may not open a raw socket.
pub fn permission_denied() -> (r: ProtocolResult)
    ensures
        r matches ProtocolResult::Error { reason } && reason@ == "permission: ICMP requires root or CAP_NET_RAW"@,
{
    ProtocolResult::Error { reason: "permission: ICMP requires root or CAP_NET_RAW".to_owned() }
}

/// Identifier of the `icmp-ping` echo request.
pub const PING_ID: u16 = 0x42;

/// Sequence number of the `icmp-ping` echo request.
pub const PING_SEQ: u16 = 1;

/// Type of an echo request.
pub const ECHO_REQUEST: u8 = 8;

/// What an echo probe does next.
#[derive(Debug)]
pub enum EchoStep {
    /// It is done, with this result.
    Finish(ProtocolResult),
    /// It sends one echo-style message and waits for the reply.
    Ping { id: u16, seq: u16, echo_type: u8 },
    /// It runs the full scan.
    Scan,
}

/// The result of a side that has nothing to send.
pub open spec fn idle_pass() -> ProtocolResult {
    ProtocolResult::Pass { sent_bytes: 0, received_bytes: 0 }
}

/// `icmp-ping`: the server side passes at once, an IPv6 target is an error,
/// otherwise one echo request (identifier 0x42, sequence 1).
pub fn ping_step(direction: Direction, target_is_ipv4: bool) -> (r: EchoStep)
    ensures
        direction == Direction::ServerToClient ==> r == EchoStep::Finish(idle_pass()),
        direction == Direction::ClientToServer && !target_is_ipv4 ==> (r matches EchoStep::Finish(ProtocolResult::Error { reason })
            && reason@ == "IPv6 not supported"@),
        direction == Direction::ClientToServer && target_is_ipv4
            ==> r == (EchoStep::Ping { id: PING_ID, seq: PING_SEQ, echo_type: ECHO_REQUEST }),
{
    if direction == Direction::ServerToClient {
        EchoStep::Finish(ProtocolResult::Pass { sent_bytes: 0, received_bytes: 0 })
    } else if !target_is_ipv4 {
        EchoStep::Finish(ProtocolResult::Error { reason: "IPv6 not supported".to_owned() })
    } else {
        EchoStep::Ping { id: PING_ID, seq: PING_SEQ, echo_type: ECHO_REQUEST }
    }
}

/// `icmp-full`: without the right to open a raw socket it is an error; then
/// the server side passes at once, an IPv6 target is an error, otherwise the
/// scan runs.
pub fn full_scan_step(has_capability: bool, direction: Direction, target_is_ipv4: bool) -> (r: EchoStep)
    ensures
        !has_capability ==> (r matches EchoStep::Finish(ProtocolResult::Error { reason })
            && reason@ == "permission: ICMP requires root or CAP_NET_RAW"@),
        has_capability && direction == Direction::ServerToClient ==> r == EchoStep::Finish(idle_pass()),
        has_capability && direction == Direction::ClientToServer && !target_is_ipv4
            ==> (r matches EchoStep::Finish(ProtocolResult::Error { reason }) && reason@ == "IPv6 not supported"@),
        has_capability && direction == Direction::ClientToServer && target_is_ipv4 ==> r == EchoStep::Scan,
{
    if !has_capability {
        EchoStep::Finish(permission_denied())
    } else if direction == Direction::ServerToClient {
        EchoStep::Finish(ProtocolResult::Pass { sent_bytes: 0, received_bytes: 0 })
    } else if !target_is_ipv4 {
        EchoStep::Finish(ProtocolResult::Error { reason: "IPv6 not supported".to_owned() })
    } else {
        EchoStep::Scan
    }
}

/// One message of the full scan.
#[derive(Debug, Clone, Copy, PartialEq, Eq, Structural)]
pub struct ScanProbe {
    pub echo_type: u8,
    pub id: u16,
    pub seq: u16,
}

/// The messages of the full scan: one per type of the scan, in scan order,
/// identified by its type and numbered by its position.
pub fn full_scan_probes() -> (r: Vec<ScanProbe>)
    ensures
        r@.len() == all_icmp_types_spec().len(),
        forall|i: int| 0 <= i < r@.len() ==> (#[trigger] r@[i]).echo_type == all_icmp_types_spec()[i]
            && r@[i].id == all_icmp_types_spec()[i] && r@[i].seq == i,
{
    let types = all_icmp_types();
    let mut probes: Vec<ScanProbe> = Vec::new();
    let mut i: usize = 0;
    while i < types.len()
        invariant
            i <= types@.len(),
            types@ == all_icmp_types_spec(),
            probes@.len() == i,
            forall|j: int| 0 <= j < i ==> (#[trigger] probes@[j]).echo_type == types@[j] && probes@[j].id == types@[j]
                && probes@[j].seq == j,
        decreases types.len() - i,
    {
        let t = types[i];
        probes.push(ScanProbe { echo_type: t, id: widen_byte(t), seq: index_u16(i) });
        i = i + 1;
    }
    probes
}

/// The report line of one message of the full scan.
pub open spec fn scan_line(t: u8, result: ProtocolResult) -> Seq<char> {
    let head = "icmp-full: type="@ + byte_decimal(t) + " ("@ + type_label(t) + ")"@;
    match result {
        ProtocolResult::Pass { .. } => head + " pass"@,
        ProtocolResult::Fail { reason, .. } => head + " fail: "@ + reason@,
        ProtocolResult::Error { reason } => head + " error: "@ + reason@,
    }
}

/// The report line of one message of the full scan: its type, the type's
/// name and the outcome.
pub fn full_scan_line(echo_type: u8, result: &ProtocolResult) -> (r: String)
    ensures
        r@ == scan_line(echo_type, *result),
{
    let mut line = "icmp-full: type=".to_owned();
    let digits = byte_decimal_string(echo_type);
    push_str(&mut line, digits.as_str());
    push_str(&mut line, " (");
    push_str(&mut line, IcmpHeader::name_of_type(echo_type));
    push_str(&mut line, ")");
    match result {
        ProtocolResult::Pass { .. } => push_str(&mut line, " pass"),
        ProtocolResult::Fail { reason, .. } => {
            push_str(&mut line, " fail: ");
            push_str(&mut line, reason.as_str());
        },
        ProtocolResult::Error { reason } => {
            push_str(&mut line, " error: ");
            push_str(&mut line, reason.as_str());
        },
    }
    line
}

/// The result of the full scan: it passes, counting the messages sent.
pub fn full_scan_result(messages_sent: u64) -> (r: ProtocolResult)
    ensures
        r == (ProtocolResult::Pass { sent_bytes: messages_sent, received_bytes: 0 }),
{
    ProtocolResult::Pass { sent_bytes: messages_sent, received_bytes: 0 }
}

/// The raw-socket probe recognises the reply it waits for: an IPv4 header
/// of five words followed by an echo reply (type 0) that carries the
/// probe's identifier is taken as the answer.
pub proof fn lemma_echo_reply_recognised(h: Ipv4Header, id: u16, seq: u16, payload: Seq<u8>)
    requires
        h.ihl % 16 == 5,
    ensures
        is_echo_reply_to(ipv4_wire(h) + echo_packet(0, id, seq, payload), id),
{
    let header = ipv4_wire(h);
    let packet = echo_packet(0, id, seq, payload);
    let datagram = header + packet;
    lemma_echo_packet_layout(0, id, seq, payload);
    let v = h.version % 16;
    assert((v * 16 + 5) % 16 == 5) by (nonlinear_arith)
        requires 0 <= v < 16;
    assert(header.len() == 20);
    assert(header[0] == ((h.version % 16) * 16 + h.ihl % 16) as u8);
    assert(datagram[0] % 16 == 5);
    assert(datagram[20] == packet[0]);
    assert(datagram[24] == packet[4] && datagram[25] == packet[5]);
    assert(packet[4] == be16_bytes(id)[0] && packet[5] == be16_bytes(id)[1]);
    crate::packet::wire::lemma_be16_roundtrip(id);
}

} // verus!
