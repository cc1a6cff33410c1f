//! The `open` and `1kb` echo probes.

use vstd::prelude::*;

use crate::orchestrator::{concat_text, ProtocolResult};
use crate::test::{protocol_info, Layer, ProtocolInfo, ProtocolView, Transport};
use crate::text::{decimal_text, hex_byte, hex_string, hex_text, push_decimal, push_hex_byte, push_str, str_eq};

verus! {

/// One-byte echo over TCP or UDP.
pub struct OpenTest;

/// 1024-byte echo over TCP or UDP, checked by SHA-256.
pub struct KbTest;

impl OpenTest {
    pub fn info(&self) -> (r: ProtocolInfo)
        ensures
            r@ == (ProtocolView { name: "open"@, layer: Layer::L4, transports: seq![Transport::Tcp, Transport::Udp] }),
    {
        let t = vec![Transport::Tcp, Transport::Udp];
        assert(t@ =~= seq![Transport::Tcp, Transport::Udp]);
        protocol_info("open", Layer::L4, t)
    }
}

impl KbTest {
    pub fn info(&self) -> (r: ProtocolInfo)
        ensures
            r@ == (ProtocolView { name: "1kb"@, layer: Layer::L4, transports: seq![Transport::Tcp, Transport::Udp] }),
    {
        let t = vec![Transport::Tcp, Transport::Udp];
        assert(t@ =~= seq![Transport::Tcp, Transport::Udp]);
        protocol_info("1kb", Layer::L4, t)
    }
}

/// The SHA-256 digest of `data` (FIPS 180-4), as sha2 computes it.
pub uninterp spec fn sha256_digest(data: Seq<u8>) -> Seq<u8>;

/// Calls sha2's `Sha256::digest`. Trusted: the result is the digest that
/// sha2 computes for the bytes given, which depends on them alone, and it is
/// 32 bytes long (sha2 declares an output size of 32 bytes for SHA-256).
#[verifier::external_body]
fn sha256_bytes(data: &[u8]) -> (r: Vec<u8>)
    ensures
        r@ == sha256_digest(data@),
        r@.len() == 32,
{
    <sha2::Sha256 as sha2::Digest>::digest(data).to_vec()
}

/// The SHA-256 digest of `data` as 64 lowercase hexadecimal digits.
pub fn compute_sha256(data: &[u8]) -> (r: String)
    ensures
        r@ == hex_text(sha256_digest(data@)),
        r@.len() == 64,
{
    let digest = sha256_bytes(data);
    hex_string(digest.as_slice())
}

/// The payload of the `1kb` probes: 1024 bytes counting up, each value four times.
pub open spec fn kb_payload_spec() -> Seq<u8> {
    Seq::new(1024, |i: int| (i / 4) as u8)
}

/// The 1024-byte payload that the `1kb` and `tls` probes echo.
pub fn kb_payload() -> (r: Vec<u8>)
    ensures
        r@ == kb_payload_spec(),
{
    let mut data: Vec<u8> = Vec::with_capacity(1024);
    let mut i: usize = 0;
    while i < 1024
        invariant
            i <= 1024,
            data@ == kb_payload_spec().take(i as int),
        decreases 1024 - i,
    {
        data.push((i / 4) as u8);
        i = i + 1;
        assert(data@ =~= kb_payload_spec().take(i as int));
    }
    assert(kb_payload_spec().take(1024) =~= kb_payload_spec());
    data
}

/// The byte that the `open` probe sends and expects back.
pub const ONE_BYTE_PAYLOAD: u8 = 0xAA;

/// The verdict on the byte that came back from an `open` echo: a pass when
/// it is the byte sent, otherwise a failure naming both bytes.
pub fn one_byte_echo_verdict(received: u8) -> (r: ProtocolResult)
    ensures
        received == ONE_BYTE_PAYLOAD ==> r == (ProtocolResult::Pass { sent_bytes: 1, received_bytes: 1 }),
        received != ONE_BYTE_PAYLOAD ==> (r matches ProtocolResult::Fail { reason, sent_bytes: 1, received_bytes: 1 }
            && reason@ == "mismatch: sent 0xaa, received 0x"@ + hex_byte(received)),
{
    if received == ONE_BYTE_PAYLOAD {
        ProtocolResult::Pass { sent_bytes: 1, received_bytes: 1 }
    } else {
        let mut reason = "mismatch: sent 0xaa, received 0x".to_owned();
        push_hex_byte(&mut reason, received);
        ProtocolResult::Fail { reason, sent_bytes: 1, received_bytes: 1 }
    }
}

/// The verdict on a 1024-byte echo, by the digests of what was sent and
/// what came back.
pub fn kb_echo_verdict(sent_hash: &str, received_hash: &str) -> (r: ProtocolResult)
    ensures
        sent_hash@ == received_hash@ ==> r == (ProtocolResult::Pass { sent_bytes: 1024, received_bytes: 1024 }),
        sent_hash@ != received_hash@ ==> (r matches ProtocolResult::Fail { reason, sent_bytes: 1024, received_bytes: 1024 }
            && reason@ == "mismatch"@),
{
    if str_eq(sent_hash, received_hash) {
        ProtocolResult::Pass { sent_bytes: 1024, received_bytes: 1024 }
    } else {
        ProtocolResult::Fail { reason: "mismatch".to_owned(), sent_bytes: 1024, received_bytes: 1024 }
    }
}

/// Why an `open` datagram of `n` bytes is not the echo: `short recv: N bytes`.
pub fn short_recv_reason(n: u64) -> (r: String)
    ensures
        r@ == "short recv: "@ + decimal_text(n as nat) + " bytes"@,
{
    let mut r = "short recv: ".to_owned();
    push_decimal(&mut r, n);
    push_str(&mut r, " bytes");
    r
}

/// The verdict on a `1kb` datagram of `n` bytes, which is not 1024 long.
pub fn kb_length_failure(n: u64, sent: u64) -> (r: ProtocolResult)
    ensures
        r matches ProtocolResult::Fail { reason, sent_bytes, received_bytes }
            && reason@ == "recv len: "@ + decimal_text(n as nat) + " != 1024"@
            && sent_bytes == sent && received_bytes == n,
{
    let mut reason = "recv len: ".to_owned();
    push_decimal(&mut reason, n);
    push_str(&mut reason, " != 1024");
    ProtocolResult::Fail { reason, sent_bytes: sent, received_bytes: n }
}

} // verus!
