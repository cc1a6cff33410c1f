//! The catalogue of probes: layers, transports, directions and the registry
//! that finds a probe by name.

use vstd::prelude::*;

use crate::orchestrator::{concat_text, ProtocolResult};
use crate::text::{str_eq, push_char, push_str};

pub mod icmp;
pub mod port;

verus! {

/// The network layer a probe exercises.
#[derive(Debug, Clone, Copy, PartialEq, Eq, Hash, Structural)]
pub enum Layer {
    L3,
    L4,
    L7,
}

/// The transport a probe runs over.
#[derive(Debug, Clone, Copy, PartialEq, Eq, Hash, Structural)]
pub enum Transport {
    Tcp,
    Udp,
    Icmp,
}

/// Which side starts a probe.
#[derive(Debug, Clone, Copy, PartialEq, Eq, Structural)]
pub enum Direction {
    ClientToServer,
    ServerToClient,
}

/// A transport's name on the command line and in the control protocol.
pub open spec fn transport_text(t: Transport) -> Seq<char> {
    match t {
        Transport::Tcp => "tcp"@,
        Transport::Udp => "udp"@,
        Transport::Icmp => "icmp"@,
    }
}

/// The transport named by `s`, if any.
pub open spec fn transport_from_text(s: Seq<char>) -> Option<Transport> {
    if s == "tcp"@ {
        Some(Transport::Tcp)
    } else if s == "udp"@ {
        Some(Transport::Udp)
    } else if s == "icmp"@ {
        Some(Transport::Icmp)
    } else {
        None
    }
}

/// A direction's arrow in the control protocol.
pub open spec fn direction_text(d: Direction) -> Seq<char> {
    match d {
        Direction::ClientToServer => "->"@,
        Direction::ServerToClient => "<-"@,
    }
}

/// The other direction.
pub open spec fn reversed(d: Direction) -> Direction {
    match d {
        Direction::ClientToServer => Direction::ServerToClient,
        Direction::ServerToClient => Direction::ClientToServer,
    }
}

impl Transport {
    pub fn as_str(&self) -> (r: &'static str)
        ensures
            r@ == transport_text(*self),
    {
        match self {
            Transport::Tcp => "tcp",
            Transport::Udp => "udp",
            Transport::Icmp => "icmp",
        }
    }

    pub fn from_str(s: &str) -> (r: Option<Self>)
        ensures
            r == transport_from_text(s@),
    {
        if str_eq(s, "tcp") {
            Some(Transport::Tcp)
        } else if str_eq(s, "udp") {
            Some(Transport::Udp)
        } else if str_eq(s, "icmp") {
            Some(Transport::Icmp)
        } else {
            None
        }
    }
}

impl Direction {
    pub fn as_str(&self) -> (r: &'static str)
        ensures
            r@ == direction_text(*self),
    {
        match self {
            Direction::ClientToServer => "->",
            Direction::ServerToClient => "<-",
        }
    }

    /// The opposite direction (a server runs each probe from the other end).
    pub fn reverse(&self) -> (r: Direction)
        ensures
            r == reversed(*self),
    {
        match self {
            Direction::ClientToServer => Direction::ServerToClient,
            Direction::ServerToClient => Direction::ClientToServer,
        }
    }
}

/// Parsing a transport's name gives the transport back.
pub proof fn lemma_transport_text_roundtrip(t: Transport)
    ensures
        transport_from_text(transport_text(t)) == Some(t),
{
    reveal_strlit("tcp");
    reveal_strlit("udp");
    reveal_strlit("icmp");
    assert("tcp"@[0] == 't' && "udp"@[0] == 'u' && "icmp"@[0] == 'i');
    match t {
        Transport::Tcp => {},
        Transport::Udp => {
            assert("udp"@ != "tcp"@);
        },
        Transport::Icmp => {
            assert("icmp"@ != "tcp"@);
            assert("icmp"@ != "udp"@);
        },
    }
}

/// Reversing a direction twice gives it back, and a direction is never its own reverse.
pub proof fn lemma_reverse_involution(d: Direction)
    ensures
        reversed(reversed(d)) == d,
        reversed(d) != d,
{
}

/// What the registry knows of a probe: its name, layer and transports.
#[derive(Debug, Clone)]
pub struct ProtocolInfo {
    pub name: String,
    pub layer: Layer,
    pub transports: Vec<Transport>,
}

/// The abstract value of a probe's description.
pub struct ProtocolView {
    pub name: Seq<char>,
    pub layer: Layer,
    pub transports: Seq<Transport>,
}

impl View for ProtocolInfo {
    type V = ProtocolView;

    open spec fn view(&self) -> ProtocolView {
        ProtocolView { name: self.name@, layer: self.layer, transports: self.transports@ }
    }
}

impl ProtocolInfo {
    /// A copy of this description.
    pub fn duplicate(&self) -> (r: ProtocolInfo)
        ensures
            r@ == self@,
    {
        ProtocolInfo {
            name: self.name.clone(),
            layer: self.layer,
            transports: self.transports.clone(),
        }
    }

    /// Whether the probe runs over `t`.
    pub fn supports(&self, t: Transport) -> (r: bool)
        ensures
            r == self@.transports.contains(t),
    {
        let mut i: usize = 0;
        while i < self.transports.len()
            invariant
                i <= self.transports@.len(),
                forall|j: int| 0 <= j < i ==> self.transports@[j] != t,
            decreases self.transports.len() - i,
        {
            if self.transports[i] == t {
                return true;
            }
            i = i + 1;
        }
        false
    }
}

/// Index of the first probe at or after `from` named `name`, if any.
pub open spec fn first_named_from(protocols: Seq<ProtocolView>, name: Seq<char>, from: int) -> Option<int>
    decreases protocols.len() - from,
{
    if from < 0 || from >= protocols.len() {
        None
    } else if protocols[from].name == name {
        Some(from)
    } else {
        first_named_from(protocols, name, from + 1)
    }
}

/// Index of the first probe named `name`, if any.
pub open spec fn first_named(protocols: Seq<ProtocolView>, name: Seq<char>) -> Option<int> {
    first_named_from(protocols, name, 0)
}

/// The probes known to a session, in registration order.
pub struct TestRegistry {
    protocols: Vec<ProtocolInfo>,
}

impl View for TestRegistry {
    type V = Seq<ProtocolView>;

    closed spec fn view(&self) -> Seq<ProtocolView> {
        self.protocols@.map_values(|p: ProtocolInfo| p@)
    }
}

impl TestRegistry {
    pub fn new() -> (r: Self)
        ensures
            r@ == Seq::<ProtocolView>::empty(),
    {
        let r = TestRegistry { protocols: Vec::new() };
        assert(r@ =~= Seq::<ProtocolView>::empty());
        r
    }

    pub fn register(&mut self, protocol: ProtocolInfo)
        ensures
            final(self)@ == old(self)@.push(protocol@),
    {
        self.protocols.push(protocol);
        assert(final(self)@ =~= old(self)@.push(protocol@));
    }

    /// The first registered probe called `name`.
    pub fn find(&self, name: &str) -> (r: Option<&ProtocolInfo>)
        ensures
            match first_named(self@, name@) {
                Some(i) => r matches Some(p) && p@ == self@[i],
                None => r is None,
            },
    {
        let mut i: usize = 0;
        while i < self.protocols.len()
            invariant
                i <= self.protocols@.len(),
                self@.len() == self.protocols@.len(),
                first_named(self@, name@) == first_named_from(self@, name@, i as int),
            decreases self.protocols.len() - i,
        {
            if str_eq(self.protocols[i].name.as_str(), name) {
                return Some(&self.protocols[i]);
            }
            i = i + 1;
        }
        None
    }

    /// The registered probes' names, in registration order.
    pub fn names(&self) -> (r: Vec<String>)
        ensures
            r@.len() == self@.len(),
            forall|i: int| 0 <= i < r@.len() ==> #[trigger] r@[i]@ == self@[i].name,
    {
        let mut r: Vec<String> = Vec::new();
        let mut i: usize = 0;
        while i < self.protocols.len()
            invariant
                i <= self.protocols@.len(),
                self@.len() == self.protocols@.len(),
                r@.len() == i,
                forall|j: int| 0 <= j < i ==> #[trigger] r@[j]@ == self@[j].name,
            decreases self.protocols.len() - i,
        {
            r.push(self.protocols[i].name.clone());
            i = i + 1;
        }
        r
    }

    pub fn is_empty(&self) -> (r: bool)
        ensures
            r == (self@.len() == 0),
    {
        self.protocols.len() == 0
    }

    /// The number of registered probes.
    pub fn len(&self) -> (r: usize)
        ensures
            r == self@.len(),
    {
        self.protocols.len()
    }

    /// The probe registered at `index`.
    pub fn get(&self, index: usize) -> (r: &ProtocolInfo)
        requires
            index < self@.len(),
        ensures
            r@ == self@[index as int],
    {
        &self.protocols[index]
    }
}

impl Default for TestRegistry {
    fn default() -> (r: Self)
        ensures
            r@ == Seq::<ProtocolView>::empty(),
    {
        TestRegistry::new()
    }
}

/// A probe description with the given name, layer and transports.
pub fn protocol_info(name: &str, layer: Layer, transports: Vec<Transport>) -> (r: ProtocolInfo)
    ensures
        r@ == (ProtocolView { name: name@, layer, transports: transports@ }),
{
    ProtocolInfo { name: name.to_owned(), layer, transports }
}

/// The probes every session knows, in the order the command line lists them.
pub open spec fn standard_protocols() -> Seq<ProtocolView> {
    seq![
        ProtocolView { name: "open"@, layer: Layer::L4, transports: seq![Transport::Tcp, Transport::Udp] },
        ProtocolView { name: "1kb"@, layer: Layer::L4, transports: seq![Transport::Tcp, Transport::Udp] },
        ProtocolView { name: "icmp-ping"@, layer: Layer::L3, transports: seq![Transport::Icmp] },
        ProtocolView { name: "icmp-full"@, layer: Layer::L3, transports: seq![Transport::Icmp] },
        ProtocolView { name: "tls"@, layer: Layer::L7, transports: seq![Transport::Tcp] },
        ProtocolView { name: "dns"@, layer: Layer::L7, transports: seq![Transport::Tcp, Transport::Udp] },
    ]
}

/// A registry holding the standard probes.
pub fn build_registry() -> (r: TestRegistry)
    ensures
        r@ == standard_protocols(),
{
    let mut registry = TestRegistry::new();
    registry.register(port::OpenTest.info());
    registry.register(port::KbTest.info());
    registry.register(icmp::IcmpPingTest.info());
    registry.register(icmp::IcmpFullTest.info());
    registry.register(tls_test::TlsTest.info());
    registry.register(dns::DnsTest.info());
    assert(registry@ =~= standard_protocols());
    registry
}

/// Which end of a two-party probe this side plays.
#[derive(Debug, Clone, Copy, PartialEq, Eq, Structural)]
pub enum ProbeRole {
    /// Sends first and judges the reply.
    Initiator,
    /// Waits for the other side and answers it.
    Target,
}

/// The end that this side plays in the probe `test_name` over `transport`
/// in `direction`: the initiator of a client-to-server probe, the target of
/// the reverse. A probe over TCP or UDP refuses ICMP with an error that
/// names it.
pub fn stream_probe_role(test_name: &str, transport: Transport, direction: Direction) -> (r: Result<ProbeRole, ProtocolResult>)
    ensures
        transport == Transport::Icmp ==> (r matches Err(ProtocolResult::Error { reason })
            && reason@ == "ICMP not supported by "@ + test_name@ + " test"@),
        transport != Transport::Icmp ==> r == Ok::<ProbeRole, ProtocolResult>(
            if direction == Direction::ClientToServer { ProbeRole::Initiator } else { ProbeRole::Target }),
{
    match transport {
        Transport::Icmp => {
            let mut reason = concat_text("ICMP not supported by ", test_name);
            push_str(&mut reason, " test");
            Err(ProtocolResult::Error { reason })
        },
        _ => match direction {
            Direction::ClientToServer => Ok(ProbeRole::Initiator),
            Direction::ServerToClient => Ok(ProbeRole::Target),
        },
    }
}

/// What one attempt to connect to the other side gave.
#[derive(Debug, Clone)]
pub enum ConnectOutcome {
    /// The connection stands.
    Connected,
    /// The other side refused it (it may not listen yet).
    Refused,
    /// No answer came within the per-probe timeout.
    TimedOut,
    /// Any other error, with its description.
    Failed(String),
}

/// What an initiator does after an attempt to connect.
#[derive(Debug, PartialEq)]
pub enum ConnectAction {
    /// Go on with the probe over the connection.
    Proceed,
    /// Pause briefly and try again.
    Retry,
    /// End the probe with this result.
    Finish(ProtocolResult),
}

/// How many times a TCP initiator tries to connect.
pub const CONNECT_ATTEMPTS: u32 = 20;

/// The initiator's decision after attempt number `attempt` (counted from 0)
/// of `attempts`: a connection is used; any error other than a refusal or a
/// timeout ends the probe; a refusal or a timeout is tried again while
/// attempts are left, and otherwise ends the probe with its name.
pub fn connect_step(attempt: u32, attempts: u32, outcome: &ConnectOutcome) -> (r: ConnectAction)
    ensures
        outcome is Connected ==> r == ConnectAction::Proceed,
        outcome matches ConnectOutcome::Failed(e) ==> (r matches ConnectAction::Finish(
            ProtocolResult::Fail { reason, sent_bytes: 0, received_bytes: 0 },
        ) && reason@ == "connect: "@ + e@),
        (outcome is Refused || outcome is TimedOut) && attempt + 1 < attempts ==> r == ConnectAction::Retry,
        outcome is Refused && attempt + 1 >= attempts ==> (r matches ConnectAction::Finish(
            ProtocolResult::Fail { reason, sent_bytes: 0, received_bytes: 0 },
        ) && reason@ == "refused"@),
        outcome is TimedOut && attempt + 1 >= attempts ==> (r matches ConnectAction::Finish(
            ProtocolResult::Fail { reason, sent_bytes: 0, received_bytes: 0 },
        ) && reason@ == "timeout"@),
{
    let last = attempt as u64 + 1 >= attempts as u64;
    match outcome {
        ConnectOutcome::Connected => ConnectAction::Proceed,
        ConnectOutcome::Failed(e) => ConnectAction::Finish(
            ProtocolResult::Fail { reason: concat_text("connect: ", e.as_str()), sent_bytes: 0, received_bytes: 0 },
        ),
        ConnectOutcome::Refused => if last {
            ConnectAction::Finish(ProtocolResult::Fail { reason: "refused".to_owned(), sent_bytes: 0, received_bytes: 0 })
        } else {
            ConnectAction::Retry
        },
        ConnectOutcome::TimedOut => if last {
            ConnectAction::Finish(ProtocolResult::Fail { reason: "timeout".to_owned(), sent_bytes: 0, received_bytes: 0 })
        } else {
            ConnectAction::Retry
        },
    }
}

/// What one attempt of a datagram probe gave.
#[derive(Debug, Clone)]
pub enum AttemptOutcome {
    /// The probe is decided, with this result.
    Done(ProtocolResult),
    /// The attempt failed for this reason; another may succeed.
    Failed(String),
}

/// What a datagram probe does after an attempt.
#[derive(Debug, PartialEq)]
pub enum AttemptAction {
    /// Pause briefly (an initiator) and make the next attempt.
    Retry,
    /// End the probe with this result.
    Finish(ProtocolResult),
}

/// How many attempts a UDP probe makes.
pub const UDP_ATTEMPTS: u32 = 5;

/// The decision after attempt number `attempt` (counted from 0) of
/// `attempts` of a probe that has moved `sent_bytes` and `received_bytes`
/// when all its attempts fail: a decided probe ends with its result; a failed
/// attempt is made again while attempts are left, and the reason of the last
/// one ends the probe as a failure.
pub fn attempt_step(attempt: u32, attempts: u32, outcome: AttemptOutcome, sent_bytes: u64, received_bytes: u64) -> (r: AttemptAction)
    ensures
        match outcome {
            AttemptOutcome::Done(result) => r == AttemptAction::Finish(result),
            AttemptOutcome::Failed(reason) => if attempt + 1 < attempts {
                r == AttemptAction::Retry
            } else {
                r == AttemptAction::Finish(ProtocolResult::Fail { reason, sent_bytes, received_bytes })
            },
        },
{
    match outcome {
        AttemptOutcome::Done(result) => AttemptAction::Finish(result),
        AttemptOutcome::Failed(reason) => if attempt as u64 + 1 >= attempts as u64 {
            AttemptAction::Finish(ProtocolResult::Fail { reason, sent_bytes, received_bytes })
        } else {
            AttemptAction::Retry
        },
    }
}

} // verus!
