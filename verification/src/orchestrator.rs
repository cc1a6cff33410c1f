//! The decisions of a test session. The program around the library carries
//! messages and runs the probes; these functions say what to send, what to run
//! and how a session ends.

use vstd::prelude::*;

use crate::control::msg::{Message, PortRangeSpec, TestSummary, TransferReport};
use crate::test::{
    direction_text, first_named, reversed, transport_from_text, transport_text, Direction,
    ProtocolInfo, ProtocolView, TestRegistry, Transport,
};
use crate::text::{decimal_text, json_escape, push_decimal, push_json_escaped, push_str};

verus! {

/// The outcome of one probe.
#[derive(Debug, Clone, PartialEq)]
pub enum ProtocolResult {
    Pass { sent_bytes: u64, received_bytes: u64 },
    Fail { reason: String, sent_bytes: u64, received_bytes: u64 },
    Error { reason: String },
}

/// `prefix` followed by `rest`.
pub fn concat_text(prefix: &str, rest: &str) -> (r: String)
    ensures
        r@ == prefix@ + rest@,
{
    let mut s: String = prefix.to_owned();
    push_str(&mut s, rest);
    s
}

/// The direction an arrow names, if any.
pub open spec fn direction_from_text(s: Seq<char>) -> Option<Direction> {
    if s == "->"@ {
        Some(Direction::ClientToServer)
    } else if s == "<-"@ {
        Some(Direction::ServerToClient)
    } else {
        None
    }
}

/// The direction named by an arrow of the control protocol.
pub fn parse_direction(s: &str) -> (r: Result<Direction, String>)
    ensures
        match direction_from_text(s@) {
            Some(d) => r == Ok::<Direction, String>(d),
            None => r matches Err(e) && e@ == "unknown direction: "@ + s@,
        },
{
    if crate::text::str_eq(s, "->") {
        Ok(Direction::ClientToServer)
    } else if crate::text::str_eq(s, "<-") {
        Ok(Direction::ServerToClient)
    } else {
        Err(concat_text("unknown direction: ", s))
    }
}

/// Parsing a direction's arrow gives the direction back.
pub proof fn lemma_direction_text_roundtrip(d: Direction)
    ensures
        direction_from_text(direction_text(d)) == Some(d),
{
    reveal_strlit("->");
    reveal_strlit("<-");
    assert("->"@[0] != "<-"@[0]);
}

/// A transfer report with no digest.
fn bytes_report(bytes: u64) -> (r: TransferReport)
    ensures
        r.bytes == bytes,
        r.sha256@ == Seq::<char>::empty(),
{
    TransferReport { bytes, sha256: String::new() }
}

/// Whether `r` is the report of probe `id` with `result`: byte counts (with
/// empty digests) for a pass or a failure, the failure's reason as error,
/// and only the reason for an error.
pub open spec fn is_report_of(r: Message, id: u32, result: ProtocolResult) -> bool {
    match result {
        ProtocolResult::Pass { sent_bytes, received_bytes } => r matches Message::Report {
            id: rid,
            sent: Some(s),
            received: Some(v),
            error: None,
        } && rid == id && s.bytes == sent_bytes && s.sha256@.len() == 0 && v.bytes
            == received_bytes && v.sha256@.len() == 0,
        ProtocolResult::Fail { reason, sent_bytes, received_bytes } => r matches Message::Report {
            id: rid,
            sent: Some(s),
            received: Some(v),
            error: Some(e),
        } && rid == id && s.bytes == sent_bytes && s.sha256@.len() == 0 && v.bytes
            == received_bytes && v.sha256@.len() == 0 && e@ == reason@,
        ProtocolResult::Error { reason } => r matches Message::Report {
            id: rid,
            sent: None,
            received: None,
            error: Some(e),
        } && rid == id && e@ == reason@,
    }
}

/// The report a server sends for probe `id`.
pub fn protocol_result_to_report(id: u32, result: &ProtocolResult) -> (r: Message)
    ensures
        is_report_of(r, id, *result),
{
    match result {
        ProtocolResult::Pass { sent_bytes, received_bytes } => Message::Report {
            id,
            sent: Some(bytes_report(*sent_bytes)),
            received: Some(bytes_report(*received_bytes)),
            error: None,
        },
        ProtocolResult::Fail { reason, sent_bytes, received_bytes } => Message::Report {
            id,
            sent: Some(bytes_report(*sent_bytes)),
            received: Some(bytes_report(*received_bytes)),
            error: Some(reason.clone()),
        },
        ProtocolResult::Error { reason } => Message::Report {
            id,
            sent: None,
            received: None,
            error: Some(reason.clone()),
        },
    }
}

/// The summary after counting one more result.
pub open spec fn counted(s: TestSummary, result: ProtocolResult) -> TestSummary {
    match result {
        ProtocolResult::Pass { .. } => TestSummary { passed: (s.passed + 1) as u32, ..s },
        ProtocolResult::Fail { .. } => TestSummary { failed: (s.failed + 1) as u32, ..s },
        ProtocolResult::Error { .. } => TestSummary { errors: (s.errors + 1) as u32, ..s },
    }
}

/// Whether one more result of any kind can still be counted.
pub open spec fn can_count(s: TestSummary) -> bool {
    s.passed < u32::MAX && s.failed < u32::MAX && s.errors < u32::MAX
}

/// The number of results a summary has counted.
pub open spec fn summary_total(s: TestSummary) -> int {
    s.passed + s.failed + s.errors
}

impl TestSummary {
    /// A summary that has counted nothing.
    pub fn empty() -> (r: TestSummary)
        ensures
            r == (TestSummary { passed: 0, failed: 0, errors: 0 }),
    {
        TestSummary { passed: 0, failed: 0, errors: 0 }
    }

    /// Counts one result under its kind.
    pub fn record(&mut self, result: &ProtocolResult)
        requires
            can_count(*old(self)),
        ensures
            *final(self) == counted(*old(self), *result),
            summary_total(*final(self)) == summary_total(*old(self)) + 1,
    {
        match result {
            ProtocolResult::Pass { .. } => self.passed = self.passed + 1,
            ProtocolResult::Fail { .. } => self.failed = self.failed + 1,
            ProtocolResult::Error { .. } => self.errors = self.errors + 1,
        }
    }

    /// Whether one more result of any kind can be counted.
    pub fn has_room(&self) -> (r: bool)
        ensures
            r == can_count(*self),
    {
        self.passed < u32::MAX && self.failed < u32::MAX && self.errors < u32::MAX
    }

    /// Whether every counted result passed.
    pub fn all_passed(&self) -> (r: bool)
        ensures
            r == (self.failed == 0 && self.errors == 0),
    {
        self.failed == 0 && self.errors == 0
    }
}

/// What a client requires of the server's answer to its configuration.
pub fn check_ack(msg: &Message) -> (r: Result<(), String>)
    ensures
        match *msg {
            Message::Ack { ok: true, .. } => r is Ok,
            Message::Ack { ok: false, message: Some(m) } => r matches Err(e) && e@
                == "server rejected config: "@ + m@,
            Message::Ack { ok: false, message: None } => r matches Err(e) && e@
                == "server rejected config"@,
            _ => r matches Err(e) && e@ == "expected Ack"@,
        },
{
    match msg {
        Message::Ack { ok: true, .. } => Ok(()),
        Message::Ack { ok: false, message: Some(m) } => Err(
            concat_text("server rejected config: ", m.as_str()),
        ),
        Message::Ack { ok: false, message: None } => Err("server rejected config".to_owned()),
        _ => Err("expected Ack".to_owned()),
    }
}

/// What a client requires after running a probe: the server's report.
pub fn check_report(msg: &Message) -> (r: Result<(), String>)
    ensures
        msg is Report ==> r is Ok,
        !(msg is Report) ==> (r matches Err(e) && e@ == "expected Report"@),
{
    match msg {
        Message::Report { .. } => Ok(()),
        _ => Err("expected Report".to_owned()),
    }
}

/// How a client's session ends: with the server's goodbye it reports its own
/// counts; anything else is an error.
pub fn check_bye(msg: &Message, summary: TestSummary) -> (r: Result<TestSummary, String>)
    ensures
        msg is Bye ==> r == Ok::<TestSummary, String>(summary),
        !(msg is Bye) ==> (r matches Err(e) && e@ == "expected Bye"@),
{
    match msg {
        Message::Bye { .. } => Ok(summary),
        _ => Err("expected Bye".to_owned()),
    }
}

/// Where a server's session stands.
#[derive(Debug, Clone, Copy, PartialEq, Eq, Structural)]
pub enum ServerPhase {
    /// Waiting for the client's configuration.
    AwaitingConfigure,
    /// Running probes; the counts so far.
    Running(TestSummary),
    /// The session is over.
    Finished,
}

/// What a server does next.
#[derive(Debug, Clone)]
pub enum ServerAction {
    /// Accept the configuration.
    SendAck,
    /// Run a probe from the server's end (the direction is already the server's).
    RunTest { id: u32, protocol: String, transport: Transport, port: u16, direction: Direction },
    /// Say goodbye with the final counts.
    SendBye(TestSummary),
    /// End the session with this error.
    Abort(String),
}

/// The server's step on receiving `msg`.
pub fn server_step(registry: &TestRegistry, phase: ServerPhase, msg: &Message) -> (r: (
    ServerPhase,
    ServerAction,
))
    requires
        !(phase is Finished),
    ensures
        phase is AwaitingConfigure && msg is Configure ==> r.0 == ServerPhase::Running(
            TestSummary { passed: 0, failed: 0, errors: 0 },
        ) && r.1 is SendAck,
        phase is AwaitingConfigure && !(msg is Configure) ==> r.0 == ServerPhase::Finished
            && (r.1 matches ServerAction::Abort(e) && e@ == "expected Configure message"@),
        phase matches ServerPhase::Running(s) ==> match *msg {
            Message::Test { id, protocol, transport, port, direction } => if first_named(
                registry@,
                protocol@,
            ) is None {
                r.0 == ServerPhase::Finished && (r.1 matches ServerAction::Abort(e) && e@
                    == "unknown protocol: "@ + protocol@)
            } else if transport_from_text(transport@) is None {
                r.0 == ServerPhase::Finished && (r.1 matches ServerAction::Abort(e) && e@
                    == "unknown transport: "@ + transport@)
            } else if direction_from_text(direction@) is None {
                r.0 == ServerPhase::Finished && (r.1 matches ServerAction::Abort(e) && e@
                    == "unknown direction: "@ + direction@)
            } else {
                r.0 == phase && (r.1 matches ServerAction::RunTest {
                    id: rid,
                    protocol: rp,
                    transport: rt,
                    port: rport,
                    direction: rd,
                } && rid == id && rp@ == protocol@ && Some(rt) == transport_from_text(transport@)
                    && rport == port && Some(reversed(rd)) == direction_from_text(direction@))
            },
            Message::Done => r.0 == ServerPhase::Finished && r.1 == ServerAction::SendBye(s),
            _ => r.0 == ServerPhase::Finished && (r.1 matches ServerAction::Abort(e) && e@
                == "unexpected message, expected Test or Done"@),
        },
{
    match phase {
        ServerPhase::AwaitingConfigure => match msg {
            Message::Configure { .. } => (
                ServerPhase::Running(TestSummary::empty()),
                ServerAction::SendAck,
            ),
            _ => (
                ServerPhase::Finished,
                ServerAction::Abort("expected Configure message".to_owned()),
            ),
        },
        ServerPhase::Running(s) => match msg {
            Message::Test { id, protocol, transport, port, direction } => {
                if registry.find(protocol.as_str()).is_none() {
                    return (
                        ServerPhase::Finished,
                        ServerAction::Abort(concat_text("unknown protocol: ", protocol.as_str())),
                    );
                }
                let t = match Transport::from_str(transport.as_str()) {
                    Some(t) => t,
                    None => {
                        return (
                            ServerPhase::Finished,
                            ServerAction::Abort(
                                concat_text("unknown transport: ", transport.as_str()),
                            ),
                        );
                    },
                };
                let d = match parse_direction(direction.as_str()) {
                    Ok(d) => d,
                    Err(e) => {
                        return (ServerPhase::Finished, ServerAction::Abort(e));
                    },
                };
                (
                    phase,
                    ServerAction::RunTest {
                        id: *id,
                        protocol: protocol.clone(),
                        transport: t,
                        port: *port,
                        direction: d.reverse(),
                    },
                )
            },
            Message::Done => (ServerPhase::Finished, ServerAction::SendBye(s)),
            _ => (
                ServerPhase::Finished,
                ServerAction::Abort("unexpected message, expected Test or Done".to_owned()),
            ),
        },
        ServerPhase::Finished => (ServerPhase::Finished, ServerAction::SendBye(TestSummary::empty())),
    }
}

/// The server's step once a probe it ran has finished: count the result and
/// send its report.
pub fn server_record(phase: ServerPhase, id: u32, result: &ProtocolResult) -> (r: (
    ServerPhase,
    Message,
))
    requires
        phase matches ServerPhase::Running(s) && can_count(s),
    ensures
        phase matches ServerPhase::Running(s) && r.0 == ServerPhase::Running(counted(s, *result)),
        is_report_of(r.1, id, *result),
{
    let mut s = match phase {
        ServerPhase::Running(s) => s,
        _ => TestSummary::empty(),
    };
    s.record(result);
    (ServerPhase::Running(s), protocol_result_to_report(id, result))
}

/// The abstract values of a list of port ranges.
pub open spec fn range_views(ranges: Seq<PortRangeSpec>) -> Seq<(Seq<char>, u16, u16)> {
    ranges.map_values(|r: PortRangeSpec| r@)
}

/// The abstract values of a list of strings.
pub open spec fn text_views(texts: Seq<String>) -> Seq<Seq<char>> {
    texts.map_values(|s: String| s@)
}

/// Whether some range names transport `t`.
pub open spec fn has_range_for(ranges: Seq<(Seq<char>, u16, u16)>, t: Transport) -> bool {
    exists|i: int| 0 <= i < ranges.len() && transport_from_text(#[trigger] ranges[i].0) == Some(t)
}

/// Whether some range names one of the probe's transports.
pub open spec fn covers(p: ProtocolView, ranges: Seq<(Seq<char>, u16, u16)>) -> bool {
    exists|k: int| 0 <= k < p.transports.len() && has_range_for(ranges, #[trigger] p.transports[k])
}

/// The transport of the layer-3 probes.
pub open spec fn l3_transport() -> Transport {
    Transport::Icmp
}

/// The range added for ICMP probes that no range covers.
pub open spec fn l3_range() -> (Seq<char>, u16, u16) {
    ("icmp"@, 0u16, 0u16)
}

/// `parts` joined with `sep`.
pub open spec fn join_texts(parts: Seq<Seq<char>>, sep: Seq<char>) -> Seq<char>
    decreases parts.len(),
{
    if parts.len() == 0 {
        Seq::empty()
    } else if parts.len() == 1 {
        parts[0]
    } else {
        join_texts(parts.drop_last(), sep) + sep + parts.last()
    }
}

/// The message for a probe that no range covers.
pub open spec fn uncovered_message(name: Seq<char>, p: ProtocolView) -> Seq<char> {
    name + " needs a matching --port-range (supports "@ + join_texts(
        p.transports.map_values(|t: Transport| transport_text(t)),
        ", "@,
    ) + ")"@
}

/// Checking one requested probe against the ranges: an unknown probe is an
/// error; a probe that some range covers leaves the ranges as they are; an
/// ICMP probe that none covers adds the ICMP range; any other is an error.
pub open spec fn resolve_one(
    reg: Seq<ProtocolView>,
    name: Seq<char>,
    ranges: Seq<(Seq<char>, u16, u16)>,
) -> Result<Seq<(Seq<char>, u16, u16)>, Seq<char>> {
    match first_named(reg, name) {
        None => Err("unknown protocol: "@ + name),
        Some(i) => if covers(reg[i], ranges) {
            Ok(ranges)
        } else if reg[i].transports.contains(Transport::Icmp) {
            Ok(ranges.push(l3_range()))
        } else {
            Err(uncovered_message(name, reg[i]))
        },
    }
}

/// Checking the requested probes in order, each against the ranges as the
/// earlier ones left them; the first error ends the check.
pub open spec fn resolve_all(
    reg: Seq<ProtocolView>,
    names: Seq<Seq<char>>,
    ranges: Seq<(Seq<char>, u16, u16)>,
) -> Result<Seq<(Seq<char>, u16, u16)>, Seq<char>>
    decreases names.len(),
{
    if names.len() == 0 {
        Ok(ranges)
    } else {
        match resolve_all(reg, names.drop_last(), ranges) {
            Err(e) => Err(e),
            Ok(rs) => resolve_one(reg, names.last(), rs),
        }
    }
}

/// Once the check has failed, the probes after it do not change the outcome.
proof fn lemma_resolve_error_persists(
    reg: Seq<ProtocolView>,
    names: Seq<Seq<char>>,
    ranges: Seq<(Seq<char>, u16, u16)>,
    k: int,
    m: int,
)
    requires
        0 <= k <= m <= names.len(),
        resolve_all(reg, names.take(k), ranges) is Err,
    ensures
        resolve_all(reg, names.take(m), ranges) == resolve_all(reg, names.take(k), ranges),
    decreases m - k,
{
    if m > k {
        lemma_resolve_error_persists(reg, names, ranges, k, m - 1);
        assert(names.take(m).drop_last() =~= names.take(m - 1));
    }
}

fn has_range_for_exec(ranges: &Vec<PortRangeSpec>, t: Transport) -> (r: bool)
    ensures
        r == has_range_for(range_views(ranges@), t),
{
    let mut i: usize = 0;
    while i < ranges.len()
        invariant
            i <= ranges@.len(),
            forall|j: int| 0 <= j < i ==> transport_from_text(#[trigger] ranges@[j].transport@) != Some(t),
        decreases ranges.len() - i,
    {
        if Transport::from_str(ranges[i].transport.as_str()) == Some(t) {
            assert(transport_from_text(range_views(ranges@)[i as int].0) == Some(t));
            return true;
        }
        i = i + 1;
    }
    assert forall|j: int| 0 <= j < range_views(ranges@).len() implies transport_from_text(
        #[trigger] range_views(ranges@)[j].0,
    ) != Some(t) by {
        assert(range_views(ranges@)[j].0 == ranges@[j].transport@);
    }
    false
}

fn covers_exec(p: &ProtocolInfo, ranges: &Vec<PortRangeSpec>) -> (r: bool)
    ensures
        r == covers(p@, range_views(ranges@)),
{
    let mut k: usize = 0;
    while k < p.transports.len()
        invariant
            k <= p.transports@.len(),
            forall|j: int| 0 <= j < k ==> !has_range_for(range_views(ranges@), #[trigger] p.transports@[j]),
        decreases p.transports.len() - k,
    {
        if has_range_for_exec(ranges, p.transports[k]) {
            assert(has_range_for(range_views(ranges@), p@.transports[k as int]));
            return true;
        }
        k = k + 1;
    }
    false
}

/// The names of a probe's transports joined with `", "`.
fn transports_joined(p: &ProtocolInfo) -> (r: String)
    ensures
        r@ == join_texts(p@.transports.map_values(|t: Transport| transport_text(t)), ", "@),
{
    let ghost texts = p@.transports.map_values(|t: Transport| transport_text(t));
    let mut out = String::new();
    let mut k: usize = 0;
    while k < p.transports.len()
        invariant
            k <= p.transports@.len(),
            texts == p@.transports.map_values(|t: Transport| transport_text(t)),
            out@ == join_texts(texts.take(k as int), ", "@),
        decreases p.transports.len() - k,
    {
        if k > 0 {
            push_str(&mut out, ", ");
        }
        push_str(&mut out, p.transports[k].as_str());
        proof {
            assert(texts.take(k + 1).drop_last() =~= texts.take(k as int));
            if k == 0 {
                assert(texts.take(1) =~= seq![texts[0]]);
            }
        }
        k = k + 1;
    }
    assert(texts.take(p.transports@.len() as int) =~= texts);
    out
}

/// Whether the probe runs over the network layer itself.
fn supports_l3(p: &ProtocolInfo) -> (r: bool)
    ensures
        r == p@.transports.contains(Transport::Icmp),
{
    p.supports(Transport::Icmp)
}

/// The copy of a list of ranges.
fn copy_ranges(ranges: &Vec<PortRangeSpec>) -> (r: Vec<PortRangeSpec>)
    ensures
        range_views(r@) == range_views(ranges@),
{
    let mut out: Vec<PortRangeSpec> = Vec::new();
    let mut i: usize = 0;
    while i < ranges.len()
        invariant
            i <= ranges@.len(),
            range_views(out@) == range_views(ranges@).take(i as int),
        decreases ranges.len() - i,
    {
        let d = ranges[i].duplicate();
        let ghost before = out@;
        out.push(d);
        assert(range_views(out@) =~= range_views(before).push(d@));
        i = i + 1;
        assert(range_views(out@) =~= range_views(ranges@).take(i as int));
    }
    assert(range_views(ranges@).take(ranges@.len() as int) =~= range_views(ranges@));
    out
}

/// Checks the requested probes against the port ranges before a client
/// configures the server: every probe must be known and some range must
/// cover one of its transports, except that an uncovered ICMP probe adds
/// the ICMP range.
pub fn resolve_port_ranges(
    registry: &TestRegistry,
    tests: &Vec<String>,
    port_ranges: &Vec<PortRangeSpec>,
) -> (r: Result<Vec<PortRangeSpec>, String>)
    ensures
        match resolve_all(registry@, text_views(tests@), range_views(port_ranges@)) {
            Ok(v) => r matches Ok(out) && range_views(out@) == v,
            Err(e) => r matches Err(msg) && msg@ == e,
        },
{
    let mut ranges = copy_ranges(port_ranges);
    let ghost names = text_views(tests@);
    let mut n: usize = 0;
    while n < tests.len()
        invariant
            n <= tests@.len(),
            names == text_views(tests@),
            resolve_all(registry@, names.take(n as int), range_views(port_ranges@)) == Ok::<
                Seq<(Seq<char>, u16, u16)>,
                Seq<char>,
            >(range_views(ranges@)),
        decreases tests.len() - n,
    {
        let name = tests[n].as_str();
        proof {
            assert(names.take(n + 1).drop_last() =~= names.take(n as int));
            assert(names.take(n + 1).last() == name@);
        }
        match registry.find(name) {
            None => {
                proof {
                    lemma_resolve_error_persists(registry@, names, range_views(port_ranges@), n + 1, names.len() as int);
                    assert(names.take(names.len() as int) =~= names);
                }
                return Err(concat_text("unknown protocol: ", name));
            },
            Some(p) => {
                if covers_exec(p, &ranges) {
                } else if supports_l3(p) {
                    let added = PortRangeSpec { transport: "icmp".to_owned(), start: 0, end: 0 };
                    let ghost before = ranges@;
                    ranges.push(added);
                    assert(range_views(ranges@) =~= range_views(before).push(l3_range()));
                } else {
                    let mut msg = concat_text(name, " needs a matching --port-range (supports ");
                    let joined = transports_joined(p);
                    push_str(&mut msg, joined.as_str());
                    push_str(&mut msg, ")");
                    proof {
                        lemma_resolve_error_persists(registry@, names, range_views(port_ranges@), n + 1, names.len() as int);
                        assert(names.take(names.len() as int) =~= names);
                    }
                    return Err(msg);
                }
            },
        }
        n = n + 1;
    }
    assert(names.take(tests@.len() as int) =~= names);
    Ok(ranges)
}

/// One probe of a client's plan, numbered in plan order.
#[derive(Debug, Clone)]
pub struct PlannedTest {
    pub id: u32,
    pub protocol: String,
    /// The transport as the port range wrote it.
    pub transport_name: String,
    pub transport: Transport,
    pub port: u16,
    pub direction: Direction,
}

/// A planned probe without its number: protocol, transport as written,
/// transport, port and direction.
pub type StepView = (Seq<char>, Seq<char>, Transport, u16, Direction);

impl View for PlannedTest {
    type V = StepView;

    open spec fn view(&self) -> StepView {
        (self.protocol@, self.transport_name@, self.transport, self.port, self.direction)
    }
}

/// The abstract values of a plan.
pub open spec fn step_views(steps: Seq<PlannedTest>) -> Seq<StepView> {
    steps.map_values(|t: PlannedTest| t@)
}

/// Whether each planned probe's number is its position in the plan.
pub open spec fn numbered_in_order(steps: Seq<PlannedTest>) -> bool {
    forall|k: int| 0 <= k < steps.len() ==> #[trigger] steps[k].id == k
}

/// The directions each port is probed in: from the client, then (both ways)
/// from the server.
pub open spec fn directions(bidir: bool) -> Seq<Direction> {
    if bidir {
        seq![Direction::ClientToServer, Direction::ServerToClient]
    } else {
        seq![Direction::ClientToServer]
    }
}

/// The probes for one port.
pub open spec fn port_steps(name: Seq<char>, tname: Seq<char>, t: Transport, port: u16, bidir: bool) -> Seq<StepView> {
    directions(bidir).map_values(|d: Direction| (name, tname, t, port, d))
}

/// The probes for the first `count` ports from `start` upwards.
pub open spec fn ports_steps(
    name: Seq<char>,
    tname: Seq<char>,
    t: Transport,
    start: u16,
    count: nat,
    bidir: bool,
) -> Seq<StepView>
    decreases count,
{
    if count == 0 {
        Seq::empty()
    } else {
        ports_steps(name, tname, t, start, (count - 1) as nat, bidir) + port_steps(
            name,
            tname,
            t,
            (start + count - 1) as u16,
            bidir,
        )
    }
}

/// How many ports a range holds (none when it starts after it ends).
pub open spec fn range_count(r: (Seq<char>, u16, u16)) -> nat {
    if r.1 <= r.2 {
        (r.2 - r.1 + 1) as nat
    } else {
        0
    }
}

/// The probes one range yields for a probe kind: every port of the range,
/// when the range's transport is one the probe runs over; none otherwise.
pub open spec fn range_steps(p: ProtocolView, name: Seq<char>, r: (Seq<char>, u16, u16), bidir: bool) -> Seq<StepView> {
    match transport_from_text(r.0) {
        Some(t) => if p.transports.contains(t) {
            ports_steps(name, r.0, t, r.1, range_count(r), bidir)
        } else {
            Seq::empty()
        },
        None => Seq::empty(),
    }
}

/// The probes all ranges yield for a probe kind, range by range.
pub open spec fn ranges_steps(
    p: ProtocolView,
    name: Seq<char>,
    ranges: Seq<(Seq<char>, u16, u16)>,
    bidir: bool,
) -> Seq<StepView>
    decreases ranges.len(),
{
    if ranges.len() == 0 {
        Seq::empty()
    } else {
        ranges_steps(p, name, ranges.drop_last(), bidir) + range_steps(p, name, ranges.last(), bidir)
    }
}

/// The probes of a whole session, requested probe by requested probe (an
/// unknown name contributes none).
pub open spec fn all_steps(
    reg: Seq<ProtocolView>,
    names: Seq<Seq<char>>,
    ranges: Seq<(Seq<char>, u16, u16)>,
    bidir: bool,
) -> Seq<StepView>
    decreases names.len(),
{
    if names.len() == 0 {
        Seq::empty()
    } else {
        all_steps(reg, names.drop_last(), ranges, bidir) + match first_named(reg, names.last()) {
            Some(i) => ranges_steps(reg[i], names.last(), ranges, bidir),
            None => Seq::empty(),
        }
    }
}

/// Index of the first name at or after `from` that no registered probe has.
pub open spec fn first_unknown_from(reg: Seq<ProtocolView>, names: Seq<Seq<char>>, from: int) -> Option<int>
    decreases names.len() - from,
{
    if from < 0 || from >= names.len() {
        None
    } else if first_named(reg, names[from]) is None {
        Some(from)
    } else {
        first_unknown_from(reg, names, from + 1)
    }
}

/// Appends the probes for one port.
fn push_port_steps(
    out: &mut Vec<PlannedTest>,
    name: &String,
    tname: &String,
    t: Transport,
    port: u16,
    bidir: bool,
)
    requires
        numbered_in_order(old(out)@),
        old(out)@.len() + directions(bidir).len() <= u32::MAX + 1,
    ensures
        numbered_in_order(final(out)@),
        step_views(final(out)@) == step_views(old(out)@) + port_steps(name@, tname@, t, port, bidir),
{
    let ghost before = out@;
    let first = PlannedTest {
        id: out.len() as u32,
        protocol: name.clone(),
        transport_name: tname.clone(),
        transport: t,
        port,
        direction: Direction::ClientToServer,
    };
    out.push(first);
    if bidir {
        let second = PlannedTest {
            id: out.len() as u32,
            protocol: name.clone(),
            transport_name: tname.clone(),
            transport: t,
            port,
            direction: Direction::ServerToClient,
        };
        out.push(second);
    }
    assert(step_views(out@) =~= step_views(before) + port_steps(name@, tname@, t, port, bidir));
}

/// Appends the probes for every port of a range over transport `t`.
fn push_ports_steps(
    out: &mut Vec<PlannedTest>,
    name: &String,
    tname: &String,
    t: Transport,
    start: u16,
    end: u16,
    bidir: bool,
)
    requires
        numbered_in_order(old(out)@),
        old(out)@.len() + ports_steps(name@, tname@, t, start, range_count((tname@, start, end)), bidir).len() <= u32::MAX + 1,
    ensures
        numbered_in_order(final(out)@),
        step_views(final(out)@) == step_views(old(out)@) + ports_steps(
            name@,
            tname@,
            t,
            start,
            range_count((tname@, start, end)),
            bidir,
        ),
{
    let ghost before = out@;
    let ghost total = range_count((tname@, start, end));
    let count: u32 = if start <= end { end as u32 - start as u32 + 1 } else { 0 };
    let mut k: u32 = 0;
    proof {
        lemma_ports_steps_len(name@, tname@, t, start, total, bidir);
    }
    while k < count
        invariant
            count == total,
            k <= count,
            numbered_in_order(out@),
            step_views(out@) == step_views(before) + ports_steps(name@, tname@, t, start, k as nat, bidir),
            before.len() + ports_steps(name@, tname@, t, start, total, bidir).len() <= u32::MAX + 1,
            ports_steps(name@, tname@, t, start, total, bidir).len() == total * directions(bidir).len(),
            count == 0 || start as int + count as int - 1 <= u16::MAX,
        decreases count - k,
    {
        proof {
            lemma_ports_steps_len(name@, tname@, t, start, k as nat, bidir);
            assert(step_views(out@).len() == out@.len());
            assert(step_views(before).len() == before.len());
            assert(out@.len() == before.len() + k * directions(bidir).len());
            let d = directions(bidir).len();
            assert(k * d + d <= total * d) by (nonlinear_arith)
                requires k + 1 <= total;
        }
        let port: u16 = (start as u32 + k) as u16;
        push_port_steps(out, name, tname, t, port, bidir);
        k = k + 1;
        proof {
            assert(step_views(out@) =~= step_views(before) + ports_steps(name@, tname@, t, start, k as nat, bidir));
        }
    }
}

proof fn lemma_ports_steps_len(name: Seq<char>, tname: Seq<char>, t: Transport, start: u16, count: nat, bidir: bool)
    ensures
        ports_steps(name, tname, t, start, count, bidir).len() == count * directions(bidir).len(),
    decreases count,
{
    let d = directions(bidir).len();
    if count > 0 {
        let c1 = (count - 1) as nat;
        lemma_ports_steps_len(name, tname, t, start, c1, bidir);
        let last = port_steps(name, tname, t, (start + count - 1) as u16, bidir);
        assert(last.len() == d);
        assert(ports_steps(name, tname, t, start, count, bidir) == ports_steps(name, tname, t, start, c1, bidir) + last);
        assert(c1 * d + d == count * d) by (nonlinear_arith)
            requires c1 + 1 == count;
        assert(ports_steps(name, tname, t, start, count, bidir).len() == c1 * d + d);
    } else {
        assert(count * d == 0) by (nonlinear_arith)
            requires count == 0;
    }
}

/// Appends the probes one range yields for probe kind `p`.
fn push_range_steps(out: &mut Vec<PlannedTest>, p: &ProtocolInfo, name: &String, r: &PortRangeSpec, bidir: bool)
    requires
        numbered_in_order(old(out)@),
        old(out)@.len() + range_steps(p@, name@, r@, bidir).len() <= u32::MAX + 1,
    ensures
        numbered_in_order(final(out)@),
        step_views(final(out)@) == step_views(old(out)@) + range_steps(p@, name@, r@, bidir),
{
    match Transport::from_str(r.transport.as_str()) {
        Some(t) => {
            if p.supports(t) {
                push_ports_steps(out, name, &r.transport, t, r.start, r.end, bidir);
            } else {
                assert(step_views(out@) =~= step_views(out@) + Seq::<StepView>::empty());
            }
        },
        None => {
            assert(step_views(out@) =~= step_views(out@) + Seq::<StepView>::empty());
        },
    }
}

proof fn lemma_ranges_steps_monotone(
    p: ProtocolView,
    name: Seq<char>,
    ranges: Seq<(Seq<char>, u16, u16)>,
    bidir: bool,
    m: int,
    n: int,
)
    requires
        0 <= m <= n <= ranges.len(),
    ensures
        ranges_steps(p, name, ranges.take(m), bidir).len() <= ranges_steps(p, name, ranges.take(n), bidir).len(),
    decreases n - m,
{
    if m < n {
        lemma_ranges_steps_monotone(p, name, ranges, bidir, m, n - 1);
        assert(ranges.take(n).drop_last() =~= ranges.take(n - 1));
    }
}

/// Appends the probes every range yields for probe kind `p`.
fn push_test_steps(
    out: &mut Vec<PlannedTest>,
    p: &ProtocolInfo,
    name: &String,
    ranges: &Vec<PortRangeSpec>,
    bidir: bool,
)
    requires
        numbered_in_order(old(out)@),
        old(out)@.len() + ranges_steps(p@, name@, range_views(ranges@), bidir).len() <= u32::MAX + 1,
    ensures
        numbered_in_order(final(out)@),
        step_views(final(out)@) == step_views(old(out)@) + ranges_steps(p@, name@, range_views(ranges@), bidir),
{
    let ghost before = out@;
    let ghost rv = range_views(ranges@);
    let mut m: usize = 0;
    assert(rv.take(0) =~= Seq::<(Seq<char>, u16, u16)>::empty());
    assert(step_views(out@) =~= step_views(before) + ranges_steps(p@, name@, rv.take(0), bidir));
    while m < ranges.len()
        invariant
            m <= ranges@.len(),
            rv == range_views(ranges@),
            numbered_in_order(out@),
            step_views(out@) == step_views(before) + ranges_steps(p@, name@, rv.take(m as int), bidir),
            before.len() + ranges_steps(p@, name@, rv, bidir).len() <= u32::MAX + 1,
        decreases ranges.len() - m,
    {
        proof {
            assert(rv.take(m + 1).drop_last() =~= rv.take(m as int));
            assert(rv.take(m + 1).last() == ranges@[m as int]@);
            lemma_ranges_steps_monotone(p@, name@, rv, bidir, m + 1, rv.len() as int);
            assert(rv.take(rv.len() as int) =~= rv);
            assert(step_views(out@).len() == out@.len());
            assert(step_views(before).len() == before.len());
        }
        push_range_steps(out, p, name, &ranges[m], bidir);
        m = m + 1;
        proof {
            assert(step_views(out@) =~= step_views(before) + ranges_steps(p@, name@, rv.take(m as int), bidir));
        }
    }
    assert(rv.take(ranges@.len() as int) =~= rv);
}

proof fn lemma_all_steps_monotone(
    reg: Seq<ProtocolView>,
    names: Seq<Seq<char>>,
    ranges: Seq<(Seq<char>, u16, u16)>,
    bidir: bool,
    m: int,
    n: int,
)
    requires
        0 <= m <= n <= names.len(),
    ensures
        all_steps(reg, names.take(m), ranges, bidir).len() <= all_steps(reg, names.take(n), ranges, bidir).len(),
    decreases n - m,
{
    if m < n {
        lemma_all_steps_monotone(reg, names, ranges, bidir, m, n - 1);
        assert(names.take(n).drop_last() =~= names.take(n - 1));
    }
}

/// The probes of a client's session, numbered in the order they run: for
/// each requested probe, each range over one of its transports, each port of
/// the range in ascending order, and each direction (from the server too when
/// `bidir`). An unknown probe name is an error.
pub fn plan_tests(
    registry: &TestRegistry,
    tests: &Vec<String>,
    port_ranges: &Vec<PortRangeSpec>,
    bidir: bool,
) -> (r: Result<Vec<PlannedTest>, String>)
    requires
        all_steps(registry@, text_views(tests@), range_views(port_ranges@), bidir).len() <= u32::MAX
            + 1,
    ensures
        match first_unknown_from(registry@, text_views(tests@), 0) {
            Some(i) => r matches Err(e) && e@ == "unknown protocol: "@ + tests@[i]@,
            None => r matches Ok(plan) && numbered_in_order(plan@) && step_views(plan@) == all_steps(
                registry@,
                text_views(tests@),
                range_views(port_ranges@),
                bidir,
            ),
        },
{
    let ghost names = text_views(tests@);
    let ghost rv = range_views(port_ranges@);
    let mut out: Vec<PlannedTest> = Vec::new();
    let mut n: usize = 0;
    assert(names.take(0) =~= Seq::<Seq<char>>::empty());
    assert(step_views(out@) =~= Seq::<StepView>::empty());
    while n < tests.len()
        invariant
            n <= tests@.len(),
            names == text_views(tests@),
            rv == range_views(port_ranges@),
            numbered_in_order(out@),
            step_views(out@) == all_steps(registry@, names.take(n as int), rv, bidir),
            all_steps(registry@, names, rv, bidir).len() <= u32::MAX + 1,
            first_unknown_from(registry@, names, 0) == first_unknown_from(registry@, names, n as int),
        decreases tests.len() - n,
    {
        let name = &tests[n];
        proof {
            assert(names.take(n + 1).drop_last() =~= names.take(n as int));
            assert(names.take(n + 1).last() == name@);
            assert(names[n as int] == name@);
        }
        match registry.find(name.as_str()) {
            None => {
                return Err(concat_text("unknown protocol: ", name.as_str()));
            },
            Some(p) => {
                proof {
                    lemma_all_steps_monotone(registry@, names, rv, bidir, n + 1, names.len() as int);
                    assert(names.take(names.len() as int) =~= names);
                    assert(step_views(out@).len() == out@.len());
                }
                push_test_steps(&mut out, p, name, port_ranges, bidir);
            },
        }
        n = n + 1;
    }
    assert(names.take(tests@.len() as int) =~= names);
    Ok(out)
}

/// The control message that announces a planned probe to the server.
pub fn test_message(step: &PlannedTest) -> (r: Message)
    ensures
        r matches Message::Test { id, protocol, transport, port, direction }
            && id == step.id && protocol@ == step.protocol@ && transport@ == step.transport_name@
            && port == step.port && direction@ == direction_text(step.direction),
{
    Message::Test {
        id: step.id,
        protocol: step.protocol.clone(),
        transport: step.transport_name.clone(),
        port: step.port,
        direction: step.direction.as_str().to_owned(),
    }
}

/// A client's session must have run at least one probe.
pub fn check_any_ran(summary: TestSummary) -> (r: Result<(), String>)
    ensures
        summary_total(summary) == 0 ==> (r matches Err(e) && e@ == "no tests matched the given port ranges"@),
        summary_total(summary) != 0 ==> r is Ok,
{
    if summary.passed == 0 && summary.failed == 0 && summary.errors == 0 {
        Err("no tests matched the given port ranges".to_owned())
    } else {
        Ok(())
    }
}

/// The status word of a result in the JSON report.
pub open spec fn status_word(result: ProtocolResult) -> Seq<char> {
    match result {
        ProtocolResult::Pass { .. } => "pass"@,
        ProtocolResult::Fail { .. } => "fail"@,
        ProtocolResult::Error { .. } => "error"@,
    }
}

/// The reason of a result in the JSON report (empty for a pass).
pub open spec fn reason_text(result: ProtocolResult) -> Seq<char> {
    match result {
        ProtocolResult::Pass { .. } => Seq::empty(),
        ProtocolResult::Fail { reason, .. } => reason@,
        ProtocolResult::Error { reason } => reason@,
    }
}

/// The bytes sent and received of a result (none for an error).
pub open spec fn result_bytes(result: ProtocolResult) -> (u64, u64) {
    match result {
        ProtocolResult::Pass { sent_bytes, received_bytes } => (sent_bytes, received_bytes),
        ProtocolResult::Fail { sent_bytes, received_bytes, .. } => (sent_bytes, received_bytes),
        ProtocolResult::Error { .. } => (0, 0),
    }
}

/// The line a client prints for one probe: a JSON object whose string
/// fields are escaped for JSON, or a line that starts with `PASS`, `FAIL` or `ERR `.
pub open spec fn result_line_text(
    id: u32,
    protocol: Seq<char>,
    transport: Seq<char>,
    port: u16,
    direction: Direction,
    result: ProtocolResult,
    json: bool,
) -> Seq<char> {
    if json {
        "{\"id\":"@ + decimal_text(id as nat) + ",\"protocol\":\""@ + json_escape(protocol) + "\",\"transport\":\""@
            + json_escape(transport) + "\",\"port\":"@ + decimal_text(port as nat) + ",\"direction\":\""@
            + direction_text(direction) + "\",\"status\":\""@ + status_word(result)
            + "\",\"reason\":\""@ + json_escape(reason_text(result)) + "\",\"tx\":"@
            + decimal_text(result_bytes(result).0 as nat) + ",\"rx\":"@
            + decimal_text(result_bytes(result).1 as nat) + "}"@
    } else {
        let place = protocol + " "@ + transport + " "@ + decimal_text(port as nat) + " "@ + direction_text(direction);
        match result {
            ProtocolResult::Pass { sent_bytes, received_bytes } => "PASS "@ + place + " (tx="@
                + decimal_text(sent_bytes as nat) + " rx="@ + decimal_text(received_bytes as nat) + ")"@,
            ProtocolResult::Fail { reason, sent_bytes, received_bytes } => "FAIL "@ + place + " "@
                + reason@ + " (tx="@ + decimal_text(sent_bytes as nat) + " rx="@
                + decimal_text(received_bytes as nat) + ")"@,
            ProtocolResult::Error { reason } => "ERR  "@ + place + " "@ + reason@,
        }
    }
}

/// Whether a client prints the line of a probe with `result`: quiet output
/// leaves out the passes and keeps failures and errors.
pub fn shows_result(result: &ProtocolResult, quiet: bool) -> (r: bool)
    ensures
        r == !(quiet && result is Pass),
{
    match result {
        ProtocolResult::Pass { .. } => !quiet,
        _ => true,
    }
}

/// The line a client prints for one probe, in JSON or as text.
pub fn result_line(
    id: u32,
    protocol: &str,
    transport: &str,
    port: u16,
    direction: Direction,
    result: &ProtocolResult,
    json: bool,
) -> (r: String)
    ensures
        r@ == result_line_text(id, protocol@, transport@, port, direction, *result, json),
{
    let mut s = String::new();
    if json {
        let (status, reason, tx, rx): (&str, &str, u64, u64) = match result {
            ProtocolResult::Pass { sent_bytes, received_bytes } => ("pass", "", *sent_bytes, *received_bytes),
            ProtocolResult::Fail { reason, sent_bytes, received_bytes } => (
                "fail",
                reason.as_str(),
                *sent_bytes,
                *received_bytes,
            ),
            ProtocolResult::Error { reason } => ("error", reason.as_str(), 0, 0),
        };
        push_str(&mut s, "{\"id\":");
        push_decimal(&mut s, id as u64);
        push_str(&mut s, ",\"protocol\":\"");
        push_json_escaped(&mut s, protocol);
        push_str(&mut s, "\",\"transport\":\"");
        push_json_escaped(&mut s, transport);
        push_str(&mut s, "\",\"port\":");
        push_decimal(&mut s, port as u64);
        push_str(&mut s, ",\"direction\":\"");
        push_str(&mut s, direction.as_str());
        push_str(&mut s, "\",\"status\":\"");
        push_str(&mut s, status);
        push_str(&mut s, "\",\"reason\":\"");
        push_json_escaped(&mut s, reason);
        push_str(&mut s, "\",\"tx\":");
        push_decimal(&mut s, tx);
        push_str(&mut s, ",\"rx\":");
        push_decimal(&mut s, rx);
        push_str(&mut s, "}");
        proof {
            reveal_strlit("");
        }
    } else {
        match result {
            ProtocolResult::Pass { .. } => push_str(&mut s, "PASS "),
            ProtocolResult::Fail { .. } => push_str(&mut s, "FAIL "),
            ProtocolResult::Error { .. } => push_str(&mut s, "ERR  "),
        }
        push_str(&mut s, protocol);
        push_str(&mut s, " ");
        push_str(&mut s, transport);
        push_str(&mut s, " ");
        push_decimal(&mut s, port as u64);
        push_str(&mut s, " ");
        push_str(&mut s, direction.as_str());
        match result {
            ProtocolResult::Pass { sent_bytes, received_bytes } => {
                push_str(&mut s, " (tx=");
                push_decimal(&mut s, *sent_bytes);
                push_str(&mut s, " rx=");
                push_decimal(&mut s, *received_bytes);
                push_str(&mut s, ")");
            },
            ProtocolResult::Fail { reason, sent_bytes, received_bytes } => {
                push_str(&mut s, " ");
                push_str(&mut s, reason.as_str());
                push_str(&mut s, " (tx=");
                push_decimal(&mut s, *sent_bytes);
                push_str(&mut s, " rx=");
                push_decimal(&mut s, *received_bytes);
                push_str(&mut s, ")");
            },
            ProtocolResult::Error { reason } => {
                push_str(&mut s, " ");
                push_str(&mut s, reason.as_str());
            },
        }
    }
    assert(s@ =~= result_line_text(id, protocol@, transport@, port, direction, *result, json));
    s
}

/// How many probes one range yields for probe kind `p`.
fn range_step_count(p: &ProtocolInfo, r: &PortRangeSpec, bidir: bool) -> (n: u64)
    ensures
        n == range_steps(p@, p@.name, r@, bidir).len(),
        n <= 131072,
{
    let d: u64 = if bidir { 2 } else { 1 };
    assert(d == directions(bidir).len());
    match Transport::from_str(r.transport.as_str()) {
        Some(t) => {
            if p.supports(t) {
                let count: u64 = if r.start <= r.end { r.end as u64 - r.start as u64 + 1 } else { 0 };
                proof {
                    lemma_ports_steps_len(p@.name, r@.0, t, r.start, range_count(r@), bidir);
                }
                assert(count * d <= 131072) by (nonlinear_arith)
                    requires count <= 65536, d <= 2;
                count * d
            } else {
                0
            }
        },
        None => 0,
    }
}

proof fn lemma_range_steps_name_free(p: ProtocolView, a: Seq<char>, b: Seq<char>, r: (Seq<char>, u16, u16), bidir: bool)
    ensures
        range_steps(p, a, r, bidir).len() == range_steps(p, b, r, bidir).len(),
{
    match transport_from_text(r.0) {
        Some(t) => {
            if p.transports.contains(t) {
                lemma_ports_steps_len(a, r.0, t, r.1, range_count(r), bidir);
                lemma_ports_steps_len(b, r.0, t, r.1, range_count(r), bidir);
            }
        },
        None => {},
    }
}

/// Whether a client's plan stays within the numbering of the control
/// protocol: at most `u32::MAX` probes, so that each probe's number and the
/// one after the last fit in 32 bits.
pub open spec fn plan_fits_spec(
    reg: Seq<ProtocolView>,
    names: Seq<Seq<char>>,
    ranges: Seq<(Seq<char>, u16, u16)>,
    bidir: bool,
) -> bool {
    all_steps(reg, names, ranges, bidir).len() <= u32::MAX
}

/// Whether the plan for these probes and ranges has at most `u32::MAX`
/// probes (what `plan_tests` needs, with room to number one more).
pub fn plan_fits(
    registry: &TestRegistry,
    tests: &Vec<String>,
    port_ranges: &Vec<PortRangeSpec>,
    bidir: bool,
) -> (r: bool)
    ensures
        r == plan_fits_spec(registry@, text_views(tests@), range_views(port_ranges@), bidir),
{
    let ghost names = text_views(tests@);
    let ghost rv = range_views(port_ranges@);
    let mut total: u64 = 0;
    let mut n: usize = 0;
    assert(names.take(0) =~= Seq::<Seq<char>>::empty());
    while n < tests.len()
        invariant
            n <= tests@.len(),
            names == text_views(tests@),
            rv == range_views(port_ranges@),
            total == all_steps(registry@, names.take(n as int), rv, bidir).len(),
            total <= u32::MAX,
        decreases tests.len() - n,
    {
        let name = &tests[n];
        proof {
            assert(names.take(n + 1).drop_last() =~= names.take(n as int));
            assert(names.take(n + 1).last() == name@);
            lemma_all_steps_monotone(registry@, names, rv, bidir, n + 1, names.len() as int);
            assert(names.take(names.len() as int) =~= names);
        }
        match registry.find(name.as_str()) {
            None => {},
            Some(p) => {
                let ghost base = total;
                let mut m: usize = 0;
                assert(rv.take(0) =~= Seq::<(Seq<char>, u16, u16)>::empty());
                proof {
                    assert(all_steps(registry@, names.take(n + 1), rv, bidir).len()
                        == base + ranges_steps(p@, name@, rv, bidir).len());
                }
                while m < port_ranges.len()
                    invariant
                        m <= port_ranges@.len(),
                        rv == range_views(port_ranges@),
                        names == text_views(tests@),
                        base + ranges_steps(p@, name@, rv, bidir).len() <= all_steps(registry@, names, rv, bidir).len(),
                        total == base + ranges_steps(p@, name@, rv.take(m as int), bidir).len(),
                        total <= u32::MAX,
                    decreases port_ranges.len() - m,
                {
                    let c = range_step_count(p, &port_ranges[m], bidir);
                    proof {
                        assert(rv.take(m + 1).drop_last() =~= rv.take(m as int));
                        assert(rv.take(m + 1).last() == port_ranges@[m as int]@);
                        lemma_range_steps_name_free(p@, p@.name, name@, port_ranges@[m as int]@, bidir);
                    }
                    total = total + c;
                    m = m + 1;
                    if total > 0xFFFF_FFFF {
                        proof {
                            lemma_ranges_steps_monotone(p@, name@, rv, bidir, m as int, rv.len() as int);
                            assert(rv.take(rv.len() as int) =~= rv);
                        }
                        return false;
                    }
                }
                assert(rv.take(port_ranges@.len() as int) =~= rv);
            },
        }
        n = n + 1;
    }
    assert(names.take(tests@.len() as int) =~= names);
    true
}

/// Each probe for the first `count` ports from `start` carries the given
/// names and transport, and a port between `start` and the last of them.
proof fn lemma_ports_steps_members(
    name: Seq<char>,
    tname: Seq<char>,
    t: Transport,
    start: u16,
    count: nat,
    bidir: bool,
    k: int,
)
    requires
        start + count <= 0x10000,
        0 <= k < ports_steps(name, tname, t, start, count, bidir).len(),
    ensures
        ({
            let s = ports_steps(name, tname, t, start, count, bidir)[k];
            s.0 == name && s.1 == tname && s.2 == t && start <= s.3 && s.3 < start + count
        }),
    decreases count,
{
    if count > 0 {
        let c1 = (count - 1) as nat;
        let prefix = ports_steps(name, tname, t, start, c1, bidir);
        let last = port_steps(name, tname, t, (start + count - 1) as u16, bidir);
        assert(ports_steps(name, tname, t, start, count, bidir) == prefix + last);
        if k < prefix.len() {
            lemma_ports_steps_members(name, tname, t, start, c1, bidir, k);
        } else {
            assert(last[k - prefix.len()].3 == (start + count - 1) as u16);
        }
    }
}

/// Whether a probe lies in `r` for probe kind `p`: it is of the kind's name,
/// over the transport that `r` names (one the kind runs over), at a port of `r`.
pub open spec fn step_in_range(p: ProtocolView, name: Seq<char>, r: (Seq<char>, u16, u16), s: StepView) -> bool {
    &&& s.0 == name
    &&& s.1 == r.0
    &&& transport_from_text(r.0) == Some(s.2)
    &&& p.transports.contains(s.2)
    &&& r.1 <= s.3 <= r.2
}

proof fn lemma_ranges_steps_members(
    p: ProtocolView,
    name: Seq<char>,
    ranges: Seq<(Seq<char>, u16, u16)>,
    bidir: bool,
    k: int,
)
    requires
        0 <= k < ranges_steps(p, name, ranges, bidir).len(),
    ensures
        exists|j: int| 0 <= j < ranges.len() && step_in_range(p, name, #[trigger] ranges[j], ranges_steps(p, name, ranges, bidir)[k]),
    decreases ranges.len(),
{
    if ranges.len() > 0 {
        let prefix = ranges_steps(p, name, ranges.drop_last(), bidir);
        let r = ranges.last();
        if k < prefix.len() {
            lemma_ranges_steps_members(p, name, ranges.drop_last(), bidir, k);
            let j = choose|j: int| 0 <= j < ranges.drop_last().len() && step_in_range(p, name, #[trigger] ranges.drop_last()[j], prefix[k]);
            assert(ranges.drop_last()[j] == ranges[j]);
        } else {
            let kk = k - prefix.len();
            match transport_from_text(r.0) {
                Some(t) => {
                    if p.transports.contains(t) {
                        lemma_ports_steps_members(name, r.0, t, r.1, range_count(r), bidir, kk);
                        assert(step_in_range(p, name, ranges[ranges.len() - 1], ranges_steps(p, name, ranges, bidir)[k]));
                    }
                },
                None => {},
            }
        }
    }
}

/// Every probe of a client's plan is one the session asked for: its probe is
/// a requested, registered probe that runs over the probe's transport, and a
/// requested port range names that transport and holds the probe's port.
pub proof fn lemma_plan_stays_within_ranges(
    reg: Seq<ProtocolView>,
    names: Seq<Seq<char>>,
    ranges: Seq<(Seq<char>, u16, u16)>,
    bidir: bool,
    k: int,
)
    requires
        0 <= k < all_steps(reg, names, ranges, bidir).len(),
    ensures
        ({
            let s = all_steps(reg, names, ranges, bidir)[k];
            &&& names.contains(s.0)
            &&& (first_named(reg, s.0) matches Some(i) && exists|j: int| 0 <= j < ranges.len()
                && step_in_range(reg[i], s.0, #[trigger] ranges[j], s))
        }),
    decreases names.len(),
{
    if names.len() > 0 {
        let prefix = all_steps(reg, names.drop_last(), ranges, bidir);
        let s = all_steps(reg, names, ranges, bidir)[k];
        if k < prefix.len() {
            lemma_plan_stays_within_ranges(reg, names.drop_last(), ranges, bidir, k);
            let w = choose|w: int| 0 <= w < names.drop_last().len() && names.drop_last()[w] == s.0;
            assert(names[w] == s.0);
        } else {
            match first_named(reg, names.last()) {
                Some(i) => {
                    lemma_ranges_steps_members(reg[i], names.last(), ranges, bidir, k - prefix.len());
                    assert(names[names.len() - 1] == s.0);
                },
                None => {},
            }
        }
    }
}

/// The server accepts every probe of a client's plan as `test_message`
/// announces it, when both sides know the same probes: the probe is
/// registered, its transport's name and its direction's arrow read back as
/// the planned ones, and the server runs it from the other end.
pub proof fn lemma_server_accepts_plan(
    reg: Seq<ProtocolView>,
    names: Seq<Seq<char>>,
    ranges: Seq<(Seq<char>, u16, u16)>,
    bidir: bool,
    k: int,
)
    requires
        0 <= k < all_steps(reg, names, ranges, bidir).len(),
    ensures
        ({
            let s = all_steps(reg, names, ranges, bidir)[k];
            &&& first_named(reg, s.0) is Some
            &&& transport_from_text(s.1) == Some(s.2)
            &&& direction_from_text(direction_text(s.4)) == Some(s.4)
            &&& reversed(s.4) != s.4
        }),
{
    let s = all_steps(reg, names, ranges, bidir)[k];
    lemma_plan_stays_within_ranges(reg, names, ranges, bidir, k);
    lemma_direction_text_roundtrip(s.4);
    crate::test::lemma_reverse_involution(s.4);
}

/// Adding a range at the end keeps every probe covered that was covered.
proof fn lemma_covers_push(p: ProtocolView, ranges: Seq<(Seq<char>, u16, u16)>, extra: (Seq<char>, u16, u16))
    requires
        covers(p, ranges),
    ensures
        covers(p, ranges.push(extra)),
{
    let k = choose|k: int| 0 <= k < p.transports.len() && has_range_for(ranges, #[trigger] p.transports[k]);
    let i = choose|i: int| 0 <= i < ranges.len() && transport_from_text(#[trigger] ranges[i].0) == Some(p.transports[k]);
    assert(ranges.push(extra)[i] == ranges[i]);
    assert(has_range_for(ranges.push(extra), p.transports[k]));
}

/// What a successful check of the requested probes leaves: the user's ranges
/// first and unchanged, and every requested probe known and covered by some
/// range over one of its transports.
pub proof fn lemma_resolved_ranges_cover(
    reg: Seq<ProtocolView>,
    names: Seq<Seq<char>>,
    ranges: Seq<(Seq<char>, u16, u16)>,
)
    ensures
        resolve_all(reg, names, ranges) matches Ok(out) ==> {
            &&& out.len() >= ranges.len()
            &&& out.take(ranges.len() as int) == ranges
            &&& forall|n: int| 0 <= n < names.len() ==> (#[trigger] first_named(reg, names[n]) matches Some(i)
                && covers(reg[i], out))
        },
    decreases names.len(),
{
    if names.len() > 0 {
        let init = names.drop_last();
        lemma_resolved_ranges_cover(reg, init, ranges);
        match resolve_all(reg, init, ranges) {
            Err(_) => {},
            Ok(rs) => {
                let name = names.last();
                match first_named(reg, name) {
                    None => {},
                    Some(i) => {
                        if covers(reg[i], rs) {
                            assert forall|n: int| 0 <= n < names.len() implies (#[trigger] first_named(reg, names[n]) matches Some(j)
                                && covers(reg[j], rs)) by {
                                if n < names.len() - 1 {
                                    assert(names[n] == init[n]);
                                }
                            }
                        } else if reg[i].transports.contains(l3_transport()) {
                            let out = rs.push(l3_range());
                            assert(out.take(rs.len() as int) =~= rs);
                            assert(out.take(ranges.len() as int) =~= rs.take(ranges.len() as int));
                            reveal_strlit("icmp");
                            crate::test::lemma_transport_text_roundtrip(l3_transport());
                            let k = choose|k: int| 0 <= k < reg[i].transports.len() && reg[i].transports[k] == l3_transport();
                            assert(out[rs.len() as int] == l3_range());
                            assert(transport_from_text(out[rs.len() as int].0) == Some(l3_transport()));
                            assert(has_range_for(out, reg[i].transports[k]));
                            assert forall|n: int| 0 <= n < names.len() implies (#[trigger] first_named(reg, names[n]) matches Some(j)
                                && covers(reg[j], out)) by {
                                if n < names.len() - 1 {
                                    assert(names[n] == init[n]);
                                    let j = first_named(reg, init[n]).unwrap();
                                    lemma_covers_push(reg[j], rs, l3_range());
                                }
                            }
                        }
                    },
                }
            },
        }
    }
}

/// The probe at position `k` of the run of probes for consecutive ports from
/// `start`: port `start + k` from the client, or, both ways, ports in turn
/// from the client and then from the server.
pub open spec fn nth_port_step(name: Seq<char>, tname: Seq<char>, t: Transport, start: u16, bidir: bool, k: int) -> StepView {
    if bidir {
        (name, tname, t, (start + k / 2) as u16, if k % 2 == 0 {
            Direction::ClientToServer
        } else {
            Direction::ServerToClient
        })
    } else {
        (name, tname, t, (start + k) as u16, Direction::ClientToServer)
    }
}

proof fn lemma_ports_steps_index(name: Seq<char>, tname: Seq<char>, t: Transport, start: u16, count: nat, bidir: bool)
    ensures
        ports_steps(name, tname, t, start, count, bidir).len() == if bidir { 2 * count } else { count },
        forall|k: int| 0 <= k < ports_steps(name, tname, t, start, count, bidir).len() ==>
            #[trigger] ports_steps(name, tname, t, start, count, bidir)[k] == nth_port_step(name, tname, t, start, bidir, k),
    decreases count,
{
    if count > 0 {
        let c1 = (count - 1) as nat;
        lemma_ports_steps_index(name, tname, t, start, c1, bidir);
        let prefix = ports_steps(name, tname, t, start, c1, bidir);
        let last = port_steps(name, tname, t, (start + count - 1) as u16, bidir);
        let all = ports_steps(name, tname, t, start, count, bidir);
        assert(all == prefix + last);
        assert forall|k: int| 0 <= k < all.len() implies #[trigger] all[k] == nth_port_step(name, tname, t, start, bidir, k) by {
            if k < prefix.len() {
                assert(all[k] == prefix[k]);
            } else {
                let di = k - prefix.len();
                assert(all[k] == last[di]);
                if bidir {
                    assert(k / 2 == c1 && k % 2 == di) by (nonlinear_arith)
                        requires k == 2 * c1 + di, 0 <= di < 2;
                }
            }
        }
    }
}

/// The probes one range yields, in full: for a range over a transport the
/// probe kind runs over that starts no later than it ends, one probe for
/// every port from its start to its end in ascending order (two, from the
/// client and then from the server, both ways), and nothing else.
pub proof fn lemma_range_steps_every_port(
    p: ProtocolView,
    name: Seq<char>,
    r: (Seq<char>, u16, u16),
    bidir: bool,
    t: Transport,
)
    requires
        transport_from_text(r.0) == Some(t),
        p.transports.contains(t),
        r.1 <= r.2,
    ensures
        range_steps(p, name, r, bidir).len() == if bidir { 2 * (r.2 - r.1 + 1) } else { r.2 - r.1 + 1 },
        forall|k: int| 0 <= k < range_steps(p, name, r, bidir).len() ==> #[trigger] range_steps(p, name, r, bidir)[k]
            == nth_port_step(name, r.0, t, r.1, bidir, k),
        forall|k: int| 0 <= k < range_steps(p, name, r, bidir).len() ==> r.1 <= #[trigger] range_steps(p, name, r, bidir)[k].3 <= r.2,
{
    lemma_ports_steps_index(name, r.0, t, r.1, range_count(r), bidir);
    let steps = range_steps(p, name, r, bidir);
    assert forall|k: int| 0 <= k < steps.len() implies r.1 <= #[trigger] steps[k].3 <= r.2 by {
        assert(steps[k] == nth_port_step(name, r.0, t, r.1, bidir, k));
        if bidir {
            assert(k / 2 <= r.2 - r.1) by (nonlinear_arith)
                requires 0 <= k < 2 * (r.2 - r.1 + 1);
            assert(0 <= k / 2) by (nonlinear_arith)
                requires 0 <= k;
        }
    }
}

proof fn lemma_concat_contains<A>(a: Seq<A>, b: Seq<A>, x: A)
    requires
        a.contains(x) || b.contains(x),
    ensures
        (a + b).contains(x),
{
    if a.contains(x) {
        let i = choose|i: int| 0 <= i < a.len() && a[i] == x;
        assert((a + b)[i] == x);
    } else {
        let i = choose|i: int| 0 <= i < b.len() && b[i] == x;
        assert((a + b)[a.len() + i] == x);
    }
}

proof fn lemma_ranges_steps_contains(
    p: ProtocolView,
    name: Seq<char>,
    ranges: Seq<(Seq<char>, u16, u16)>,
    bidir: bool,
    j: int,
    x: StepView,
)
    requires
        0 <= j < ranges.len(),
        range_steps(p, name, ranges[j], bidir).contains(x),
    ensures
        ranges_steps(p, name, ranges, bidir).contains(x),
    decreases ranges.len(),
{
    if j < ranges.len() - 1 {
        assert(ranges.drop_last()[j] == ranges[j]);
        lemma_ranges_steps_contains(p, name, ranges.drop_last(), bidir, j, x);
    }
    lemma_concat_contains(ranges_steps(p, name, ranges.drop_last(), bidir), range_steps(p, name, ranges.last(), bidir), x);
}

proof fn lemma_all_steps_contains(
    reg: Seq<ProtocolView>,
    names: Seq<Seq<char>>,
    ranges: Seq<(Seq<char>, u16, u16)>,
    bidir: bool,
    n: int,
    i: int,
    x: StepView,
)
    requires
        0 <= n < names.len(),
        first_named(reg, names[n]) == Some(i),
        ranges_steps(reg[i], names[n], ranges, bidir).contains(x),
    ensures
        all_steps(reg, names, ranges, bidir).contains(x),
    decreases names.len(),
{
    let init = names.drop_last();
    let tail = match first_named(reg, names.last()) {
        Some(i) => ranges_steps(reg[i], names.last(), ranges, bidir),
        None => Seq::empty(),
    };
    if n < names.len() - 1 {
        assert(init[n] == names[n]);
        lemma_all_steps_contains(reg, init, ranges, bidir, n, i, x);
    }
    lemma_concat_contains(all_steps(reg, init, ranges, bidir), tail, x);
}

/// A client's plan is complete: for every requested, registered probe, every
/// requested range over a transport it runs over, every port from the
/// range's start to its end and every direction asked for (from the client;
/// from the server too with `bidir`), the plan holds that probe.
pub proof fn lemma_plan_holds_every_port(
    reg: Seq<ProtocolView>,
    names: Seq<Seq<char>>,
    ranges: Seq<(Seq<char>, u16, u16)>,
    bidir: bool,
    n: int,
    i: int,
    j: int,
    t: Transport,
    port: u16,
    d: Direction,
)
    requires
        0 <= n < names.len(),
        first_named(reg, names[n]) == Some(i),
        0 <= j < ranges.len(),
        transport_from_text(ranges[j].0) == Some(t),
        reg[i].transports.contains(t),
        ranges[j].1 <= port <= ranges[j].2,
        d == Direction::ClientToServer || (bidir && d == Direction::ServerToClient),
    ensures
        all_steps(reg, names, ranges, bidir).contains((names[n], ranges[j].0, t, port, d)),
{
    let r = ranges[j];
    let x = (names[n], r.0, t, port, d);
    let steps = range_steps(reg[i], names[n], r, bidir);
    lemma_range_steps_every_port(reg[i], names[n], r, bidir, t);
    let q = port - r.1;
    let k = if bidir {
        if d == Direction::ClientToServer { 2 * q } else { 2 * q + 1 }
    } else {
        q
    };
    if bidir {
        assert(k / 2 == q && (k % 2 == 0) == (d == Direction::ClientToServer)) by (nonlinear_arith)
            requires k == 2 * q || k == 2 * q + 1, (k == 2 * q) == (d == Direction::ClientToServer), q >= 0;
    }
    assert(steps[k] == nth_port_step(names[n], r.0, t, r.1, bidir, k));
    assert(steps[k] == x);
    lemma_ranges_steps_contains(reg[i], names[n], ranges, bidir, j, x);
    lemma_all_steps_contains(reg, names, ranges, bidir, n, i, x);
}

/// Whether one of `ranges` names a transport that probe kind `p` runs over.
pub open spec fn some_range_for(p: ProtocolView, ranges: Seq<(Seq<char>, u16, u16)>) -> bool {
    exists|k: int, j: int|
        #![trigger p.transports[k], ranges[j]]
        0 <= k < p.transports.len() && 0 <= j < ranges.len() && transport_from_text(ranges[j].0) == Some(
            p.transports[k],
        )
}

proof fn lemma_some_range_for_covers(p: ProtocolView, ranges: Seq<(Seq<char>, u16, u16)>)
    ensures
        some_range_for(p, ranges) <==> covers(p, ranges),
{
    if some_range_for(p, ranges) {
        let (k, j) = choose|k: int, j: int|
            #![trigger p.transports[k], ranges[j]]
            0 <= k < p.transports.len() && 0 <= j < ranges.len() && transport_from_text(ranges[j].0) == Some(
                p.transports[k],
            );
        assert(has_range_for(ranges, p.transports[k]));
    }
    if covers(p, ranges) {
        let k = choose|k: int| 0 <= k < p.transports.len() && has_range_for(ranges, #[trigger] p.transports[k]);
        let j = choose|j: int| 0 <= j < ranges.len() && transport_from_text(#[trigger] ranges[j].0) == Some(p.transports[k]);
        assert(transport_from_text(ranges[j].0) == Some(p.transports[k]));
    }
}

/// When each requested probe is registered and some given range names one of
/// its transports, the check adds nothing: the resolved ranges are the given
/// ones.
pub proof fn lemma_resolve_keeps_covering_ranges(
    reg: Seq<ProtocolView>,
    names: Seq<Seq<char>>,
    ranges: Seq<(Seq<char>, u16, u16)>,
)
    requires
        forall|n: int| 0 <= n < names.len() ==> (#[trigger] first_named(reg, names[n]) matches Some(i)
            && some_range_for(reg[i], ranges)),
    ensures
        resolve_all(reg, names, ranges) == Ok::<Seq<(Seq<char>, u16, u16)>, Seq<char>>(ranges),
    decreases names.len(),
{
    if names.len() > 0 {
        let init = names.drop_last();
        assert forall|n: int| 0 <= n < init.len() implies (#[trigger] first_named(reg, init[n]) matches Some(i)
            && some_range_for(reg[i], ranges)) by {
            assert(init[n] == names[n]);
        }
        lemma_resolve_keeps_covering_ranges(reg, init, ranges);
        assert(first_named(reg, names[names.len() - 1]) is Some);
        let i = first_named(reg, names.last()).unwrap();
        lemma_some_range_for_covers(reg[i], ranges);
    }
}

/// The check adds at most one range, `icmp/0-0`, and only when some
/// requested ICMP-capable probe is covered by none of the given ranges; in
/// every other successful check the resolved ranges are the given ones.
pub proof fn lemma_resolve_adds_only_missing_icmp(
    reg: Seq<ProtocolView>,
    names: Seq<Seq<char>>,
    ranges: Seq<(Seq<char>, u16, u16)>,
)
    ensures
        resolve_all(reg, names, ranges) matches Ok(out) ==> (out == ranges || (out == ranges.push(
            ("icmp"@, 0u16, 0u16),
        ) && exists|n: int|
            0 <= n < names.len() && (#[trigger] first_named(reg, names[n]) matches Some(i)
                && reg[i].transports.contains(Transport::Icmp) && !some_range_for(reg[i], ranges)))),
    decreases names.len(),
{
    if names.len() > 0 {
        let init = names.drop_last();
        lemma_resolve_adds_only_missing_icmp(reg, init, ranges);
        match resolve_all(reg, init, ranges) {
            Err(_) => {},
            Ok(rs) => {
                let name = names.last();
                match first_named(reg, name) {
                    None => {},
                    Some(i) => {
                        lemma_some_range_for_covers(reg[i], rs);
                        lemma_some_range_for_covers(reg[i], ranges);
                        if covers(reg[i], rs) {
                            if rs != ranges {
                                let n0 = choose|n: int|
                                    0 <= n < init.len() && (#[trigger] first_named(reg, init[n]) matches Some(i)
                                        && reg[i].transports.contains(Transport::Icmp) && !some_range_for(reg[i], ranges));
                                assert(names[n0] == init[n0]);
                            }
                        } else if reg[i].transports.contains(Transport::Icmp) {
                            if rs != ranges {
                                reveal_strlit("icmp");
                                crate::test::lemma_transport_text_roundtrip(l3_transport());
                                let k = choose|k: int| 0 <= k < reg[i].transports.len() && reg[i].transports[k] == Transport::Icmp;
                                assert(rs[rs.len() - 1] == l3_range());
                                assert(transport_from_text(rs[rs.len() - 1].0) == Some(reg[i].transports[k]));
                                assert(some_range_for(reg[i], rs));
                                assert(false);
                            }
                            assert(names[names.len() - 1] == name);
                        }
                    },
                }
            },
        }
    }
}

/// A copy of the given texts.
fn copy_texts(texts: &Vec<String>) -> (r: Vec<String>)
    ensures
        text_views(r@) == text_views(texts@),
{
    let mut out: Vec<String> = Vec::new();
    let mut i: usize = 0;
    while i < texts.len()
        invariant
            i <= texts@.len(),
            text_views(out@) == text_views(texts@).take(i as int),
        decreases texts.len() - i,
    {
        let d = texts[i].clone();
        let ghost before = out@;
        out.push(d);
        assert(text_views(out@) =~= text_views(before).push(d@));
        i = i + 1;
        assert(text_views(out@) =~= text_views(texts@).take(i as int));
    }
    assert(text_views(texts@).take(texts@.len() as int) =~= text_views(texts@));
    out
}

/// A copy of a planned probe.
fn copy_step(step: &PlannedTest) -> (r: PlannedTest)
    ensures
        r@ == step@,
        r.id == step.id,
{
    PlannedTest {
        id: step.id,
        protocol: step.protocol.clone(),
        transport_name: step.transport_name.clone(),
        transport: step.transport,
        port: step.port,
        direction: step.direction,
    }
}

/// Where a client's session stands.
#[derive(Debug, Clone, Copy, PartialEq, Eq, Structural)]
pub enum ClientPhase {
    /// The configuration is sent; the server's answer is awaited.
    AwaitingAck,
    /// The probe at the cursor is announced and running.
    Probing,
    /// The probe at the cursor has run; the server's report is awaited.
    AwaitingReport,
    /// Every probe has run and `Done` is sent; the server's goodbye is awaited.
    AwaitingBye,
    /// The session is over.
    Finished,
}

/// What a client does next.
#[derive(Debug)]
pub enum ClientAction {
    /// Announce a probe to the server, then run it from the client's end.
    RunProbe { announce: Message, step: PlannedTest },
    /// Send a message, then wait for the server's answer.
    Send(Message),
    /// End the session with this outcome.
    Finish(Result<TestSummary, String>),
}

/// A client's session: its plan, the cursor into it, the counts so far and
/// where it stands.
pub struct ClientSession {
    plan: Vec<PlannedTest>,
    next: usize,
    summary: TestSummary,
    phase: ClientPhase,
}

/// The abstract value of a client's session.
pub struct ClientView {
    pub plan: Seq<PlannedTest>,
    pub next: int,
    pub summary: TestSummary,
    pub phase: ClientPhase,
}

impl View for ClientSession {
    type V = ClientView;

    closed spec fn view(&self) -> ClientView {
        ClientView { plan: self.plan@, next: self.next as int, summary: self.summary, phase: self.phase }
    }
}

/// Whether a session's state is one the protocol can reach: a numbered plan
/// of at most `u32::MAX` probes, a cursor within it, and one counted result
/// for every probe before the cursor (and for the one at it once it has run).
pub open spec fn client_wf(v: ClientView) -> bool {
    &&& v.plan.len() <= u32::MAX
    &&& numbered_in_order(v.plan)
    &&& 0 <= v.next <= v.plan.len()
    &&& match v.phase {
        ClientPhase::AwaitingAck => v.next == 0 && v.summary == TestSummary { passed: 0, failed: 0, errors: 0 },
        ClientPhase::Probing => v.next < v.plan.len() && summary_total(v.summary) == v.next,
        ClientPhase::AwaitingReport => v.next < v.plan.len() && summary_total(v.summary) == v.next + 1,
        ClientPhase::AwaitingBye => v.next == v.plan.len() && summary_total(v.summary) == v.next && v.next > 0,
        ClientPhase::Finished => summary_total(v.summary) <= v.plan.len(),
    }
}

/// Whether `m` announces planned probe `step` to the server.
pub open spec fn announces(m: Message, step: PlannedTest) -> bool {
    m matches Message::Test { id, protocol, transport, port, direction } && id == step.id && protocol@
        == step.protocol@ && transport@ == step.transport_name@ && port == step.port && direction@
        == direction_text(step.direction)
}

/// How a session goes on from cursor position `old.next` with the counts of
/// `old`: the next probe if one is left; otherwise an error when no probe
/// ran at all, or `Done` and a wait for the server's goodbye.
pub open spec fn proceeds(old: ClientView, new: ClientView, r: ClientAction) -> bool {
    &&& new.plan == old.plan
    &&& new.next == old.next
    &&& new.summary == old.summary
    &&& if old.next < old.plan.len() {
        &&& new.phase == ClientPhase::Probing
        &&& r matches ClientAction::RunProbe { announce, step } && step@ == old.plan[old.next]@
            && step.id == old.plan[old.next].id && announces(announce, old.plan[old.next])
    } else if summary_total(old.summary) == 0 {
        &&& new.phase == ClientPhase::Finished
        &&& r matches ClientAction::Finish(Err(e)) && e@ == "no tests matched the given port ranges"@
    } else {
        &&& new.phase == ClientPhase::AwaitingBye
        &&& r matches ClientAction::Send(Message::Done)
    }
}

impl ClientSession {
    /// Plans the session for the requested probes and the (already checked)
    /// port ranges, and gives the configuration to send. An unknown probe
    /// name is an error.
    pub fn start(
        registry: &TestRegistry,
        tests: &Vec<String>,
        port_ranges: &Vec<PortRangeSpec>,
        bidir: bool,
    ) -> (r: Result<(ClientSession, Message), String>)
        requires
            plan_fits_spec(registry@, text_views(tests@), range_views(port_ranges@), bidir),
        ensures
            match first_unknown_from(registry@, text_views(tests@), 0) {
                Some(i) => r matches Err(e) && e@ == "unknown protocol: "@ + tests@[i]@,
                None => r matches Ok((session, configure)) && client_wf(session@)
                    && step_views(session@.plan) == all_steps(registry@, text_views(tests@), range_views(port_ranges@), bidir)
                    && session@.next == 0 && session@.phase == ClientPhase::AwaitingAck
                    && (configure matches Message::Configure { tests: t, port_ranges: pr, bidir: b }
                        && text_views(t@) == text_views(tests@) && range_views(pr@) == range_views(port_ranges@)
                        && b == bidir),
            },
    {
        let plan = match plan_tests(registry, tests, port_ranges, bidir) {
            Ok(p) => p,
            Err(e) => return Err(e),
        };
        proof {
            assert(step_views(plan@).len() == plan@.len());
        }
        let configure = Message::Configure {
            tests: copy_texts(tests),
            port_ranges: copy_ranges(port_ranges),
            bidir,
        };
        let session = ClientSession { plan, next: 0, summary: TestSummary::empty(), phase: ClientPhase::AwaitingAck };
        Ok((session, configure))
    }

    /// Where the session stands.
    pub fn phase(&self) -> (r: ClientPhase)
        ensures
            r == self@.phase,
    {
        self.phase
    }

    /// The counts so far.
    pub fn summary(&self) -> (r: TestSummary)
        ensures
            r == self@.summary,
    {
        self.summary
    }

    /// Goes on from the cursor (see `proceeds`).
    fn proceed(&mut self) -> (r: ClientAction)
        requires
            old(self)@.plan.len() <= u32::MAX,
            numbered_in_order(old(self)@.plan),
            0 <= old(self)@.next <= old(self)@.plan.len(),
            summary_total(old(self)@.summary) == old(self)@.next,
        ensures
            proceeds(old(self)@, final(self)@, r),
            client_wf(final(self)@),
    {
        if self.next < self.plan.len() {
            let step = copy_step(&self.plan[self.next]);
            let announce = test_message(&self.plan[self.next]);
            self.phase = ClientPhase::Probing;
            ClientAction::RunProbe { announce, step }
        } else {
            match check_any_ran(self.summary) {
                Err(e) => {
                    self.phase = ClientPhase::Finished;
                    ClientAction::Finish(Err(e))
                },
                Ok(()) => {
                    self.phase = ClientPhase::AwaitingBye;
                    ClientAction::Send(Message::Done)
                },
            }
        }
    }

    /// The client's step on receiving `msg` from the server: the answer to
    /// the configuration, the report of the probe just run, or the goodbye.
    pub fn on_message(&mut self, msg: &Message) -> (r: ClientAction)
        requires
            client_wf(old(self)@),
            old(self)@.phase == ClientPhase::AwaitingAck || old(self)@.phase == ClientPhase::AwaitingReport
                || old(self)@.phase == ClientPhase::AwaitingBye,
        ensures
            client_wf(final(self)@),
            final(self)@.plan == old(self)@.plan,
            final(self)@.summary == old(self)@.summary,
            r matches ClientAction::Finish(Ok(s)) ==> summary_total(s) == final(self)@.plan.len()
                && summary_total(s) > 0,
            old(self)@.phase == ClientPhase::AwaitingAck ==> match *msg {
                Message::Ack { ok: true, .. } => proceeds(old(self)@, final(self)@, r),
                _ => final(self)@.phase == ClientPhase::Finished && (r matches ClientAction::Finish(Err(e))
                    && ack_error(*msg) == Some(e@)),
            },
            old(self)@.phase == ClientPhase::AwaitingReport ==> if msg is Report {
                proceeds(ClientView { next: old(self)@.next + 1, ..old(self)@ }, final(self)@, r)
            } else {
                final(self)@.phase == ClientPhase::Finished && (r matches ClientAction::Finish(Err(e))
                    && e@ == "expected Report"@)
            },
            old(self)@.phase == ClientPhase::AwaitingBye ==> final(self)@.phase == ClientPhase::Finished
                && if msg is Bye {
                    r matches ClientAction::Finish(Ok(s)) && s == old(self)@.summary
                } else {
                    r matches ClientAction::Finish(Err(e)) && e@ == "expected Bye"@
                },
    {
        match self.phase {
            ClientPhase::AwaitingAck => match check_ack(msg) {
                Ok(()) => self.proceed(),
                Err(e) => {
                    self.phase = ClientPhase::Finished;
                    ClientAction::Finish(Err(e))
                },
            },
            ClientPhase::AwaitingReport => match check_report(msg) {
                Ok(()) => {
                    self.next = self.next + 1;
                    self.proceed()
                },
                Err(e) => {
                    self.phase = ClientPhase::Finished;
                    ClientAction::Finish(Err(e))
                },
            },
            _ => {
                let outcome = check_bye(msg, self.summary);
                self.phase = ClientPhase::Finished;
                ClientAction::Finish(outcome)
            },
        }
    }

    /// Counts the result of the probe that was running.
    pub fn on_result(&mut self, result: &ProtocolResult)
        requires
            client_wf(old(self)@),
            old(self)@.phase == ClientPhase::Probing,
        ensures
            client_wf(final(self)@),
            final(self)@ == (ClientView {
                summary: counted(old(self)@.summary, *result),
                phase: ClientPhase::AwaitingReport,
                ..old(self)@
            }),
    {
        self.summary.record(result);
        self.phase = ClientPhase::AwaitingReport;
    }
}

/// The error a client gives for a refused or missing answer to its
/// configuration; `None` for an acceptance.
pub open spec fn ack_error(msg: Message) -> Option<Seq<char>> {
    match msg {
        Message::Ack { ok: true, .. } => None,
        Message::Ack { ok: false, message: Some(m) } => Some("server rejected config: "@ + m@),
        Message::Ack { ok: false, message: None } => Some("server rejected config"@),
        _ => Some("expected Ack"@),
    }
}

/// The counts of a list of results, taken in order.
pub open spec fn tally(results: Seq<ProtocolResult>) -> TestSummary
    decreases results.len(),
{
    if results.len() == 0 {
        TestSummary { passed: 0, failed: 0, errors: 0 }
    } else {
        counted(tally(results.drop_last()), results.last())
    }
}

/// The server's acceptance of a configuration.
pub open spec fn accepting_ack() -> Message {
    Message::Ack { ok: true, message: None }
}

/// Whether `sent` is what a server has sent once it accepted a configuration
/// and ran the probes `ids` with `results`: the acceptance, then one report
/// per probe, in order.
pub open spec fn reports_sent(sent: Seq<Message>, ids: Seq<u32>, results: Seq<ProtocolResult>) -> bool {
    &&& ids.len() == results.len()
    &&& sent.len() == results.len() + 1
    &&& sent[0] == accepting_ack()
    &&& forall|i: int| #![trigger results[i]] 0 <= i < results.len() ==> is_report_of(sent[i + 1], ids[i], results[i])
}

/// What a server does next.
#[derive(Debug)]
pub enum ServerMove {
    /// Send this message, then wait for the client's next one.
    Send(Message),
    /// Run this probe from the server's end (the direction is already the
    /// server's), then give its result to `on_result`.
    Run { id: u32, protocol: String, transport: Transport, port: u16, direction: Direction },
    /// Send this goodbye; the session ends with these counts.
    End(Message, TestSummary),
    /// End the session with this error.
    Abort(String),
}

/// A server's session: where it stands, the probe it runs, and (as ghost
/// state) what it has sent and the probes and results it has reported.
pub struct ServerSession {
    phase: ServerPhase,
    running: Option<u32>,
    sent: Ghost<Seq<Message>>,
    ids: Ghost<Seq<u32>>,
    results: Ghost<Seq<ProtocolResult>>,
}

/// The abstract value of a server's session.
pub struct ServerSessionView {
    pub phase: ServerPhase,
    pub running: Option<u32>,
    pub sent: Seq<Message>,
    pub ids: Seq<u32>,
    pub results: Seq<ProtocolResult>,
}

impl View for ServerSession {
    type V = ServerSessionView;

    closed spec fn view(&self) -> ServerSessionView {
        ServerSessionView {
            phase: self.phase,
            running: self.running,
            sent: self.sent@,
            ids: self.ids@,
            results: self.results@,
        }
    }
}

/// Whether a server's session is in a state the protocol reaches: nothing
/// sent before the configuration; while running, the acceptance and one
/// report per finished probe sent, and counts that tally the results.
pub open spec fn server_wf(v: ServerSessionView) -> bool {
    match v.phase {
        ServerPhase::AwaitingConfigure => v.sent.len() == 0 && v.ids.len() == 0 && v.results.len() == 0
            && v.running is None,
        ServerPhase::Running(s) => reports_sent(v.sent, v.ids, v.results) && s == tally(v.results),
        ServerPhase::Finished => true,
    }
}

impl ServerSession {
    /// A session waiting for the client's configuration.
    pub fn new() -> (r: ServerSession)
        ensures
            server_wf(r@),
            r@.phase == ServerPhase::AwaitingConfigure,
            r@.running is None,
            r@.sent.len() == 0,
    {
        ServerSession {
            phase: ServerPhase::AwaitingConfigure,
            running: None,
            sent: Ghost(Seq::empty()),
            ids: Ghost(Seq::empty()),
            results: Ghost(Seq::empty()),
        }
    }

    /// Whether the result of the probe being run can be counted.
    pub fn can_record(&self) -> (r: bool)
        ensures
            r == (self@.running is Some && (self@.phase matches ServerPhase::Running(s) && can_count(s))),
    {
        match self.phase {
            ServerPhase::Running(s) => self.running.is_some() && s.has_room(),
            _ => false,
        }
    }

    /// The server's step on receiving `msg` (see `server_step`): the
    /// acceptance is sent and recorded; a goodbye carries the tally of every
    /// result reported, after the acceptance and the reports in order.
    pub fn on_message(&mut self, registry: &TestRegistry, msg: &Message) -> (r: ServerMove)
        requires
            server_wf(old(self)@),
            !(old(self)@.phase is Finished),
            old(self)@.running is None,
        ensures
            server_wf(final(self)@),
            final(self)@.ids == old(self)@.ids,
            final(self)@.results == old(self)@.results,
            !(r is Run) ==> final(self)@.running is None,
            old(self)@.phase is AwaitingConfigure && msg is Configure ==> r == ServerMove::Send(accepting_ack())
                && final(self)@.running is None
                && final(self)@.sent == seq![accepting_ack()]
                && final(self)@.phase == ServerPhase::Running(TestSummary { passed: 0, failed: 0, errors: 0 }),
            old(self)@.phase is AwaitingConfigure && !(msg is Configure) ==> final(self)@.phase == ServerPhase::Finished
                && (r matches ServerMove::Abort(e) && e@ == "expected Configure message"@),
            old(self)@.phase matches ServerPhase::Running(s) ==> match *msg {
                Message::Test { id, protocol, transport, port, direction } => if first_named(registry@, protocol@) is None {
                    final(self)@.phase == ServerPhase::Finished && (r matches ServerMove::Abort(e) && e@
                        == "unknown protocol: "@ + protocol@)
                } else if transport_from_text(transport@) is None {
                    final(self)@.phase == ServerPhase::Finished && (r matches ServerMove::Abort(e) && e@
                        == "unknown transport: "@ + transport@)
                } else if direction_from_text(direction@) is None {
                    final(self)@.phase == ServerPhase::Finished && (r matches ServerMove::Abort(e) && e@
                        == "unknown direction: "@ + direction@)
                } else {
                    final(self)@.phase == old(self)@.phase && final(self)@.sent == old(self)@.sent
                        && final(self)@.running == Some(id) && (r matches ServerMove::Run {
                        id: rid,
                        protocol: rp,
                        transport: rt,
                        port: rport,
                        direction: rd,
                    } && rid == id && rp@ == protocol@ && Some(rt) == transport_from_text(transport@)
                        && rport == port && Some(reversed(rd)) == direction_from_text(direction@))
                },
                Message::Done => final(self)@.phase == ServerPhase::Finished
                    && s == tally(old(self)@.results)
                    && reports_sent(old(self)@.sent, old(self)@.ids, old(self)@.results)
                    && r == ServerMove::End(Message::Bye { summary: s }, s)
                    && final(self)@.sent == old(self)@.sent.push(Message::Bye { summary: s }),
                _ => final(self)@.phase == ServerPhase::Finished && (r matches ServerMove::Abort(e) && e@
                    == "unexpected message, expected Test or Done"@),
            },
    {
        let (next, action) = server_step(registry, self.phase, msg);
        self.phase = next;
        match action {
            ServerAction::SendAck => {
                let ack = Message::Ack { ok: true, message: None };
                proof {
                    self.sent@ = self.sent@.push(ack);
                }
                ServerMove::Send(ack)
            },
            ServerAction::RunTest { id, protocol, transport, port, direction } => {
                self.running = Some(id);
                ServerMove::Run { id, protocol, transport, port, direction }
            },
            ServerAction::SendBye(s) => {
                let bye = Message::Bye { summary: s };
                proof {
                    self.sent@ = self.sent@.push(bye);
                }
                ServerMove::End(bye, s)
            },
            ServerAction::Abort(e) => ServerMove::Abort(e),
        }
    }

    /// Counts the result of the probe that was running and gives its report
    /// to send; the report is recorded after those before it.
    pub fn on_result(&mut self, result: &ProtocolResult) -> (r: Message)
        requires
            server_wf(old(self)@),
            old(self)@.running is Some,
            old(self)@.phase matches ServerPhase::Running(s) && can_count(s),
        ensures
            server_wf(final(self)@),
            final(self)@.running is None,
            is_report_of(r, old(self)@.running->0, *result),
            final(self)@.sent == old(self)@.sent.push(r),
            final(self)@.ids == old(self)@.ids.push(old(self)@.running->0),
            final(self)@.results == old(self)@.results.push(*result),
            old(self)@.phase matches ServerPhase::Running(s)
                && final(self)@.phase == ServerPhase::Running(counted(s, *result)),
    {
        let id = match self.running {
            Some(id) => id,
            None => 0,
        };
        let ghost old_results = self.results@;
        let (next, report) = server_record(self.phase, id, result);
        self.phase = next;
        self.running = None;
        proof {
            self.sent@ = self.sent@.push(report);
            self.ids@ = self.ids@.push(id);
            self.results@ = self.results@.push(*result);
            assert(self.results@.drop_last() =~= old_results);
            assert forall|i: int| #![trigger self.results@[i]] 0 <= i < self.results@.len()
                implies is_report_of(self.sent@[i + 1], self.ids@[i], self.results@[i]) by {
                if i < old_results.len() {
                    assert(self.results@[i] == old_results[i]);
                }
            }
        }
        report
    }
}


} // verus!
