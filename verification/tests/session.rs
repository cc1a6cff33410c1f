use bimap::cli::{
    bind_failure_hint, exit_code, fingerprint_accepted, listing_line, parse, parse_port_range,
    parse_port_ranges, port_range_required, remove_pattern, strip_ipv6_brackets, Args, Command,
};
use bimap::control::msg::{Message, PortRangeSpec, TestSummary};
use bimap::control::{frame_line, unframe_line};
use bimap::orchestrator::{
    check_ack, check_any_ran, check_bye, check_report, parse_direction, plan_fits, plan_tests,
    protocol_result_to_report, resolve_port_ranges, result_line, server_record, server_step,
    shows_result, test_message, ClientAction, ClientPhase, ClientSession, ProtocolResult, ServerAction,
    ServerPhase,
};
use bimap::output::format_port_ranges;
use bimap::orchestrator::{ServerMove, ServerSession};
use bimap::test::{
    attempt_step, build_registry, connect_step, protocol_info, AttemptAction, AttemptOutcome,
    ConnectAction, ConnectOutcome, Direction, Layer, TestRegistry, Transport, CONNECT_ATTEMPTS,
    UDP_ATTEMPTS,
};

#[test]
fn protocol_result_sizes() {
    let r = ProtocolResult::Pass { sent_bytes: 1, received_bytes: 1 };
    assert!(matches!(r, ProtocolResult::Pass { .. }));
}

#[test]
fn parse_direction_valid() {
    assert_eq!(parse_direction("->").unwrap(), Direction::ClientToServer);
    assert_eq!(parse_direction("<-").unwrap(), Direction::ServerToClient);
}

#[test]
fn parse_direction_invalid() {
    assert!(parse_direction("invalid").is_err());
}

#[test]
fn registry_find() {
    let mut registry = TestRegistry::new();
    registry.register(protocol_info("mock", Layer::L4, vec![Transport::Tcp]));
    assert_eq!(registry.names(), vec!["mock"]);
    assert!(registry.find("mock").is_some());
    assert!(registry.find("nonexistent").is_none());
}

#[test]
fn transport_from_str() {
    assert_eq!(Transport::from_str("tcp"), Some(Transport::Tcp));
    assert_eq!(Transport::from_str("udp"), Some(Transport::Udp));
    assert_eq!(Transport::from_str("icmp"), Some(Transport::Icmp));
    assert_eq!(Transport::from_str("sctp"), None);
}

#[test]
fn direction_as_str() {
    assert_eq!(Direction::ClientToServer.as_str(), "->");
    assert_eq!(Direction::ServerToClient.as_str(), "<-");
}

// Checks of the session's decisions on concrete values.

fn strings(v: &[&str]) -> Vec<String> {
    v.iter().map(|s| s.to_string()).collect()
}

fn range(t: &str, start: u16, end: u16) -> PortRangeSpec {
    PortRangeSpec { transport: t.to_string(), start, end }
}

#[test]
fn transport_and_direction_roundtrip() {
    for t in [Transport::Tcp, Transport::Udp, Transport::Icmp] {
        assert_eq!(Transport::from_str(t.as_str()), Some(t));
    }
    for d in [Direction::ClientToServer, Direction::ServerToClient] {
        assert_eq!(parse_direction(d.as_str()), Ok(d));
        assert_eq!(d.reverse().reverse(), d);
        assert_ne!(d.reverse(), d);
    }
    assert_eq!(parse_direction("=>"), Err("unknown direction: =>".to_string()));
}

#[test]
fn standard_registry() {
    let registry = build_registry();
    assert_eq!(registry.names(), vec!["open", "1kb", "icmp-ping", "icmp-full", "tls", "dns"]);
    let tls = registry.find("tls").unwrap();
    assert_eq!(tls.transports, vec![Transport::Tcp]);
    assert!(tls.supports(Transport::Tcp));
    assert!(!tls.supports(Transport::Udp));
    assert_eq!(listing_line(tls), "  tls          layer=L7 transports=tcp");
    assert_eq!(listing_line(registry.find("icmp-full").unwrap()), "  icmp-full    layer=L3 transports=icmp");
}

#[test]
fn result_reports() {
    let pass = protocol_result_to_report(3, &ProtocolResult::Pass { sent_bytes: 1, received_bytes: 2 });
    match pass {
        Message::Report { id, sent: Some(s), received: Some(r), error: None } => {
            assert_eq!((id, s.bytes, r.bytes), (3, 1, 2));
            assert!(s.sha256.is_empty());
        }
        other => panic!("unexpected {other:?}"),
    }
    let err = protocol_result_to_report(4, &ProtocolResult::Error { reason: "bind: x".into() });
    assert!(matches!(err, Message::Report { id: 4, sent: None, received: None, error: Some(ref e) } if e == "bind: x"));
    let fail = protocol_result_to_report(5, &ProtocolResult::Fail { reason: "timeout".into(), sent_bytes: 1, received_bytes: 0 });
    assert!(matches!(fail, Message::Report { id: 5, sent: Some(_), received: Some(_), error: Some(ref e) } if e == "timeout"));
}

#[test]
fn summary_counts_each_result() {
    let mut s = TestSummary::empty();
    s.record(&ProtocolResult::Pass { sent_bytes: 1, received_bytes: 1 });
    s.record(&ProtocolResult::Fail { reason: "x".into(), sent_bytes: 0, received_bytes: 0 });
    s.record(&ProtocolResult::Error { reason: "y".into() });
    s.record(&ProtocolResult::Pass { sent_bytes: 1, received_bytes: 1 });
    assert_eq!(s, TestSummary { passed: 2, failed: 1, errors: 1 });
    assert!(!s.all_passed());
    assert_eq!(exit_code(&s), 1);
    assert_eq!(exit_code(&TestSummary { passed: 3, failed: 0, errors: 0 }), 0);
    assert_eq!(check_any_ran(TestSummary::empty()), Err("no tests matched the given port ranges".to_string()));
    assert_eq!(check_any_ran(s), Ok(()));
}

#[test]
fn client_checks_of_server_messages() {
    assert_eq!(check_ack(&Message::Ack { ok: true, message: None }), Ok(()));
    assert_eq!(
        check_ack(&Message::Ack { ok: false, message: Some("busy".into()) }),
        Err("server rejected config: busy".to_string())
    );
    assert_eq!(check_ack(&Message::Ack { ok: false, message: None }), Err("server rejected config".to_string()));
    assert_eq!(check_ack(&Message::Done), Err("expected Ack".to_string()));
    assert_eq!(check_report(&Message::Done), Err("expected Report".to_string()));
    let s = TestSummary { passed: 1, failed: 0, errors: 0 };
    assert_eq!(check_bye(&Message::Bye { summary: TestSummary::empty() }, s), Ok(s));
    assert_eq!(check_bye(&Message::Done, s), Err("expected Bye".to_string()));
}

#[test]
fn server_session_steps() {
    let registry = build_registry();
    let configure = Message::Configure { tests: strings(&["open"]), port_ranges: vec![range("tcp", 1, 1)], bidir: false };
    let (phase, action) = server_step(&registry, ServerPhase::AwaitingConfigure, &configure);
    assert_eq!(phase, ServerPhase::Running(TestSummary::empty()));
    assert!(matches!(action, ServerAction::SendAck));

    let test = Message::Test { id: 7, protocol: "open".into(), transport: "udp".into(), port: 53, direction: "->".into() };
    let (phase2, action) = server_step(&registry, phase, &test);
    assert_eq!(phase2, phase);
    match action {
        ServerAction::RunTest { id, protocol, transport, port, direction } => {
            assert_eq!((id, protocol.as_str(), transport, port, direction), (7, "open", Transport::Udp, 53, Direction::ServerToClient));
        }
        other => panic!("unexpected {other:?}"),
    }

    let (phase3, report) = server_record(phase, 7, &ProtocolResult::Pass { sent_bytes: 1, received_bytes: 1 });
    assert_eq!(phase3, ServerPhase::Running(TestSummary { passed: 1, failed: 0, errors: 0 }));
    assert!(matches!(report, Message::Report { id: 7, .. }));

    let (end, action) = server_step(&registry, phase3, &Message::Done);
    assert_eq!(end, ServerPhase::Finished);
    assert!(matches!(action, ServerAction::SendBye(TestSummary { passed: 1, failed: 0, errors: 0 })));

    let unknown = Message::Test { id: 0, protocol: "nope".into(), transport: "tcp".into(), port: 1, direction: "->".into() };
    let (end, action) = server_step(&registry, phase, &unknown);
    assert_eq!(end, ServerPhase::Finished);
    assert!(matches!(action, ServerAction::Abort(ref e) if e == "unknown protocol: nope"));

    let bad_transport = Message::Test { id: 0, protocol: "open".into(), transport: "sctp".into(), port: 1, direction: "->".into() };
    assert!(matches!(server_step(&registry, phase, &bad_transport).1, ServerAction::Abort(ref e) if e == "unknown transport: sctp"));
    let bad_dir = Message::Test { id: 0, protocol: "open".into(), transport: "tcp".into(), port: 1, direction: "<>".into() };
    assert!(matches!(server_step(&registry, phase, &bad_dir).1, ServerAction::Abort(ref e) if e == "unknown direction: <>"));
    assert!(matches!(server_step(&registry, ServerPhase::AwaitingConfigure, &Message::Done).1, ServerAction::Abort(ref e) if e == "expected Configure message"));
    assert!(matches!(server_step(&registry, phase, &configure).1, ServerAction::Abort(ref e) if e == "unexpected message, expected Test or Done"));
}

#[test]
fn client_range_resolution() {
    let registry = build_registry();
    let resolved = resolve_port_ranges(&registry, &strings(&["icmp-ping"]), &vec![range("tcp", 42, 42)]).unwrap();
    assert_eq!(resolved.len(), 2);
    assert_eq!((resolved[1].transport.as_str(), resolved[1].start, resolved[1].end), ("icmp", 0, 0));
    let err = resolve_port_ranges(&registry, &strings(&["tls"]), &vec![range("udp", 1, 2)]).unwrap_err();
    assert_eq!(err, "tls needs a matching --port-range (supports tcp)");
    let err = resolve_port_ranges(&registry, &strings(&["dns"]), &vec![]).unwrap_err();
    assert_eq!(err, "dns needs a matching --port-range (supports tcp, udp)");
    let err = resolve_port_ranges(&registry, &strings(&["bogus"]), &vec![]).unwrap_err();
    assert_eq!(err, "unknown protocol: bogus");
    let ok = resolve_port_ranges(&registry, &strings(&["open"]), &vec![range("udp", 5, 6)]).unwrap();
    assert_eq!(ok.len(), 1);
}

#[test]
fn client_plan() {
    let registry = build_registry();
    let tests = strings(&["open", "tls"]);
    let ranges = vec![range("tcp", 10, 11), range("udp", 20, 20), range("sctp", 1, 5)];
    assert!(plan_fits(&registry, &tests, &ranges, true));
    let plan = plan_tests(&registry, &tests, &ranges, true).unwrap();
    let got: Vec<(u32, &str, &str, u16, Direction)> = plan
        .iter()
        .map(|s| (s.id, s.protocol.as_str(), s.transport_name.as_str(), s.port, s.direction))
        .collect();
    let (c, sv) = (Direction::ClientToServer, Direction::ServerToClient);
    assert_eq!(
        got,
        vec![
            (0, "open", "tcp", 10, c),
            (1, "open", "tcp", 10, sv),
            (2, "open", "tcp", 11, c),
            (3, "open", "tcp", 11, sv),
            (4, "open", "udp", 20, c),
            (5, "open", "udp", 20, sv),
            (6, "tls", "tcp", 10, c),
            (7, "tls", "tcp", 10, sv),
            (8, "tls", "tcp", 11, c),
            (9, "tls", "tcp", 11, sv),
        ]
    );
    match test_message(&plan[4]) {
        Message::Test { id, protocol, transport, port, direction } => {
            assert_eq!((id, protocol.as_str(), transport.as_str(), port, direction.as_str()), (4, "open", "udp", 20, "->"));
        }
        other => panic!("unexpected {other:?}"),
    }
    let reversed_range = vec![range("tcp", 9, 3)];
    assert!(plan_tests(&registry, &tests, &reversed_range, false).unwrap().is_empty());
    assert_eq!(plan_tests(&registry, &strings(&["x"]), &ranges, false).unwrap_err(), "unknown protocol: x");
    let huge = vec![range("tcp", 0, 65535); 40000];
    assert!(!plan_fits(&registry, &strings(&["open"]), &huge, true));
}

#[test]
fn result_lines() {
    let pass = ProtocolResult::Pass { sent_bytes: 1, received_bytes: 1 };
    assert_eq!(result_line(0, "open", "tcp", 80, Direction::ClientToServer, &pass, false), "PASS open tcp 80 -> (tx=1 rx=1)");
    let fail = ProtocolResult::Fail { reason: "refused".into(), sent_bytes: 0, received_bytes: 0 };
    assert_eq!(result_line(1, "open", "udp", 53, Direction::ServerToClient, &fail, false), "FAIL open udp 53 <- refused (tx=0 rx=0)");
    let err = ProtocolResult::Error { reason: "bind: busy".into() };
    assert_eq!(result_line(2, "dns", "tcp", 5353, Direction::ClientToServer, &err, false), "ERR  dns tcp 5353 -> bind: busy");
    assert_eq!(
        result_line(2, "dns", "tcp", 5353, Direction::ClientToServer, &err, true),
        r#"{"id":2,"protocol":"dns","transport":"tcp","port":5353,"direction":"->","status":"error","reason":"bind: busy","tx":0,"rx":0}"#
    );
    assert_eq!(
        result_line(0, "open", "tcp", 80, Direction::ClientToServer, &pass, true),
        r#"{"id":0,"protocol":"open","transport":"tcp","port":80,"direction":"->","status":"pass","reason":"","tx":1,"rx":1}"#
    );
}

#[test]
fn port_range_parsing() {
    let r = parse_port_range("tcp/1-1024").unwrap();
    assert_eq!((r.transport.as_str(), r.start, r.end), ("tcp", 1, 1024));
    let r = parse_port_range("udp/53").unwrap();
    assert_eq!((r.transport.as_str(), r.start, r.end), ("udp", 53, 53));
    let r = parse_port_range("icmp/any").unwrap();
    assert_eq!((r.transport.as_str(), r.start, r.end), ("icmp", 0, 0));
    let r = parse_port_range("icmp/icmp").unwrap();
    assert_eq!((r.start, r.end), (0, 0));
    let r = parse_port_range("tcp/1-99999").unwrap();
    assert_eq!((r.start, r.end), (1, 1));
    assert!(parse_port_range("tcp").is_none());
    assert!(parse_port_range("tcp/x-2").is_none());
    assert!(parse_port_range("tcp/70000").is_none());
    let all = parse_port_ranges(&strings(&["tcp/1-2", "bad", "udp/7"]));
    assert_eq!(all.len(), 2);
    assert_eq!((all[1].transport.as_str(), all[1].start), ("udp", 7));
}

#[test]
fn port_ranges_formatting() {
    let ports: Vec<u16> = (0..=21).chain(23..=79).chain(81..=1023).collect();
    assert_eq!(format_port_ranges(&ports), "0-21,23-79,81-1023");
    assert_eq!(format_port_ranges(&[]), "");
    assert_eq!(format_port_ranges(&[7]), "7");
    assert_eq!(format_port_ranges(&[1, 3, 4]), "1,3-4");
}

#[test]
fn fingerprint_checks() {
    let hello = "SHA256:ab12";
    assert!(fingerprint_accepted(hello, "SHA256:ab12"));
    assert!(fingerprint_accepted("ab12", "SHA256:ab12"));
    assert!(fingerprint_accepted("ab12", "SHA256:SHA256:ab12"));
    assert!(!fingerprint_accepted(hello, "ab13"));
    assert_eq!(remove_pattern("xSHA256:ySHA256:", "SHA256:"), "xy");
}

#[test]
fn command_line_helpers() {
    assert_eq!(strip_ipv6_brackets("[::1]"), "::1");
    assert_eq!(strip_ipv6_brackets("127.0.0.1"), "127.0.0.1");
    assert_eq!(strip_ipv6_brackets("["), "[");
    let registry = build_registry();
    assert!(port_range_required(&registry, &strings(&["icmp-ping", "open"])));
    assert!(!port_range_required(&registry, &strings(&["icmp-ping", "icmp-full", "nope"])));
    assert_eq!(bind_failure_hint("[::]:443", true, false), " (port 443 requires root/sudo; use --bind with port > 1024)");
    assert_eq!(bind_failure_hint("[::]:8443", true, true), " (address already in use)");
    assert_eq!(bind_failure_hint("0.0.0.0:80", false, false), "");
    assert!(parse(Args { command: None }).is_err());
    let cmd = Command::Server { bind: "[::]:443".into(), verbose: 0 };
    assert!(matches!(parse(Args { command: Some(cmd) }), Ok(Command::Server { .. })));
}

#[test]
fn control_line_framing() {
    assert_eq!(frame_line(b"{}".to_vec()), b"{}\n".to_vec());
    assert_eq!(unframe_line("{\"type\":\"done\"}\r\n"), Ok("{\"type\":\"done\"}".to_string()));
    assert_eq!(unframe_line("abc\n\n"), Ok("abc".to_string()));
    assert_eq!(unframe_line(""), Err("connection closed".to_string()));
}

#[test]
fn server_runs_every_planned_probe_reversed() {
    let registry = build_registry();
    let tests = strings(&["open", "dns", "icmp-ping"]);
    let ranges = resolve_port_ranges(&registry, &tests, &vec![range("udp", 53, 54)]).unwrap();
    let plan = plan_tests(&registry, &tests, &ranges, true).unwrap();
    assert_eq!(plan.len(), 10);
    let running = ServerPhase::Running(TestSummary::empty());
    for step in &plan {
        match server_step(&registry, running, &test_message(step)) {
            (phase, ServerAction::RunTest { id, protocol, transport, port, direction }) => {
                assert_eq!(phase, running);
                assert_eq!(id, step.id);
                assert_eq!(protocol, step.protocol);
                assert_eq!(transport, step.transport);
                assert_eq!(port, step.port);
                assert_eq!(direction, step.direction.reverse());
            }
            (_, other) => panic!("unexpected {other:?}"),
        }
    }
}

#[test]
fn summary_room() {
    assert!(TestSummary::empty().has_room());
    assert!(!TestSummary { passed: u32::MAX, failed: 0, errors: 0 }.has_room());
}

#[test]
fn unknown_probe_fails_resolution() {
    let registry = build_registry();
    let err = resolve_port_ranges(&registry, &strings(&["open", "nonexistent"]), &vec![range("tcp", 1, 1)]).unwrap_err();
    assert_eq!(err, "unknown protocol: nonexistent");
}

#[test]
fn client_session_runs_plan_in_order() {
    let registry = build_registry();
    let (mut s, configure) =
        ClientSession::start(&registry, &strings(&["open"]), &vec![range("tcp", 7, 8)], false).unwrap();
    assert!(matches!(configure, Message::Configure { bidir: false, ref tests, .. } if tests == &vec!["open".to_string()]));
    assert_eq!(s.phase(), ClientPhase::AwaitingAck);
    let mut action = s.on_message(&Message::Ack { ok: true, message: None });
    let mut ports = vec![];
    loop {
        match action {
            ClientAction::RunProbe { announce, step } => {
                assert!(matches!(announce, Message::Test { id, port, .. } if id == step.id && port == step.port));
                assert_eq!(s.phase(), ClientPhase::Probing);
                ports.push(step.port);
                s.on_result(&ProtocolResult::Pass { sent_bytes: 1, received_bytes: 1 });
                assert_eq!(s.phase(), ClientPhase::AwaitingReport);
                action = s.on_message(&Message::Report { id: step.id, sent: None, received: None, error: None });
            }
            ClientAction::Send(Message::Done) => {
                assert_eq!(s.phase(), ClientPhase::AwaitingBye);
                action = s.on_message(&Message::Bye { summary: TestSummary::empty() });
            }
            ClientAction::Send(other) => panic!("unexpected {other:?}"),
            ClientAction::Finish(outcome) => {
                assert_eq!(outcome, Ok(TestSummary { passed: 2, failed: 0, errors: 0 }));
                break;
            }
        }
    }
    assert_eq!(ports, vec![7, 8]);
    assert_eq!(s.phase(), ClientPhase::Finished);
}

#[test]
fn client_session_errors() {
    let registry = build_registry();
    let tests = strings(&["open"]);
    let (mut s, _) = ClientSession::start(&registry, &tests, &vec![range("tcp", 7, 7)], false).unwrap();
    match s.on_message(&Message::Ack { ok: false, message: Some("busy".into()) }) {
        ClientAction::Finish(Err(e)) => assert_eq!(e, "server rejected config: busy"),
        other => panic!("unexpected {other:?}"),
    }
    let (mut s, _) = ClientSession::start(&registry, &tests, &vec![range("tcp", 9, 3)], false).unwrap();
    match s.on_message(&Message::Ack { ok: true, message: None }) {
        ClientAction::Finish(Err(e)) => assert_eq!(e, "no tests matched the given port ranges"),
        other => panic!("unexpected {other:?}"),
    }
    let (mut s, _) = ClientSession::start(&registry, &tests, &vec![range("tcp", 7, 7)], false).unwrap();
    assert!(matches!(s.on_message(&Message::Ack { ok: true, message: None }), ClientAction::RunProbe { .. }));
    s.on_result(&ProtocolResult::Error { reason: "bind: x".into() });
    match s.on_message(&Message::Done) {
        ClientAction::Finish(Err(e)) => assert_eq!(e, "expected Report"),
        other => panic!("unexpected {other:?}"),
    }
    assert!(ClientSession::start(&registry, &strings(&["zzz"]), &vec![], false).is_err());
}

#[test]
fn default_registry_is_empty() {
    let registry = TestRegistry::default();
    assert!(registry.is_empty());
    assert_eq!(registry.len(), 0);
}

#[test]
fn json_lines_escape_string_fields() {
    let fail = ProtocolResult::Fail { reason: "say \"hi\" \\ now\n".into(), sent_bytes: 1, received_bytes: 0 };
    assert_eq!(
        result_line(3, "op\"en", "t\\cp", 7, Direction::ClientToServer, &fail, true),
        r#"{"id":3,"protocol":"op\"en","transport":"t\\cp","port":7,"direction":"->","status":"fail","reason":"say \"hi\" \\ now\u000a","tx":1,"rx":0}"#
    );
    // Text lines keep the fields as they are.
    assert_eq!(
        result_line(3, "open", "tcp", 7, Direction::ClientToServer, &fail, false),
        "FAIL open tcp 7 -> say \"hi\" \\ now\n (tx=1 rx=0)"
    );
}

#[test]
fn connect_steps() {
    assert_eq!(connect_step(0, CONNECT_ATTEMPTS, &ConnectOutcome::Connected), ConnectAction::Proceed);
    assert_eq!(connect_step(0, CONNECT_ATTEMPTS, &ConnectOutcome::Refused), ConnectAction::Retry);
    assert_eq!(connect_step(18, CONNECT_ATTEMPTS, &ConnectOutcome::TimedOut), ConnectAction::Retry);
    assert_eq!(
        connect_step(19, CONNECT_ATTEMPTS, &ConnectOutcome::Refused),
        ConnectAction::Finish(ProtocolResult::Fail { reason: "refused".into(), sent_bytes: 0, received_bytes: 0 })
    );
    assert_eq!(
        connect_step(19, CONNECT_ATTEMPTS, &ConnectOutcome::TimedOut),
        ConnectAction::Finish(ProtocolResult::Fail { reason: "timeout".into(), sent_bytes: 0, received_bytes: 0 })
    );
    assert_eq!(
        connect_step(3, CONNECT_ATTEMPTS, &ConnectOutcome::Failed("network unreachable".into())),
        ConnectAction::Finish(ProtocolResult::Fail { reason: "connect: network unreachable".into(), sent_bytes: 0, received_bytes: 0 })
    );
}

#[test]
fn server_session_transcript() {
    let registry = build_registry();
    let mut session = ServerSession::new();
    let configure = Message::Configure { tests: strings(&["open"]), port_ranges: vec![range("tcp", 1, 2)], bidir: false };
    assert!(matches!(session.on_message(&registry, &configure), ServerMove::Send(Message::Ack { ok: true, message: None })));
    let results = [
        ProtocolResult::Pass { sent_bytes: 1, received_bytes: 1 },
        ProtocolResult::Fail { reason: "timeout".into(), sent_bytes: 1, received_bytes: 0 },
        ProtocolResult::Error { reason: "bind: busy".into() },
    ];
    for (i, result) in results.iter().enumerate() {
        let test = Message::Test { id: i as u32, protocol: "open".into(), transport: "tcp".into(), port: 1, direction: "<-".into() };
        match session.on_message(&registry, &test) {
            ServerMove::Run { id, direction, .. } => {
                assert_eq!(id, i as u32);
                assert_eq!(direction, Direction::ClientToServer);
            }
            other => panic!("unexpected {other:?}"),
        }
        assert!(session.can_record());
        let report = session.on_result(result);
        assert!(matches!(report, Message::Report { id, .. } if id == i as u32));
    }
    match session.on_message(&registry, &Message::Done) {
        ServerMove::End(Message::Bye { summary }, s) => {
            assert_eq!(summary, TestSummary { passed: 1, failed: 1, errors: 1 });
            assert_eq!(s, summary);
        }
        other => panic!("unexpected {other:?}"),
    }
}

#[test]
fn server_session_configure_then_done() {
    let registry = build_registry();
    let mut session = ServerSession::new();
    let configure = Message::Configure { tests: strings(&["open"]), port_ranges: vec![range("tcp", 30000, 30000)], bidir: false };
    assert!(matches!(session.on_message(&registry, &configure), ServerMove::Send(Message::Ack { ok: true, message: None })));
    match session.on_message(&registry, &Message::Done) {
        ServerMove::End(Message::Bye { summary }, s) => {
            assert_eq!(summary, TestSummary { passed: 0, failed: 0, errors: 0 });
            assert_eq!(s, summary);
        }
        other => panic!("unexpected {other:?}"),
    }
}

#[test]
fn server_session_rejects_bad_test_after_configure() {
    let registry = build_registry();
    let mut session = ServerSession::new();
    let configure = Message::Configure { tests: strings(&["open"]), port_ranges: vec![range("tcp", 1, 1)], bidir: false };
    assert!(matches!(session.on_message(&registry, &configure), ServerMove::Send(_)));
    let unknown = Message::Test { id: 0, protocol: "nope".into(), transport: "tcp".into(), port: 1, direction: "->".into() };
    assert!(matches!(session.on_message(&registry, &unknown), ServerMove::Abort(ref e) if e == "unknown protocol: nope"));
}

#[test]
fn udp_attempt_steps() {
    let pass = ProtocolResult::Pass { sent_bytes: 1, received_bytes: 1 };
    assert_eq!(attempt_step(0, UDP_ATTEMPTS, AttemptOutcome::Done(pass.clone()), 1, 0), AttemptAction::Finish(pass));
    assert_eq!(attempt_step(0, UDP_ATTEMPTS, AttemptOutcome::Failed("timeout".into()), 1, 0), AttemptAction::Retry);
    assert_eq!(attempt_step(3, UDP_ATTEMPTS, AttemptOutcome::Failed("recv: refused".into()), 1024, 0), AttemptAction::Retry);
    assert_eq!(
        attempt_step(4, UDP_ATTEMPTS, AttemptOutcome::Failed("timeout".into()), 1024, 0),
        AttemptAction::Finish(ProtocolResult::Fail { reason: "timeout".into(), sent_bytes: 1024, received_bytes: 0 })
    );
    let short = ProtocolResult::Fail { reason: "short".into(), sent_bytes: 0, received_bytes: 0 };
    assert_eq!(attempt_step(4, UDP_ATTEMPTS, AttemptOutcome::Done(short.clone()), 0, 0), AttemptAction::Finish(short));
}

#[test]
fn quiet_output_hides_only_passes() {
    let pass = ProtocolResult::Pass { sent_bytes: 1, received_bytes: 1 };
    let fail = ProtocolResult::Fail { reason: "timeout".into(), sent_bytes: 1, received_bytes: 0 };
    let err = ProtocolResult::Error { reason: "bind: busy".into() };
    assert!(!shows_result(&pass, true));
    assert!(shows_result(&pass, false));
    assert!(shows_result(&fail, true));
    assert!(shows_result(&err, true));
    assert!(shows_result(&fail, false));
}

#[test]
fn framed_messages_read_back_in_order() {
    let texts = ["{\"type\":\"hello\",\"version\":1}", "{\"type\":\"done\"}", ""];
    let mut stream: Vec<u8> = Vec::new();
    for t in texts.iter() {
        stream.extend(frame_line(t.as_bytes().to_vec()));
    }
    let text = String::from_utf8(stream).unwrap();
    let mut rest = text.as_str();
    for t in texts.iter() {
        let end = rest.find('\n').map(|i| i + 1).unwrap_or(rest.len());
        let (line, tail) = rest.split_at(end);
        assert_eq!(unframe_line(line), Ok(t.to_string()));
        rest = tail;
    }
    assert_eq!(unframe_line(rest), Err("connection closed".to_string()));
}
