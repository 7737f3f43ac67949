use net_combiner::adapter::EgressTarget;
use net_combiner::addr::{IpAddr, Ipv4Addr, Ipv6Addr, SocketAddr};
use net_combiner::client::{ClientAction, ClientSession, ClientState};
use net_combiner::connect::{
    failure_text, local_endpoint, resolve_target, AttemptFailure, ConnectPlan, ConnectStep,
};
use net_combiner::pool::{EgressStrategy, WeightedPool};
use net_combiner::proxy::{
    bind_failed_message, client_failed_line, listen_endpoint, startup_lines, ConnectionProtocol,
    Listener, ListenerAction, ListenerEvent, ProxyConfig,
};
use net_combiner::relay::{
    copy_task_result, transfer_report, CopyCounter, CopyStep, Relay, RelayEnds, RelayEvent,
};
use net_combiner::socks::SocksTarget;

fn v4(a: u8, b: u8, c: u8, d: u8) -> IpAddr {
    IpAddr::V4(Ipv4Addr::new(a, b, c, d))
}

fn v6(last: u16) -> IpAddr {
    IpAddr::V6(Ipv6Addr::new(0x2001, 0xdb8, 0, 0, 0, 0, 0, last))
}

fn target(name: &str, ip: IpAddr) -> EgressTarget {
    EgressTarget { name: name.to_owned(), ip, weight: 1 }
}

fn pool() -> WeightedPool {
    WeightedPool::new(
        vec![target("a", v4(192, 0, 2, 1)), target("b", v4(192, 0, 2, 2))],
        EgressStrategy::PerDestination,
    )
}

fn peer() -> SocketAddr {
    SocketAddr::new(v4(127, 0, 0, 1), 40000)
}

/// A session whose client has asked for the connection to 203.0.113.5, port 80.
fn asked() -> ClientSession {
    let (session, action) = ClientSession::begin(7, peer(), false);
    assert!(matches!(action, ClientAction::Read(2)));
    let (session, action) = session.on_bytes(&[5, 1]);
    assert!(matches!(action, ClientAction::Read(1)));
    let (session, action) = session.on_bytes(&[0]);
    assert!(matches!(action, ClientAction::Write(ref bytes) if *bytes == vec![5, 0]));
    let (session, action) = session.on_written();
    assert!(matches!(action, ClientAction::Read(4)));
    let (session, action) = session.on_bytes(&[5, 1, 0, 1]);
    assert!(matches!(action, ClientAction::Read(6)));
    let (session, action) = session.on_bytes(&[203, 0, 113, 5, 0, 80]);
    assert!(matches!(action, ClientAction::Resolve(None)));
    session
}

#[test]
fn connection_is_made_relayed_and_closed() {
    let mut pool = pool();
    let (session, action) = asked().on_resolved(None, &mut pool);
    match action {
        ClientAction::Connect(selected, remote) => {
            assert_eq!(selected.name, "a");
            assert_eq!(remote.to_text(), "203.0.113.5:80");
        }
        _ => panic!("no attempt"),
    }
    let failure = AttemptFailure::TimedOut;
    let (session, action) = session.on_attempt_failed(&failure, &mut pool);
    match action {
        ClientAction::Connect(selected, _) => assert_eq!(selected.name, "b"),
        _ => panic!("no attempt"),
    }
    let local = SocketAddr::new(v4(192, 0, 2, 2), 50000);
    let (session, action) = session.on_connected(Some(local), None);
    match action {
        ClientAction::Write(bytes) => {
            assert_eq!(bytes, vec![5, 0, 0, 1, 192, 0, 2, 2, 0xc3, 0x50]);
        }
        _ => panic!("no reply"),
    }
    assert_eq!(pool.v4.entries[1].active_connections, 0);
    let (session, action) = session.on_announced(11, &mut pool);
    match action {
        ClientAction::Relay(opened, line) => {
            assert_eq!(opened.id, "7");
            assert_eq!(opened.protocol, ConnectionProtocol::Tcp);
            assert_eq!(opened.client, peer());
            assert_eq!(opened.target, "203.0.113.5:80");
            assert_eq!(opened.egress_name, "b");
            assert_eq!(opened.opened_at, 11);
            assert_eq!(line, "#7 CONNECT 203.0.113.5:80 via b (192.0.2.2)");
        }
        _ => panic!("no relay"),
    }
    assert_eq!(pool.v4.entries[1].active_connections, 1);
    let (session, action) =
        session.on_relayed(100, 20, "closed".to_owned(), 99, &mut pool);
    match action {
        ClientAction::Finish(line, closed) => {
            assert_eq!(line, "#7 closed: 100 bytes up, 20 bytes down (closed)");
            assert_eq!(closed.up_bytes, 100);
            assert_eq!(closed.down_bytes, 20);
            assert_eq!(closed.closed_at, 99);
        }
        _ => panic!("no end"),
    }
    assert!(matches!(session.state, ClientState::Over));
    assert_eq!(pool.v4.entries[1].active_connections, 0);
}

#[test]
fn unroutable_connect_is_answered() {
    let mut pool = WeightedPool::new(
        vec![target("six", v6(1))],
        EgressStrategy::PerDestination,
    );
    let (session, action) = asked().on_resolved(None, &mut pool);
    match action {
        ClientAction::Write(bytes) => assert_eq!(bytes, vec![5, 4, 0, 1, 0, 0, 0, 0, 0, 0]),
        _ => panic!("no reply"),
    }
    let (session, action) = session.on_io_error("broken pipe");
    assert!(matches!(session.state, ClientState::Over));
    match action {
        ClientAction::Fail(message) => assert_eq!(message, "CONNECT 203.0.113.5:80 failed"),
        _ => panic!("no failure"),
    }
}

#[test]
fn exhausted_attempts_are_answered() {
    let mut pool = pool();
    let (session, _) = asked().on_resolved(None, &mut pool);
    let failure = AttemptFailure::Refused("refused".to_owned());
    let (session, _) = session.on_attempt_failed(&failure, &mut pool);
    let (session, action) = session.on_attempt_failed(&failure, &mut pool);
    assert!(matches!(action, ClientAction::Write(ref bytes) if bytes[1] == 4));
    let (_, action) = session.on_written();
    assert!(matches!(action, ClientAction::Fail(ref text) if text == "CONNECT 203.0.113.5:80 failed"));
}

fn request(udp_enabled: bool, command: u8) -> (ClientSession, ClientAction) {
    let (session, _) = ClientSession::begin(1, peer(), udp_enabled);
    let (session, _) = session.on_bytes(&[5, 1]);
    let (session, _) = session.on_bytes(&[0]);
    let (session, _) = session.on_written();
    let (session, _) = session.on_bytes(&[5, command, 0, 3]);
    let (session, _) = session.on_bytes(&[1]);
    session.on_bytes(&[b'h', 0, 80])
}

#[test]
fn unsupported_requests_are_answered() {
    for (udp, command, message) in [
        (false, 3, "UDP ASSOCIATE disabled"),
        (true, 2, "SOCKS BIND is not supported"),
    ] {
        let (session, action) = request(udp, command);
        assert!(matches!(action, ClientAction::Write(ref bytes)
            if *bytes == vec![5, 7, 0, 1, 0, 0, 0, 0, 0, 0]));
        let (_, action) = session.on_written();
        assert!(matches!(action, ClientAction::Fail(ref text) if text == message));
    }
    let (session, _) = request(false, 2);
    let (_, action) = session.on_io_error("reset");
    assert!(matches!(action, ClientAction::Fail(ref text) if text == "reset"));
}

#[test]
fn datagram_relay_is_set_up_where_allowed() {
    let (session, action) = request(true, 3);
    assert!(matches!(action, ClientAction::Associate));
    assert!(matches!(session.state, ClientState::Associated));
}

#[test]
fn names_are_looked_up() {
    let mut pool = pool();
    let (session, action) = request(false, 1);
    match action {
        ClientAction::Resolve(Some((host, port))) => assert_eq!((host.as_str(), port), ("h", 80)),
        _ => panic!("no lookup"),
    }
    let found = vec![
        SocketAddr::new(v6(1), 80),
        SocketAddr::new(v4(198, 51, 100, 7), 80),
    ];
    let (_, action) = session.on_resolved(Some(found), &mut pool);
    match action {
        ClientAction::Connect(_, remote) => assert_eq!(remote.to_text(), "198.51.100.7:80"),
        _ => panic!("no attempt"),
    }
    let (session, _) = request(false, 1);
    let (_, action) = session.on_resolved(None, &mut pool);
    assert!(matches!(action, ClientAction::Write(ref bytes) if bytes[1] == 4));
}

#[test]
fn bad_greeting_fails() {
    let (session, _) = ClientSession::begin(1, peer(), true);
    let (_, action) = session.on_bytes(&[4, 1]);
    assert!(matches!(action, ClientAction::Fail(ref text) if text == "unsupported SOCKS version 4"));
    let (session, _) = ClientSession::begin(1, peer(), true);
    let (session, _) = session.on_bytes(&[5, 1]);
    let (session, action) = session.on_bytes(&[2]);
    assert!(matches!(action, ClientAction::Write(ref bytes) if *bytes == vec![5, 0xff]));
    let (_, action) = session.on_written();
    assert!(matches!(action, ClientAction::Fail(ref text)
        if text == "client offered no-auth unsupported methods only"));
}

#[test]
fn addresses_of_a_target() {
    let both = WeightedPool::new(
        vec![target("four", v4(192, 0, 2, 1)), target("six", v6(9))],
        EgressStrategy::PerConnection,
    );
    let name = SocksTarget::Domain("host".to_owned(), 443);
    let found = vec![
        SocketAddr::new(v6(1), 443),
        SocketAddr::new(v4(1, 1, 1, 1), 443),
        SocketAddr::new(v6(2), 443),
        SocketAddr::new(v4(2, 2, 2, 2), 443),
    ];
    let texts: Vec<String> = resolve_target(&name, Some(found), &both)
        .unwrap()
        .iter()
        .map(|addr| addr.to_text())
        .collect();
    assert_eq!(
        texts,
        vec!["1.1.1.1:443", "2.2.2.2:443", "[2001:db8::1]:443", "[2001:db8::2]:443"]
    );
    assert_eq!(
        resolve_target(&name, None, &both).unwrap_err(),
        "failed to resolve host:443"
    );
    assert_eq!(
        resolve_target(&name, Some(vec![]), &both).unwrap_err(),
        "target has no address matching the selected adapter families"
    );
}

#[test]
fn attempts_are_described() {
    let remote = SocketAddr::new(v4(203, 0, 113, 5), 80);
    let selected = target("LAN", v4(192, 0, 2, 1));
    assert_eq!(
        failure_text(remote, &selected, &AttemptFailure::Refused("no route".to_owned())),
        "failed to connect 203.0.113.5:80 via LAN (192.0.2.1): no route"
    );
    assert_eq!(
        failure_text(remote, &selected, &AttemptFailure::TimedOut),
        "timed out connecting 203.0.113.5:80 via LAN (192.0.2.1) after 5000 ms"
    );
    assert_eq!(local_endpoint(selected.ip, remote).unwrap().to_text(), "192.0.2.1:0");
    assert_eq!(
        local_endpoint(v6(1), remote).unwrap_err(),
        "egress address family does not match remote"
    );
}

#[test]
fn plans_skip_families_without_targets() {
    let mut pool = pool();
    let mut plan = ConnectPlan::new(vec![SocketAddr::new(v6(1), 80)]);
    match plan.next(&mut pool) {
        ConnectStep::GiveUp(message) => {
            assert_eq!(message, "no selected egress adapter can reach IPv6");
        }
        _ => panic!("an attempt"),
    }
    let mut empty = ConnectPlan::new(vec![]);
    match empty.next(&mut pool) {
        ConnectStep::GiveUp(message) => {
            assert_eq!(message, "target did not resolve to a usable address");
        }
        _ => panic!("an attempt"),
    }
}

#[test]
fn plans_report_the_latest_error() {
    let mut pool = pool();
    let remote = SocketAddr::new(v4(203, 0, 113, 5), 80);
    let mut plan = ConnectPlan::new(vec![remote]);
    let mut attempts = 0;
    loop {
        match plan.next(&mut pool) {
            ConnectStep::Attempt(selected, addr) => {
                attempts += 1;
                plan.failed(addr, &selected, &AttemptFailure::Refused("down".to_owned()));
            }
            ConnectStep::GiveUp(message) => {
                assert_eq!(message, "failed to connect 203.0.113.5:80 via b (192.0.2.2): down");
                break;
            }
        }
    }
    assert_eq!(attempts, 2);
}

#[test]
fn listener_numbers_its_clients() {
    let mut listener = Listener::new();
    assert!(matches!(listener.react(ListenerEvent::Accepted(peer())), ListenerAction::Serve(1, _)));
    assert!(matches!(
        listener.react(ListenerEvent::AcceptFailed("full".to_owned())),
        ListenerAction::GoOn(ref line) if line == "accept failed: full"
    ));
    assert!(matches!(listener.react(ListenerEvent::Accepted(peer())), ListenerAction::Serve(2, _)));
    assert!(matches!(
        listener.react(ListenerEvent::Cancelled),
        ListenerAction::Stop(ref line) if line == "proxy shutdown requested"
    ));
    assert_eq!(client_failed_line(3, peer(), "oops"), "#3 127.0.0.1:40000: oops");
}

#[test]
fn proxy_starts_with_an_egress_address() {
    let mut config = ProxyConfig {
        listen_ip: v4(127, 0, 0, 1),
        listen_port: 1080,
        egress: vec![],
        udp_enabled: true,
        egress_strategy: EgressStrategy::PerDestination,
    };
    assert_eq!(
        listen_endpoint(&config).unwrap_err(),
        "at least one egress adapter address must be selected"
    );
    config.egress = vec![target("LAN", v4(192, 0, 2, 1))];
    let addr = listen_endpoint(&config).unwrap();
    assert_eq!(addr.to_text(), "127.0.0.1:1080");
    assert_eq!(bind_failed_message(addr), "failed to bind SOCKS5 listener on 127.0.0.1:1080");
    let pool = WeightedPool::new(config.egress, config.egress_strategy);
    assert_eq!(
        startup_lines(addr, &pool),
        vec![
            "SOCKS5 proxy listening on 127.0.0.1:1080",
            "selected egress adapters: LAN (192.0.2.1, weight 1)",
            "egress policy: sticky per destination IP",
        ]
    );
}

#[test]
fn relay_records_every_byte_once() {
    let mut pool = pool();
    let ends = RelayEnds { remote_ip: v4(203, 0, 113, 5), egress_ip: v4(192, 0, 2, 1) };
    let mut relay = Relay::new();
    let step = relay.react(&RelayEvent::Tick, 0, 0, ends, &mut pool);
    assert!(step.end.is_none());
    relay.react(&RelayEvent::Tick, 10, 5, ends, &mut pool);
    relay.react(&RelayEvent::Tick, 10, 5, ends, &mut pool);
    let step = relay.react(&RelayEvent::UpFinished(Ok(30)), 30, 6, ends, &mut pool);
    assert_eq!(step.reports, 1);
    assert!(step.end.is_none());
    assert_eq!(pool.v4.entries[0].active_bytes, 36);
    let step = relay.react(&RelayEvent::DownFinished(Ok(8)), 30, 8, ends, &mut pool);
    assert_eq!(step.reports, 2);
    assert_eq!(step.end.as_deref(), Some("closed"));
    assert_eq!(pool.v4.entries[0].active_bytes, 38);
    assert_eq!(relay.last_recorded_total, 38);
}

#[test]
fn relay_ends_for_a_reason() {
    let mut pool = pool();
    let ends = RelayEnds { remote_ip: v4(203, 0, 113, 5), egress_ip: v4(192, 0, 2, 1) };
    let cancelled = Relay::new().react(&RelayEvent::Cancelled, 1, 1, ends, &mut pool);
    assert_eq!(cancelled.end.as_deref(), Some("cancelled"));
    assert!(cancelled.abort_up && cancelled.abort_down);
    let up = RelayEvent::UpFinished(Err("reset".to_owned()));
    let step = Relay::new().react(&up, 0, 0, ends, &mut pool);
    assert_eq!(step.end.as_deref(), Some("relay error: reset"));
    assert!(!step.abort_up && step.abort_down);
    let down = RelayEvent::DownFinished(Err("reset".to_owned()));
    let step = Relay::new().react(&down, 0, 0, ends, &mut pool);
    assert!(step.abort_up && !step.abort_down);
}

#[test]
fn directions_count_what_they_write() {
    let mut counter = CopyCounter::new();
    assert_eq!(counter.on_read(5), CopyStep::Write(5));
    assert_eq!(counter.on_written(5), 5);
    assert_eq!(counter.on_written(7), 12);
    assert_eq!(counter.on_read(0), CopyStep::Finish(12));
    assert_eq!(copy_task_result(Ok(Ok(4))), Ok(4));
    assert_eq!(copy_task_result(Ok(Err("io".to_owned()))), Err("io".to_owned()));
    assert_eq!(copy_task_result(Err("panicked".to_owned())), Err("panicked".to_owned()));
    let report = transfer_report("7", 1, 2);
    assert_eq!((report.id.as_str(), report.up_bytes, report.down_bytes), ("7", 1, 2));
}

#[test]
fn attempts_come_to_an_end() {
    let mut pool = pool();
    let addresses: Vec<SocketAddr> =
        (1..=3).map(|last| SocketAddr::new(v4(203, 0, 113, last), 80)).collect();
    let mut plan = ConnectPlan::new(addresses);
    let mut attempts = Vec::new();
    while let ConnectStep::Attempt(selected, remote) = plan.next(&mut pool) {
        plan.failed(remote, &selected, &AttemptFailure::TimedOut);
        attempts.push((remote.to_text(), selected.name));
    }
    let expected: Vec<(String, String)> = [
        ("203.0.113.1:80", "a"),
        ("203.0.113.1:80", "b"),
        ("203.0.113.2:80", "b"),
        ("203.0.113.2:80", "a"),
        ("203.0.113.3:80", "a"),
        ("203.0.113.3:80", "b"),
    ]
    .iter()
    .map(|(remote, name)| (remote.to_string(), name.to_string()))
    .collect();
    assert_eq!(attempts, expected);
}
