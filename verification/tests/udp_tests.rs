use net_combiner::adapter::EgressTarget;
use net_combiner::addr::{IpAddr, Ipv4Addr, Ipv6Addr, SocketAddr};
use net_combiner::pool::{EgressStrategy, WeightedPool};
use net_combiner::proxy::{
    ConnectionClosed, ConnectionEvent, ConnectionOpened, ConnectionProtocol, ConnectionUpdated,
};
use net_combiner::monitor::{
    connection_matches_filter, ConnectionMonitor, ConnectionMonitorFilter, ConnectionRow,
    MAX_CONNECTION_ROWS,
};
use net_combiner::socks::{build_udp_packet, SocksTarget};
use net_combiner::udp::{
    association_closed_line, bind_failed_line, client_send_failed_line, control_failed_line,
    listening_line, receive_failed_line, send_failed_line, Received, Route, UdpAssociation,
};

fn v4(a: u8, b: u8, c: u8, d: u8) -> IpAddr {
    IpAddr::V4(Ipv4Addr::new(a, b, c, d))
}

fn endpoint(last: u8, port: u16) -> SocketAddr {
    SocketAddr::new(v4(203, 0, 113, last), port)
}

fn target(name: &str, last: u8) -> EgressTarget {
    EgressTarget { name: name.to_owned(), ip: v4(192, 0, 2, last), weight: 1 }
}

fn pool() -> WeightedPool {
    WeightedPool::new(vec![target("a", 1), target("b", 2)], EgressStrategy::PerDestination)
}

#[test]
fn first_sender_is_the_client() {
    let mut association = UdpAssociation::new(4);
    let client = SocketAddr::new(v4(127, 0, 0, 1), 5000);
    let frame = build_udp_packet(endpoint(9, 53), b"query");
    match association.receive(client, &frame) {
        Received::Packet(packet) => {
            assert_eq!(packet.target, SocksTarget::Ip(endpoint(9, 53)));
            assert_eq!(packet.payload, b"query");
        }
        _ => panic!("no packet"),
    }
    let other_port = SocketAddr::new(v4(127, 0, 0, 1), 5001);
    assert!(association.udp_sender_allowed(other_port));
    assert_eq!(association.client, Some(client));
    assert!(matches!(association.receive(endpoint(1, 5000), &frame), Received::Ignored));
    match association.receive(client, &[0, 0, 1, 1]) {
        Received::Invalid(line) => {
            assert_eq!(line, "#4 invalid UDP packet: fragmented UDP packets are not supported");
        }
        _ => panic!("accepted"),
    }
}

#[test]
fn foreign_sender_cannot_take_over() {
    let mut association = UdpAssociation::new(4);
    assert!(association.udp_sender_allowed(endpoint(1, 1)));
    assert!(!association.udp_sender_allowed(endpoint(2, 1)));
    assert_eq!(association.client, Some(endpoint(1, 1)));
}

#[test]
fn flow_is_opened_counted_and_closed() {
    let mut pool = pool();
    let mut association = UdpAssociation::new(4);
    let client = SocketAddr::new(v4(127, 0, 0, 1), 5000);
    assert!(association.udp_sender_allowed(client));
    let remote = endpoint(9, 53);
    let (bound, mut plan) = match association.route(&SocksTarget::Ip(remote), None, &mut pool) {
        Route::Bind(bound, plan) => (bound, plan),
        _ => panic!("no new flow"),
    };
    assert_eq!(bound, remote);
    let first = plan.next().expect("a target");
    assert_eq!(
        bind_failed_line(4, &first, "in use"),
        "#4 failed to bind UDP via a (192.0.2.1): in use"
    );
    let second = plan.next().expect("a target");
    assert_eq!(second.name, "b");
    assert!(plan.next().is_none());
    assert!(pool.may_open(remote.ip(), second.ip));
    let opened = association.open_flow(client, remote, &second, 77, &mut pool);
    assert_eq!(opened.line, "#4 UDP 203.0.113.9:53 via b (192.0.2.2)");
    assert_eq!(opened.opened.id, "4/udp/203.0.113.9:53");
    assert_eq!(opened.opened.protocol, ConnectionProtocol::Udp);
    assert_eq!(opened.opened.client, client);
    assert_eq!(opened.opened.opened_at, 77);
    assert!(matches!(
        association.route(&SocksTarget::Ip(remote), None, &mut pool),
        Route::Flow(0)
    ));
    assert_eq!(association.flow_to(remote), Some(0));
    assert_eq!(association.flow_to(endpoint(9, 54)), None);
    assert!(association.may_count(0, 30));
    let report = association.sent(0, 30, &mut pool);
    assert_eq!((report.up_bytes, report.down_bytes), (30, 0));
    let report = association.delivered(0, 12, &mut pool);
    assert_eq!((report.up_bytes, report.down_bytes), (30, 12));
    assert!(!association.may_count(0, u64::MAX));
    assert_eq!(pool.v4.entries[1].active_bytes, 42);
    let closed = association.close_all(99, &mut pool);
    assert_eq!(closed.len(), 1);
    assert_eq!(closed[0].id, "4/udp/203.0.113.9:53");
    assert_eq!(closed[0].reason, "UDP association closed");
    assert_eq!((closed[0].up_bytes, closed[0].down_bytes, closed[0].closed_at), (30, 12, 99));
    assert_eq!(pool.v4.entries[1].active_bytes, 0);
    assert_eq!(pool.v4.entries[1].active_connections, 0);
    assert!(association.flows.is_empty());
}

#[test]
fn association_leaves_no_load() {
    let mut pool = pool();
    let held = v4(203, 0, 113, 7);
    pool.record_open(held, v4(192, 0, 2, 1));
    pool.record_transfer(held, v4(192, 0, 2, 1), 1_000);
    let client = SocketAddr::new(v4(127, 0, 0, 1), 5000);
    let mut association = UdpAssociation::new(4);
    assert!(association.udp_sender_allowed(client));
    association.open_flow(client, endpoint(9, 53), &target("b", 2), 1, &mut pool);
    association.open_flow(client, endpoint(9, 54), &target("b", 2), 2, &mut pool);
    association.open_flow(client, endpoint(8, 53), &target("a", 1), 3, &mut pool);
    association.sent(1, 30, &mut pool);
    association.delivered(2, 12, &mut pool);
    association.sent(0, 5, &mut pool);
    assert_eq!(pool.v4.entries[0].active_connections, 2);
    assert_eq!(pool.v4.entries[0].active_bytes, 1_012);
    assert_eq!(pool.v4.entries[1].active_connections, 2);
    assert_eq!(pool.v4.entries[1].active_bytes, 35);
    assert_eq!(pool.v4.destination_refs.get(&v4(203, 0, 113, 9)), Some(2));

    assert_eq!(association.close_all(9, &mut pool).len(), 3);
    assert_eq!(pool.v4.entries[0].active_connections, 1);
    assert_eq!(pool.v4.entries[0].active_bytes, 1_000);
    assert_eq!(pool.v4.entries[1].active_connections, 0);
    assert_eq!(pool.v4.entries[1].active_bytes, 0);
    assert_eq!(pool.v4.destination_refs.get(&v4(203, 0, 113, 9)), None);
    assert_eq!(pool.v4.destination_refs.get(&v4(203, 0, 113, 8)), None);
    assert_eq!(pool.v4.destination_map.get(&held), Some(0));
}

#[test]
fn unresolved_datagrams_are_dropped() {
    let mut pool = pool();
    let association = UdpAssociation::new(4);
    let name = SocksTarget::Domain("host".to_owned(), 53);
    match association.route(&name, None, &mut pool) {
        Route::Unresolved(line) => {
            assert_eq!(line, "#4 UDP resolve failed: failed to resolve host:53");
        }
        _ => panic!("routed"),
    }
    let six = SocketAddr::new(IpAddr::V6(Ipv6Addr::new(1, 0, 0, 0, 0, 0, 0, 1)), 53);
    match association.route(&name, Some(vec![six]), &mut pool) {
        Route::Unresolved(line) => assert_eq!(
            line,
            "#4 UDP resolve failed: target has no address matching the selected adapter families"
        ),
        _ => panic!("routed"),
    }
    match association.route(&name, Some(vec![six, endpoint(3, 53), endpoint(2, 53)]), &mut pool) {
        Route::Bind(remote, _) => assert_eq!(remote, endpoint(3, 53)),
        _ => panic!("not routed"),
    }
}

#[test]
fn answers_go_to_the_client() {
    let mut association = UdpAssociation::new(4);
    assert!(association.respond(endpoint(9, 53), b"x").is_none());
    let client = SocketAddr::new(v4(127, 0, 0, 1), 5000);
    association.udp_sender_allowed(client);
    let (to, frame) = association.respond(endpoint(9, 53), b"x").expect("an answer");
    assert_eq!(to, client);
    assert_eq!(frame, vec![0, 0, 0, 1, 203, 0, 113, 9, 0, 53, b'x']);
}

#[test]
fn datagram_relay_lines() {
    let relay = endpoint(1, 9);
    let peer = endpoint(2, 8);
    assert_eq!(
        listening_line(3, relay, peer),
        "#3 UDP relay listening on 203.0.113.1:9 for 203.0.113.2:8"
    );
    assert_eq!(control_failed_line(3, "reset"), "#3 UDP control connection error: reset");
    assert_eq!(association_closed_line(3), "#3 UDP association closed");
    assert_eq!(send_failed_line(3, relay, "e"), "#3 UDP send to 203.0.113.1:9 failed: e");
    assert_eq!(receive_failed_line(3, relay, "e"), "#3 UDP receive from 203.0.113.1:9 failed: e");
    assert_eq!(client_send_failed_line(3, "e"), "#3 UDP send to client failed: e");
}

fn opened(id: &str, at: u64) -> ConnectionEvent {
    ConnectionEvent::Opened(ConnectionOpened {
        id: id.to_owned(),
        protocol: ConnectionProtocol::Tcp,
        client: endpoint(1, 1),
        target: format!("target of {id}"),
        egress_name: "a".to_owned(),
        egress_ip: v4(192, 0, 2, 1),
        opened_at: at,
    })
}

fn closed(id: &str, at: u64) -> ConnectionEvent {
    ConnectionEvent::Closed(ConnectionClosed {
        id: id.to_owned(),
        up_bytes: 5,
        down_bytes: 6,
        reason: "closed".to_owned(),
        closed_at: at,
    })
}

fn ids(monitor: &ConnectionMonitor) -> Vec<String> {
    monitor.rows.iter().map(|row| row.id.clone()).collect()
}

#[test]
fn newest_connection_comes_first() {
    let mut monitor = ConnectionMonitor::new();
    monitor.apply_connection_event(opened("1", 10));
    monitor.apply_connection_event(opened("2", 20));
    assert_eq!(ids(&monitor), vec!["2", "1"]);
    monitor.apply_connection_event(opened("1", 30));
    assert_eq!(ids(&monitor), vec!["1", "2"]);
    assert_eq!(monitor.rows[0].opened_at, 30);
    assert_eq!(monitor.rows[0].client, "203.0.113.1:1");
    assert_eq!(monitor.rows[0].target, "target of 1");
}

#[test]
fn reports_and_ends_change_their_row() {
    let mut monitor = ConnectionMonitor::new();
    monitor.apply_connection_event(opened("1", 10));
    monitor.apply_connection_event(opened("2", 20));
    monitor.apply_connection_event(ConnectionEvent::Updated(ConnectionUpdated {
        id: "1".to_owned(),
        up_bytes: 3,
        down_bytes: 4,
    }));
    assert_eq!((monitor.rows[1].up_bytes, monitor.rows[1].down_bytes), (3, 4));
    assert_eq!(monitor.rows[0].up_bytes, 0);
    monitor.apply_connection_event(closed("1", 50));
    monitor.apply_connection_event(closed("unknown", 50));
    assert_eq!(monitor.rows[1].closed_at, Some(50));
    assert_eq!(monitor.rows[1].reason, "closed");
    assert_eq!((monitor.rows[1].up_bytes, monitor.rows[1].down_bytes), (5, 6));
    assert_eq!(monitor.active_connection_count(), 1);
    assert_eq!(monitor.recent_connection_count(), 1);
    assert_eq!(monitor.connection_count_for(ConnectionMonitorFilter::All), 2);
}

#[test]
fn end_of_the_proxy_closes_all_rows() {
    let mut monitor = ConnectionMonitor::new();
    monitor.apply_connection_event(opened("1", 10));
    monitor.apply_connection_event(opened("2", 20));
    monitor.apply_connection_event(closed("1", 25));
    monitor.mark_active_connections_closed("proxy stopped", 60);
    assert_eq!(monitor.active_connection_count(), 0);
    assert_eq!(monitor.rows[0].reason, "proxy stopped");
    assert_eq!(monitor.rows[0].closed_at, Some(60));
    assert_eq!(monitor.rows[1].closed_at, Some(25));
}

#[test]
fn rows_can_be_cleared() {
    let mut monitor = ConnectionMonitor::new();
    for id in ["1", "2", "3", "4"] {
        monitor.apply_connection_event(opened(id, 1));
    }
    monitor.apply_connection_event(closed("4", 2));
    monitor.apply_connection_event(closed("2", 2));
    monitor.clear_recent();
    assert_eq!(ids(&monitor), vec!["3", "1"]);
    monitor.clear_all();
    assert!(monitor.rows.is_empty());
}

#[test]
fn oldest_rows_are_dropped() {
    let mut monitor = ConnectionMonitor::new();
    for i in 0..MAX_CONNECTION_ROWS + 5 {
        monitor.rows.push_back(row(&format!("{i}")));
    }
    monitor.prune_connections();
    assert_eq!(monitor.rows.len(), 5_000);
    monitor.apply_connection_event(opened("new", 3));
    assert_eq!(monitor.rows.len(), 5_000);
    assert_eq!(monitor.rows[0].id, "new");
    assert_eq!(monitor.rows[4_999].id, "4998");
}

fn row(id: &str) -> ConnectionRow {
    match opened(id, 1) {
        ConnectionEvent::Opened(opened) => ConnectionRow::from_opened(opened),
        _ => unreachable!(),
    }
}

#[test]
fn filters_let_rows_through() {
    let mut item = row("1");
    assert!(connection_matches_filter(&item, ConnectionMonitorFilter::Active));
    assert!(!connection_matches_filter(&item, ConnectionMonitorFilter::Recent));
    item.closed_at = Some(2);
    assert!(!connection_matches_filter(&item, ConnectionMonitorFilter::Active));
    assert!(connection_matches_filter(&item, ConnectionMonitorFilter::Recent));
    assert!(connection_matches_filter(&item, ConnectionMonitorFilter::All));
}

#[test]
fn ended_connections_are_not_active() {
    let mut monitor = ConnectionMonitor::new();
    for id in ["4/udp/1.1.1.1:53", "4/udp/1.1.1.1:54", "5"] {
        monitor.apply_connection_event(opened(id, 1));
    }
    monitor.apply_connection_event(closed("4/udp/1.1.1.1:53", 7));
    monitor.apply_connection_event(closed("4/udp/1.1.1.1:54", 8));
    let active: Vec<&str> = monitor
        .rows
        .iter()
        .filter(|row| row.closed_at.is_none())
        .map(|row| row.id.as_str())
        .collect();
    assert_eq!(active, vec!["5"]);
}
