use net_combiner::addr::{IpAddr, Ipv4Addr, Ipv6Addr, SocketAddr};
use net_combiner::socks::{
    advance, build_udp_packet, family_name, offers_no_authentication, parse_udp_packet,
    relay_bind_addr, udp_flow_id, write_reply, zero_socket_addr_for, SessionOutcome, SessionStage,
    SocksCommand, SocksError, SocksTarget, UdpError,
};

fn v4(a: u8, b: u8, c: u8, d: u8) -> IpAddr {
    IpAddr::V4(Ipv4Addr::new(a, b, c, d))
}

fn v6(last: u16) -> IpAddr {
    IpAddr::V6(Ipv6Addr::new(0x2001, 0xdb8, 0, 0, 0, 0, 0, last))
}

fn outcome(stage: SessionStage, bytes: &[u8]) -> SessionOutcome {
    assert_eq!(stage.bytes_needed(), bytes.len());
    advance(stage, bytes).outcome
}

#[test]
fn parses_udp_domain_packet() {
    let mut packet = vec![0, 0, 0, 0x03, 11];
    packet.extend_from_slice(b"example.com");
    packet.extend_from_slice(&443_u16.to_be_bytes());
    packet.extend_from_slice(b"payload");

    let parsed = parse_udp_packet(&packet).expect("valid UDP packet");

    assert_eq!(
        parsed.target,
        SocksTarget::Domain("example.com".to_owned(), 443)
    );
    assert_eq!(parsed.payload, b"payload");
}

#[test]
fn frames_are_read_back() {
    for remote in [
        SocketAddr::new(v4(203, 0, 113, 9), 5353),
        SocketAddr::new(v6(0xbeef), 65535),
    ] {
        let frame = build_udp_packet(remote, b"hello");
        let parsed = parse_udp_packet(&frame).expect("a frame");
        assert_eq!(parsed.target, SocksTarget::Ip(remote));
        assert_eq!(parsed.payload, b"hello");
    }
    let frame = build_udp_packet(SocketAddr::new(v4(1, 2, 3, 4), 0x0102), &[9]);
    assert_eq!(frame, vec![0, 0, 0, 1, 1, 2, 3, 4, 1, 2, 9]);
}

#[test]
fn faulty_frames_are_refused() {
    let cases: Vec<(Vec<u8>, UdpError)> = vec![
        (vec![0, 0, 0], UdpError::TooShort),
        (vec![1, 0, 0, 1], UdpError::Reserved),
        (vec![0, 1, 0, 1], UdpError::Reserved),
        (vec![0, 0, 1, 1], UdpError::Fragmented),
        (vec![0, 0, 0, 1, 1, 2, 3, 4, 0], UdpError::Ipv4TooShort),
        (vec![0, 0, 0, 3], UdpError::DomainTooShort),
        (vec![0, 0, 0, 3, 2, b'a', b'b', 0], UdpError::DomainLength),
        (vec![0, 0, 0, 3, 1, 0xff, 0, 80], UdpError::DomainNotUtf8),
        (vec![0; 4 + 17].iter().enumerate().map(|(i, _)| if i == 3 { 4 } else { 0 }).collect(),
            UdpError::Ipv6TooShort),
        (vec![0, 0, 0, 9], UdpError::AddressType(9)),
    ];
    for (bytes, error) in cases {
        match parse_udp_packet(&bytes) {
            Ok(_) => panic!("accepted"),
            Err(found) => assert_eq!(found, error),
        }
    }
}

#[test]
fn frame_errors_have_messages() {
    assert_eq!(UdpError::TooShort.message(), "packet is too short");
    assert_eq!(UdpError::Reserved.message(), "reserved bytes are invalid");
    assert_eq!(UdpError::Fragmented.message(), "fragmented UDP packets are not supported");
    assert_eq!(UdpError::Ipv4TooShort.message(), "IPv4 UDP header is too short");
    assert_eq!(UdpError::DomainTooShort.message(), "domain UDP header is too short");
    assert_eq!(UdpError::DomainLength.message(), "domain UDP header length is invalid");
    assert_eq!(UdpError::DomainNotUtf8.message(), "UDP domain is not valid UTF-8");
    assert_eq!(UdpError::Ipv6TooShort.message(), "IPv6 UDP header is too short");
    assert_eq!(UdpError::AddressType(9).message(), "unsupported UDP address type 9");
}

#[test]
fn empty_domain_and_empty_payload_are_frames() {
    let parsed = parse_udp_packet(&[0, 0, 0, 3, 0, 0, 53]).expect("a frame");
    assert_eq!(parsed.target, SocksTarget::Domain(String::new(), 53));
    assert!(parsed.payload.is_empty());
}

#[test]
fn greeting_is_judged() {
    assert!(matches!(
        outcome(SessionStage::Greeting, &[5, 2]),
        SessionOutcome::Read(SessionStage::Methods(2))
    ));
    assert!(matches!(
        outcome(SessionStage::Greeting, &[4, 1]),
        SessionOutcome::Failed(SocksError::Version(4))
    ));
    let accepted = advance(SessionStage::Methods(2), &[2, 0]);
    assert_eq!(accepted.reply, vec![5, 0]);
    assert!(matches!(accepted.outcome, SessionOutcome::Read(SessionStage::RequestHeader)));
    let refused = advance(SessionStage::Methods(1), &[2]);
    assert_eq!(refused.reply, vec![5, 0xff]);
    assert!(matches!(
        refused.outcome,
        SessionOutcome::Failed(SocksError::NoAcceptableMethod)
    ));
    let nothing = advance(SessionStage::Methods(0), &[]);
    assert_eq!(nothing.reply, vec![5, 0xff]);
    assert!(!offers_no_authentication(&[1, 2]));
}

#[test]
fn request_header_is_judged() {
    assert!(matches!(
        outcome(SessionStage::RequestHeader, &[5, 1, 0, 1]),
        SessionOutcome::Read(SessionStage::Ipv4(SocksCommand::Connect))
    ));
    assert!(matches!(
        outcome(SessionStage::RequestHeader, &[5, 2, 7, 3]),
        SessionOutcome::Read(SessionStage::DomainLength(SocksCommand::Bind))
    ));
    assert!(matches!(
        outcome(SessionStage::RequestHeader, &[5, 3, 0, 4]),
        SessionOutcome::Read(SessionStage::Ipv6(SocksCommand::UdpAssociate))
    ));
    assert!(matches!(
        outcome(SessionStage::RequestHeader, &[6, 9, 0, 9]),
        SessionOutcome::Failed(SocksError::RequestVersion(6))
    ));
    assert!(matches!(
        outcome(SessionStage::RequestHeader, &[5, 9, 0, 9]),
        SessionOutcome::Failed(SocksError::Command(9))
    ));
    assert!(matches!(
        outcome(SessionStage::RequestHeader, &[5, 1, 0, 2]),
        SessionOutcome::Failed(SocksError::AddressType(2))
    ));
}

#[test]
fn targets_are_read() {
    match outcome(SessionStage::Ipv4(SocksCommand::Connect), &[93, 184, 216, 34, 1, 187]) {
        SessionOutcome::Request(request) => {
            assert_eq!(request.command, SocksCommand::Connect);
            assert_eq!(request.target.to_text(), "93.184.216.34:443");
        }
        _ => panic!("no request"),
    }
    assert!(matches!(
        outcome(SessionStage::DomainLength(SocksCommand::Connect), &[4]),
        SessionOutcome::Read(SessionStage::Domain(SocksCommand::Connect, 4))
    ));
    match outcome(SessionStage::Domain(SocksCommand::Connect, 4), b"host\x00\x50") {
        SessionOutcome::Request(request) => assert_eq!(request.target.to_text(), "host:80"),
        _ => panic!("no request"),
    }
    assert!(matches!(
        outcome(SessionStage::Domain(SocksCommand::Connect, 1), &[0xc0, 0, 80]),
        SessionOutcome::Failed(SocksError::DomainNotUtf8)
    ));
    let mut bytes = vec![0x20, 0x01, 0x0d, 0xb8, 0, 0, 0, 0, 0, 0, 0, 0, 0, 0, 0, 1];
    bytes.extend_from_slice(&[0, 53]);
    match outcome(SessionStage::Ipv6(SocksCommand::UdpAssociate), &bytes) {
        SessionOutcome::Request(request) => {
            assert_eq!(request.target.to_text(), "[2001:db8::1]:53");
        }
        _ => panic!("no request"),
    }
}

#[test]
fn session_errors_have_messages() {
    assert_eq!(SocksError::Version(4).message(), "unsupported SOCKS version 4");
    assert_eq!(
        SocksError::NoAcceptableMethod.message(),
        "client offered no-auth unsupported methods only"
    );
    assert_eq!(SocksError::RequestVersion(6).message(), "unsupported request version 6");
    assert_eq!(SocksError::Command(9).message(), "unsupported SOCKS command 9");
    assert_eq!(SocksError::AddressType(2).message(), "unsupported address type 2");
    assert_eq!(SocksError::DomainNotUtf8.message(), "domain is not valid UTF-8");
}

#[test]
fn replies_hold_code_and_address() {
    assert_eq!(
        write_reply(4, SocketAddr::new(v4(1, 2, 3, 4), 0x1f90)),
        vec![5, 4, 0, 1, 1, 2, 3, 4, 0x1f, 0x90]
    );
    let six = write_reply(0, SocketAddr::new(v6(0x1234), 1));
    assert_eq!(six.len(), 22);
    assert_eq!(&six[..6], &[5, 0, 0, 4, 0x20, 0x01]);
    assert_eq!(&six[18..], &[0x12, 0x34, 0, 1]);
    assert_ne!(
        write_reply(0, SocketAddr::new(v4(0, 0, 0, 0), 1)),
        write_reply(0, SocketAddr::new(v4(0, 0, 0, 0), 2))
    );
}

#[test]
fn zero_endpoint_follows_the_family() {
    assert_eq!(zero_socket_addr_for(None).to_text(), "0.0.0.0:0");
    let four = SocketAddr::new(v4(1, 2, 3, 4), 9);
    let six = SocketAddr::new(v6(1), 9);
    assert_eq!(zero_socket_addr_for(Some(four)).to_text(), "0.0.0.0:0");
    assert_eq!(zero_socket_addr_for(Some(six)).to_text(), "[::]:0");
    assert_eq!(relay_bind_addr(v4(0, 0, 0, 0), six).to_text(), "[::]:0");
    assert_eq!(relay_bind_addr(v4(127, 0, 0, 1), six).to_text(), "127.0.0.1:0");
    assert_eq!(family_name(v4(1, 1, 1, 1)), "IPv4");
    assert_eq!(family_name(v6(1)), "IPv6");
    assert_eq!(udp_flow_id(12, four), "12/udp/1.2.3.4:9");
}

#[test]
fn identities_tell_connections_apart() {
    let remotes = [
        SocketAddr::new(v4(1, 2, 3, 4), 9),
        SocketAddr::new(v4(1, 2, 3, 4), 90),
        SocketAddr::new(v6(4), 9),
    ];
    let mut identities: Vec<String> = vec!["1".to_owned(), "12".to_owned()];
    for id in [1, 12] {
        for remote in remotes {
            identities.push(udp_flow_id(id, remote));
        }
    }
    for (i, left) in identities.iter().enumerate() {
        for (j, right) in identities.iter().enumerate() {
            assert_eq!(left == right, i == j);
        }
    }
}
