//! What clients and the proxy say to each other, byte by byte.

use vstd::prelude::*;

use crate::addr::{Ipv4Addr, Ipv6Addr, SocketAddr, SocketAddrV4, SocketAddrV6};
use crate::proxy::bound_endpoint;
use crate::socks::{
    advanced, frame_bytes, parsed_frame, reply_bytes, zero_endpoint, Destination, Outcome,
    SessionStage, SocksCommand, SocksError, UdpError,
};

verus! {

/// The endpoint of version 4 with the given bytes; the port is written with its upper byte first.
pub open spec fn endpoint_v4(a: u8, b: u8, c: u8, d: u8, high: u8, low: u8) -> SocketAddr {
    SocketAddr::V4(
        SocketAddrV4 { ip: Ipv4Addr { a, b, c, d }, port: (high as int * 256 + low as int) as u16 },
    )
}

/// The endpoint of version 6 whose address and port are the 18 bytes from `at` on.
pub open spec fn endpoint_v6(bytes: Seq<u8>, at: int) -> SocketAddr {
    let word = |i: int| (bytes[at + 2 * i] as int * 256 + bytes[at + 2 * i + 1] as int) as u16;
    SocketAddr::V6(
        SocketAddrV6 {
            ip: Ipv6Addr {
                s0: word(0),
                s1: word(1),
                s2: word(2),
                s3: word(3),
                s4: word(4),
                s5: word(5),
                s6: word(6),
                s7: word(7),
            },
            port: word(8),
            flowinfo: 0,
            scope_id: 0,
        },
    )
}

/// A greeting starts with the version 5 and the number of methods, and the methods are what the
/// client sends next; any other version is refused under its number.
pub proof fn law_greeting(version: u8, count: u8)
    ensures
        advanced(SessionStage::Greeting, seq![version, count]).0.len() == 0,
        version == 5 ==> advanced(SessionStage::Greeting, seq![version, count]).1 == Outcome::Read(
            SessionStage::Methods(count),
        ),
        version != 5 ==> advanced(SessionStage::Greeting, seq![version, count]).1
            == Outcome::Failed(SocksError::Version(version)),
        SessionStage::Greeting.needed() == 2,
        SessionStage::Methods(count).needed() == count,
        SessionStage::RequestHeader.needed() == 4,
        forall|command: SocksCommand|
            #[trigger] SessionStage::Ipv4(command).needed() == 6,
        forall|command: SocksCommand|
            #[trigger] SessionStage::Ipv6(command).needed() == 18,
        forall|command: SocksCommand|
            #[trigger] SessionStage::DomainLength(command).needed() == 1,
        forall|command: SocksCommand, len: u8|
            #[trigger] SessionStage::Domain(command, len).needed() == len + 2,
{
}

/// A client that offers the method 0, which goes without authentication, is answered with the
/// bytes 5 and 0 and sends its request; any other one is answered with 5 and 255 and refused. No
/// other method counts, and neither does the order of the methods.
pub proof fn law_methods(methods: Seq<u8>, count: u8)
    ensures
        (exists|i: int| 0 <= i < methods.len() && #[trigger] methods[i] == 0) ==> advanced(
            SessionStage::Methods(count),
            methods,
        ) == (seq![5u8, 0u8], Outcome::Read(SessionStage::RequestHeader)),
        (forall|i: int| 0 <= i < methods.len() ==> #[trigger] methods[i] != 0) ==> advanced(
            SessionStage::Methods(count),
            methods,
        ) == (seq![5u8, 255u8], Outcome::Failed(SocksError::NoAcceptableMethod)),
{
    if exists|i: int| 0 <= i < methods.len() && #[trigger] methods[i] == 0 {
        assert(methods.contains(0));
    }
}

/// The head of a request: the version 5, the command and the kind of address. The commands are 1
/// to connect, 2 to bind and 3 for datagrams; the kinds are 1 and 4 for addresses of version 4 and
/// 6 and 3 for host names. What is wrong first is what is reported; the third byte does not
/// matter.
pub proof fn law_request_head(version: u8, command: u8, reserved: u8, kind: u8)
    ensures
        ({
            let (reply, outcome) = advanced(
                SessionStage::RequestHeader,
                seq![version, command, reserved, kind],
            );
            let meant = if command == 1 {
                SocksCommand::Connect
            } else if command == 2 {
                SocksCommand::Bind
            } else {
                SocksCommand::UdpAssociate
            };
            &&& reply.len() == 0
            &&& version != 5 ==> outcome == Outcome::Failed(SocksError::RequestVersion(version))
            &&& version == 5 && !(1 <= command <= 3) ==> outcome == Outcome::Failed(
                SocksError::Command(command),
            )
            &&& version == 5 && 1 <= command <= 3 ==> {
                &&& kind == 1 ==> outcome == Outcome::Read(SessionStage::Ipv4(meant))
                &&& kind == 3 ==> outcome == Outcome::Read(SessionStage::DomainLength(meant))
                &&& kind == 4 ==> outcome == Outcome::Read(SessionStage::Ipv6(meant))
                &&& kind != 1 && kind != 3 && kind != 4 ==> outcome == Outcome::Failed(
                    SocksError::AddressType(kind),
                )
            }
        }),
{
}

/// The address of a request is the one whose bytes it holds, with the port behind it.
pub proof fn law_request_address(command: SocksCommand, bytes: Seq<u8>, len: u8)
    ensures
        bytes.len() == 6 ==> advanced(SessionStage::Ipv4(command), bytes) == (
            Seq::<u8>::empty(),
            Outcome::Request(
                command,
                Destination::Ip(
                    endpoint_v4(bytes[0], bytes[1], bytes[2], bytes[3], bytes[4], bytes[5]),
                ),
            ),
        ),
        bytes.len() == 18 ==> advanced(SessionStage::Ipv6(command), bytes) == (
            Seq::<u8>::empty(),
            Outcome::Request(command, Destination::Ip(endpoint_v6(bytes, 0))),
        ),
        bytes.len() == 1 ==> advanced(SessionStage::DomainLength(command), bytes) == (
            Seq::<u8>::empty(),
            Outcome::Read(SessionStage::Domain(command, bytes[0])),
        ),
        bytes.len() == len + 2 && !vstd::utf8::valid_utf8(bytes.take(len as int)) ==> advanced(
            SessionStage::Domain(command, len),
            bytes,
        ) == (Seq::<u8>::empty(), Outcome::Failed(SocksError::DomainNotUtf8)),
        bytes.len() == len + 2 && vstd::utf8::valid_utf8(bytes.take(len as int)) ==> advanced(
            SessionStage::Domain(command, len),
            bytes,
        ) == (
            Seq::<u8>::empty(),
            Outcome::Request(
                command,
                Destination::Domain(
                    vstd::utf8::decode_utf8(bytes.take(len as int)),
                    (bytes[len as int] as int * 256 + bytes[len + 1] as int) as u16,
                ),
            ),
        ),
{
    if bytes.len() == 18 {
        let head = bytes.take(16);
        assert forall|i: int| 0 <= i < 16 implies #[trigger] head[i] == bytes[i] by {}
    }
}

/// A reply is the version 5, the code, a zero, the kind of the address that is told, its bytes and
/// the port.
pub proof fn law_reply(code: u8, bound: SocketAddr)
    ensures
        bound matches SocketAddr::V4(v4) ==> reply_bytes(code, bound) == seq![
            5u8,
            code,
            0u8,
            1u8,
            v4.ip.a,
            v4.ip.b,
            v4.ip.c,
            v4.ip.d,
            (v4.port / 256) as u8,
            (v4.port % 256) as u8,
        ],
        bound matches SocketAddr::V6(v6) ==> reply_bytes(code, bound) == seq![
            5u8,
            code,
            0u8,
            4u8,
            (v6.ip.s0 / 256) as u8,
            (v6.ip.s0 % 256) as u8,
            (v6.ip.s1 / 256) as u8,
            (v6.ip.s1 % 256) as u8,
            (v6.ip.s2 / 256) as u8,
            (v6.ip.s2 % 256) as u8,
            (v6.ip.s3 / 256) as u8,
            (v6.ip.s3 % 256) as u8,
            (v6.ip.s4 / 256) as u8,
            (v6.ip.s4 % 256) as u8,
            (v6.ip.s5 / 256) as u8,
            (v6.ip.s5 % 256) as u8,
            (v6.ip.s6 / 256) as u8,
            (v6.ip.s6 % 256) as u8,
            (v6.ip.s7 / 256) as u8,
            (v6.ip.s7 % 256) as u8,
            (v6.port / 256) as u8,
            (v6.port % 256) as u8,
        ],
{
    match bound {
        SocketAddr::V4(v4) => {
            assert(reply_bytes(code, bound) =~= seq![
                5u8,
                code,
                0u8,
                1u8,
                v4.ip.a,
                v4.ip.b,
                v4.ip.c,
                v4.ip.d,
                (v4.port / 256) as u8,
                (v4.port % 256) as u8,
            ]);
        },
        SocketAddr::V6(v6) => {
            assert(reply_bytes(code, bound) =~= seq![
                5u8,
                code,
                0u8,
                4u8,
                (v6.ip.s0 / 256) as u8,
                (v6.ip.s0 % 256) as u8,
                (v6.ip.s1 / 256) as u8,
                (v6.ip.s1 % 256) as u8,
                (v6.ip.s2 / 256) as u8,
                (v6.ip.s2 % 256) as u8,
                (v6.ip.s3 / 256) as u8,
                (v6.ip.s3 % 256) as u8,
                (v6.ip.s4 / 256) as u8,
                (v6.ip.s4 % 256) as u8,
                (v6.ip.s5 / 256) as u8,
                (v6.ip.s5 % 256) as u8,
                (v6.ip.s6 / 256) as u8,
                (v6.ip.s6 % 256) as u8,
                (v6.ip.s7 / 256) as u8,
                (v6.ip.s7 % 256) as u8,
                (v6.port / 256) as u8,
                (v6.port % 256) as u8,
            ]);
        },
    }
}

/// A refusal tells no address: ten bytes for a client of version 4, which are zero but for the
/// version, the code and the kind, and 22 such bytes for a client of version 6. A success tells
/// the local end where the system knows it.
pub proof fn law_told_address(code: u8, peer: SocketAddr, local: Option<SocketAddr>)
    ensures
        peer is V4 ==> reply_bytes(code, zero_endpoint(Some(peer))) == seq![
            5u8, code, 0u8, 1u8, 0u8, 0u8, 0u8, 0u8, 0u8, 0u8,
        ],
        peer is V6 ==> reply_bytes(code, zero_endpoint(Some(peer))) == seq![
            5u8, code, 0u8, 4u8, 0u8, 0u8, 0u8, 0u8, 0u8, 0u8, 0u8, 0u8, 0u8, 0u8, 0u8, 0u8, 0u8,
            0u8, 0u8, 0u8, 0u8, 0u8,
        ],
        local is Some ==> bound_endpoint(local, Some(peer)) == local->0,
        local is None ==> bound_endpoint(local, Some(peer)) == zero_endpoint(Some(peer)),
        zero_endpoint(None) is V4,
        reply_bytes(code, bound_endpoint(None, None)) == seq![
            5u8, code, 0u8, 1u8, 0u8, 0u8, 0u8, 0u8, 0u8, 0u8,
        ],
{
    assert(reply_bytes(code, bound_endpoint(None, None)) =~= seq![
        5u8, code, 0u8, 1u8, 0u8, 0u8, 0u8, 0u8, 0u8, 0u8,
    ]);
    if peer is V4 {
        assert(reply_bytes(code, zero_endpoint(Some(peer))) =~= seq![
            5u8, code, 0u8, 1u8, 0u8, 0u8, 0u8, 0u8, 0u8, 0u8,
        ]);
    } else {
        assert(reply_bytes(code, zero_endpoint(Some(peer))) =~= seq![
            5u8, code, 0u8, 4u8, 0u8, 0u8, 0u8, 0u8, 0u8, 0u8, 0u8, 0u8, 0u8, 0u8, 0u8, 0u8, 0u8,
            0u8, 0u8, 0u8, 0u8, 0u8,
        ]);
    }
}

/// What a frame holds. It starts with two zeros and a zero for its place among fragments, followed
/// by the kind of address, the address, the port and the payload; each fault is reported where
/// nothing before it is wrong.
pub proof fn law_frame(bytes: Seq<u8>)
    ensures
        ({
            let parsed = parsed_frame(bytes);
            let end = 5 + bytes[4] as int;
            let sound = bytes.len() >= 4 && bytes[0] == 0 && bytes[1] == 0 && bytes[2] == 0;
            &&& bytes.len() < 4 ==> parsed == Err::<(Destination, int), UdpError>(
                UdpError::TooShort,
            )
            &&& bytes.len() >= 4 && (bytes[0] != 0 || bytes[1] != 0) ==> parsed == Err::<
                (Destination, int),
                UdpError,
            >(UdpError::Reserved)
            &&& bytes.len() >= 4 && bytes[0] == 0 && bytes[1] == 0 && bytes[2] != 0 ==> parsed
                == Err::<(Destination, int), UdpError>(UdpError::Fragmented)
            &&& sound && bytes[3] == 1 && bytes.len() < 10 ==> parsed == Err::<
                (Destination, int),
                UdpError,
            >(UdpError::Ipv4TooShort)
            &&& sound && bytes[3] == 1 && bytes.len() >= 10 ==> parsed == Ok::<
                (Destination, int),
                UdpError,
            >(
                (
                    Destination::Ip(
                        endpoint_v4(bytes[4], bytes[5], bytes[6], bytes[7], bytes[8], bytes[9]),
                    ),
                    10,
                ),
            )
            &&& sound && bytes[3] == 4 && bytes.len() < 22 ==> parsed == Err::<
                (Destination, int),
                UdpError,
            >(UdpError::Ipv6TooShort)
            &&& sound && bytes[3] == 4 && bytes.len() >= 22 ==> parsed == Ok::<
                (Destination, int),
                UdpError,
            >((Destination::Ip(endpoint_v6(bytes, 4)), 22))
            &&& sound && bytes[3] == 3 && bytes.len() == 4 ==> parsed == Err::<
                (Destination, int),
                UdpError,
            >(UdpError::DomainTooShort)
            &&& sound && bytes[3] == 3 && 4 < bytes.len() < end + 2 ==> parsed == Err::<
                (Destination, int),
                UdpError,
            >(UdpError::DomainLength)
            &&& sound && bytes[3] == 3 && bytes.len() >= end + 2 && !vstd::utf8::valid_utf8(
                bytes.subrange(5, end),
            ) ==> parsed == Err::<(Destination, int), UdpError>(UdpError::DomainNotUtf8)
            &&& sound && bytes[3] == 3 && bytes.len() >= end + 2 && vstd::utf8::valid_utf8(
                bytes.subrange(5, end),
            ) ==> parsed == Ok::<(Destination, int), UdpError>(
                (
                    Destination::Domain(
                        vstd::utf8::decode_utf8(bytes.subrange(5, end)),
                        (bytes[end] as int * 256 + bytes[end + 1] as int) as u16,
                    ),
                    end + 2,
                ),
            )
            &&& sound && bytes[3] != 1 && bytes[3] != 3 && bytes[3] != 4 ==> parsed == Err::<
                (Destination, int),
                UdpError,
            >(UdpError::AddressType(bytes[3]))
        }),
{
    if bytes.len() >= 22 {
        let address = bytes.subrange(4, 20);
        assert forall|i: int| 0 <= i < 16 implies #[trigger] address[i] == bytes[4 + i] by {}
    }
}

/// A frame for the client holds three zeros, the address and the port of the sender as a reply
/// does, and the payload.
pub proof fn law_built_frame(remote: SocketAddr, payload: Seq<u8>)
    ensures
        frame_bytes(remote, payload) == seq![0u8, 0u8, 0u8] + reply_bytes(0, remote).skip(3)
            + payload,
{
    assert(frame_bytes(remote, payload) =~= seq![0u8, 0u8, 0u8] + reply_bytes(0, remote).skip(3)
        + payload);
}

} // verus!
