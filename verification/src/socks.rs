//! The SOCKS5 protocol: greeting, request, replies and the frames of relayed datagrams.

use vstd::prelude::*;

use crate::addr::{
    be_bytes, from_bytes, high_byte, high_of, join_bytes, low_byte, low_of, push_socket,
    socket_text, IpAddr, Ipv4Addr, Ipv6Addr, SocketAddr,
};
use crate::text::{decimal, push_decimal};

verus! {

/// The error of `String::from_utf8`.
#[verifier::external_type_specification]
#[verifier::external_body]
pub struct ExFromUtf8Error(std::string::FromUtf8Error);

/// `String::from_utf8`: the text that the bytes encode, or an error where they are not UTF-8.
pub assume_specification[ String::from_utf8 ](vec: Vec<u8>) -> (result: Result<
    String,
    std::string::FromUtf8Error,
>)
    ensures
        result is Ok <==> vstd::utf8::valid_utf8(vec@),
        result matches Ok(text) ==> text@ == vstd::utf8::decode_utf8(vec@),
;

#[derive(Debug, Clone, Copy, PartialEq, Eq, Structural)]
pub enum SocksCommand {
    Connect,
    Bind,
    UdpAssociate,
}

/// Where a client wants to get to.
#[derive(Debug, PartialEq, Eq)]
pub enum SocksTarget {
    Ip(SocketAddr),
    Domain(String, u16),
}

/// What a target stands for.
pub enum Destination {
    Ip(SocketAddr),
    Domain(Seq<char>, u16),
}

impl View for SocksTarget {
    type V = Destination;

    open spec fn view(&self) -> Destination {
        match self {
            SocksTarget::Ip(addr) => Destination::Ip(*addr),
            SocksTarget::Domain(host, port) => Destination::Domain(host@, *port),
        }
    }
}

/// The text of a destination: the endpoint, or the host and the port with a colon between them.
pub open spec fn destination_text(target: Destination) -> Seq<char> {
    match target {
        Destination::Ip(addr) => socket_text(addr),
        Destination::Domain(host, port) => host + ":"@ + decimal(port as nat),
    }
}

impl SocksTarget {
    pub fn to_text(&self) -> (text: String)
        ensures
            text@ == destination_text(self@),
    {
        match self {
            SocksTarget::Ip(addr) => addr.to_text(),
            SocksTarget::Domain(host, port) => {
                let mut text: String = host.clone();
                text.append(":");
                push_decimal(&mut text, *port as u64);
                text
            },
        }
    }
}

#[derive(Debug)]
pub struct SocksRequest {
    pub command: SocksCommand,
    pub target: SocksTarget,
}

/// Why a greeting or a request is refused.
#[derive(Debug, Clone, Copy, PartialEq, Eq, Structural)]
pub enum SocksError {
    Version(u8),
    NoAcceptableMethod,
    RequestVersion(u8),
    Command(u8),
    AddressType(u8),
    DomainNotUtf8,
}

impl SocksError {
    pub open spec fn words(self) -> Seq<char> {
        match self {
            SocksError::Version(version) => "unsupported SOCKS version "@ + decimal(
                version as nat,
            ),
            SocksError::NoAcceptableMethod =>
                "client offered no-auth unsupported methods only"@,
            SocksError::RequestVersion(version) => "unsupported request version "@ + decimal(
                version as nat,
            ),
            SocksError::Command(command) => "unsupported SOCKS command "@ + decimal(
                command as nat,
            ),
            SocksError::AddressType(kind) => "unsupported address type "@ + decimal(kind as nat),
            SocksError::DomainNotUtf8 => "domain is not valid UTF-8"@,
        }
    }

    pub fn message(self) -> (message: String)
        ensures
            message@ == self.words(),
    {
        match self {
            SocksError::Version(version) => numbered("unsupported SOCKS version ", version),
            SocksError::NoAcceptableMethod =>
                "client offered no-auth unsupported methods only".to_owned(),
            SocksError::RequestVersion(version) => numbered(
                "unsupported request version ",
                version,
            ),
            SocksError::Command(command) => numbered("unsupported SOCKS command ", command),
            SocksError::AddressType(kind) => numbered("unsupported address type ", kind),
            SocksError::DomainNotUtf8 => "domain is not valid UTF-8".to_owned(),
        }
    }
}

fn numbered(words: &str, number: u8) -> (text: String)
    ensures
        text@ == words@ + decimal(number as nat),
{
    let mut text: String = words.to_owned();
    push_decimal(&mut text, number as u64);
    text
}

// ---------------------------------------------------------------------
// Greeting and request
// ---------------------------------------------------------------------

/// What a client is expected to send next.
#[derive(Debug, Clone, Copy, PartialEq, Eq, Structural)]
pub enum SessionStage {
    /// The version and the number of methods.
    Greeting,
    /// That many methods.
    Methods(u8),
    /// The version, the command, a reserved byte and the kind of address.
    RequestHeader,
    /// Four bytes of address and the port.
    Ipv4(SocksCommand),
    /// The length of a host name.
    DomainLength(SocksCommand),
    /// A host name of that length and the port.
    Domain(SocksCommand, u8),
    /// Sixteen bytes of address and the port.
    Ipv6(SocksCommand),
}

impl SessionStage {
    /// How many bytes the client is to send.
    pub open spec fn needed(self) -> nat {
        match self {
            SessionStage::Greeting => 2,
            SessionStage::Methods(count) => count as nat,
            SessionStage::RequestHeader => 4,
            SessionStage::Ipv4(_) => 6,
            SessionStage::DomainLength(_) => 1,
            SessionStage::Domain(_, len) => len as nat + 2,
            SessionStage::Ipv6(_) => 18,
        }
    }

    /// How many stages may follow.
    pub open spec fn rank(self) -> nat {
        match self {
            SessionStage::Greeting => 4,
            SessionStage::Methods(_) => 3,
            SessionStage::RequestHeader => 2,
            SessionStage::DomainLength(_) => 1,
            _ => 0,
        }
    }

    pub fn bytes_needed(self) -> (count: usize)
        ensures
            count == self.needed(),
    {
        match self {
            SessionStage::Greeting => 2,
            SessionStage::Methods(count) => count as usize,
            SessionStage::RequestHeader => 4,
            SessionStage::Ipv4(_) => 6,
            SessionStage::DomainLength(_) => 1,
            SessionStage::Domain(_, len) => len as usize + 2,
            SessionStage::Ipv6(_) => 18,
        }
    }
}

/// What follows from what the client sent.
#[derive(Debug)]
pub enum SessionOutcome {
    Read(SessionStage),
    Request(SocksRequest),
    Failed(SocksError),
}

/// What an outcome stands for.
pub enum Outcome {
    Read(SessionStage),
    Request(SocksCommand, Destination),
    Failed(SocksError),
}

impl View for SessionOutcome {
    type V = Outcome;

    open spec fn view(&self) -> Outcome {
        match self {
            SessionOutcome::Read(stage) => Outcome::Read(*stage),
            SessionOutcome::Request(request) => Outcome::Request(
                request.command,
                request.target@,
            ),
            SessionOutcome::Failed(error) => Outcome::Failed(*error),
        }
    }
}

/// What is sent to the client, and what follows once it is sent.
#[derive(Debug)]
pub struct SessionStep {
    pub reply: Vec<u8>,
    pub outcome: SessionOutcome,
}

/// The command for its number.
pub open spec fn command_of(number: u8) -> Option<SocksCommand> {
    if number == 1 {
        Some(SocksCommand::Connect)
    } else if number == 2 {
        Some(SocksCommand::Bind)
    } else if number == 3 {
        Some(SocksCommand::UdpAssociate)
    } else {
        None
    }
}

/// The stage that reads an address of the given kind.
pub open spec fn address_stage(command: SocksCommand, kind: u8) -> Option<SessionStage> {
    if kind == 1 {
        Some(SessionStage::Ipv4(command))
    } else if kind == 3 {
        Some(SessionStage::DomainLength(command))
    } else if kind == 4 {
        Some(SessionStage::Ipv6(command))
    } else {
        None
    }
}

/// The port at the end of a request.
pub open spec fn last_port(bytes: Seq<u8>) -> u16 {
    from_bytes(bytes[bytes.len() - 2], bytes[bytes.len() - 1])
}

/// What is sent and what follows when the client has sent what the stage needs.
pub open spec fn advanced(stage: SessionStage, bytes: Seq<u8>) -> (Seq<u8>, Outcome) {
    match stage {
        SessionStage::Greeting => (
            Seq::empty(),
            if bytes[0] == 5 {
                Outcome::Read(SessionStage::Methods(bytes[1]))
            } else {
                Outcome::Failed(SocksError::Version(bytes[0]))
            },
        ),
        SessionStage::Methods(_) => if bytes.contains(0) {
            (seq![5u8, 0u8], Outcome::Read(SessionStage::RequestHeader))
        } else {
            (seq![5u8, 0xffu8], Outcome::Failed(SocksError::NoAcceptableMethod))
        },
        SessionStage::RequestHeader => (
            Seq::empty(),
            if bytes[0] != 5 {
                Outcome::Failed(SocksError::RequestVersion(bytes[0]))
            } else {
                match command_of(bytes[1]) {
                    None => Outcome::Failed(SocksError::Command(bytes[1])),
                    Some(command) => match address_stage(command, bytes[3]) {
                        None => Outcome::Failed(SocksError::AddressType(bytes[3])),
                        Some(next) => Outcome::Read(next),
                    },
                }
            },
        ),
        SessionStage::Ipv4(command) => (
            Seq::empty(),
            Outcome::Request(
                command,
                Destination::Ip(
                    SocketAddr::at(
                        IpAddr::V4(
                            Ipv4Addr { a: bytes[0], b: bytes[1], c: bytes[2], d: bytes[3] },
                        ),
                        last_port(bytes),
                    ),
                ),
            ),
        ),
        SessionStage::DomainLength(command) => (
            Seq::empty(),
            Outcome::Read(SessionStage::Domain(command, bytes[0])),
        ),
        SessionStage::Domain(command, len) => {
            let name = bytes.take(len as int);
            (
                Seq::empty(),
                if vstd::utf8::valid_utf8(name) {
                    Outcome::Request(
                        command,
                        Destination::Domain(vstd::utf8::decode_utf8(name), last_port(bytes)),
                    )
                } else {
                    Outcome::Failed(SocksError::DomainNotUtf8)
                },
            )
        },
        SessionStage::Ipv6(command) => (
            Seq::empty(),
            Outcome::Request(
                command,
                Destination::Ip(
                    SocketAddr::at(
                        IpAddr::V6(Ipv6Addr::of_octets(bytes.take(16))),
                        last_port(bytes),
                    ),
                ),
            ),
        ),
    }
}

fn copy_bytes(source: &[u8], from: usize, to: usize) -> (out: Vec<u8>)
    requires
        from <= to <= source@.len(),
    ensures
        out@ == source@.subrange(from as int, to as int),
{
    let mut out: Vec<u8> = Vec::new();
    let mut i: usize = from;
    while i < to
        invariant
            from <= i <= to <= source@.len(),
            out@ == source@.subrange(from as int, i as int),
        decreases to - i,
    {
        out.push(source[i]);
        i += 1;
    }
    out
}

fn push_bytes(out: &mut Vec<u8>, bytes: &[u8])
    ensures
        final(out)@ == old(out)@ + bytes@,
{
    let ghost before = out@;
    let mut i: usize = 0;
    while i < bytes.len()
        invariant
            i <= bytes@.len(),
            out@ == before + bytes@.take(i as int),
        decreases bytes@.len() - i,
    {
        out.push(bytes[i]);
        i += 1;
    }
    assert(bytes@.take(i as int) =~= bytes@);
}

/// Judges the methods that a client offers: only the one without authentication is accepted.
pub fn offers_no_authentication(methods: &[u8]) -> (found: bool)
    ensures
        found == methods@.contains(0),
{
    let mut i: usize = 0;
    while i < methods.len()
        invariant
            i <= methods@.len(),
            forall|j: int| 0 <= j < i ==> #[trigger] methods@[j] != 0,
        decreases methods@.len() - i,
    {
        if methods[i] == 0 {
            assert(methods@[i as int] == 0);
            return true;
        }
        i += 1;
    }
    false
}

/// Takes what the client sent at `stage`.
pub fn advance(stage: SessionStage, bytes: &[u8]) -> (step: SessionStep)
    requires
        bytes@.len() == stage.needed(),
    ensures
        (step.reply@, step.outcome@) == advanced(stage, bytes@),
{
    let mut reply: Vec<u8> = Vec::new();
    let outcome: SessionOutcome = match stage {
        SessionStage::Greeting => if bytes[0] == 5 {
            SessionOutcome::Read(SessionStage::Methods(bytes[1]))
        } else {
            SessionOutcome::Failed(SocksError::Version(bytes[0]))
        },
        SessionStage::Methods(_) => {
            reply.push(5);
            if offers_no_authentication(bytes) {
                reply.push(0);
                SessionOutcome::Read(SessionStage::RequestHeader)
            } else {
                reply.push(0xff);
                SessionOutcome::Failed(SocksError::NoAcceptableMethod)
            }
        },
        SessionStage::RequestHeader => request_header(bytes),
        SessionStage::Ipv4(command) => SessionOutcome::Request(
            SocksRequest {
                command,
                target: SocksTarget::Ip(
                    SocketAddr::new(
                        IpAddr::V4(Ipv4Addr::new(bytes[0], bytes[1], bytes[2], bytes[3])),
                        join_bytes(bytes[4], bytes[5]),
                    ),
                ),
            },
        ),
        SessionStage::DomainLength(command) => SessionOutcome::Read(
            SessionStage::Domain(command, bytes[0]),
        ),
        SessionStage::Domain(command, len) => {
            let name: Vec<u8> = copy_bytes(bytes, 0, len as usize);
            assert(name@ =~= bytes@.take(len as int));
            let port: u16 = join_bytes(bytes[len as usize], bytes[len as usize + 1]);
            match String::from_utf8(name) {
                Ok(host) => SessionOutcome::Request(
                    SocksRequest { command, target: SocksTarget::Domain(host, port) },
                ),
                Err(_) => SessionOutcome::Failed(SocksError::DomainNotUtf8),
            }
        },
        SessionStage::Ipv6(command) => {
            assert(bytes@.subrange(0, 16) =~= bytes@.take(16));
            SessionOutcome::Request(
                SocksRequest {
                    command,
                    target: SocksTarget::Ip(
                        SocketAddr::new(
                            IpAddr::V6(Ipv6Addr::from_octets(bytes, 0)),
                            join_bytes(bytes[16], bytes[17]),
                        ),
                    ),
                },
            )
        },
    };
    assert(stage is Methods ==> reply@ =~= advanced(stage, bytes@).0);
    assert(!(stage is Methods) ==> reply@ =~= Seq::empty());
    SessionStep { reply, outcome }
}

fn request_header(bytes: &[u8]) -> (outcome: SessionOutcome)
    requires
        bytes@.len() == 4,
    ensures
        outcome@ == advanced(SessionStage::RequestHeader, bytes@).1,
{
    if bytes[0] != 5 {
        return SessionOutcome::Failed(SocksError::RequestVersion(bytes[0]));
    }
    let command: SocksCommand = match bytes[1] {
        1 => SocksCommand::Connect,
        2 => SocksCommand::Bind,
        3 => SocksCommand::UdpAssociate,
        other => return SessionOutcome::Failed(SocksError::Command(other)),
    };
    match bytes[3] {
        1 => SessionOutcome::Read(SessionStage::Ipv4(command)),
        3 => SessionOutcome::Read(SessionStage::DomainLength(command)),
        4 => SessionOutcome::Read(SessionStage::Ipv6(command)),
        other => SessionOutcome::Failed(SocksError::AddressType(other)),
    }
}

// ---------------------------------------------------------------------
// Replies
// ---------------------------------------------------------------------

/// An address and a port as they stand in replies and frames: the kind of address, its bytes and
/// the port.
pub open spec fn address_bytes(addr: SocketAddr) -> Seq<u8> {
    let kind: u8 = match addr.spec_ip() {
        IpAddr::V4(_) => 1,
        IpAddr::V6(_) => 4,
    };
    seq![kind] + addr.spec_ip().spec_octets() + be_bytes(addr.spec_port())
}

/// A reply with the given code and the address that the proxy uses.
pub open spec fn reply_bytes(code: u8, bind: SocketAddr) -> Seq<u8> {
    seq![5u8, code, 0u8] + address_bytes(bind)
}

fn push_address(out: &mut Vec<u8>, addr: SocketAddr)
    ensures
        final(out)@ == old(out)@ + address_bytes(addr),
{
    let ghost before = out@;
    match addr.ip() {
        IpAddr::V4(ip) => {
            out.push(1);
            push_bytes(out, ip.octets().as_slice());
        },
        IpAddr::V6(ip) => {
            out.push(4);
            push_bytes(out, ip.octets().as_slice());
        },
    }
    let port: u16 = addr.port();
    out.push(high_of(port));
    out.push(low_of(port));
    assert(out@ =~= before + address_bytes(addr));
}

/// The bytes of a reply.
pub fn write_reply(code: u8, bind: SocketAddr) -> (reply: Vec<u8>)
    ensures
        reply@ == reply_bytes(code, bind),
{
    let mut reply: Vec<u8> = Vec::new();
    reply.push(5);
    reply.push(code);
    reply.push(0);
    assert(reply@ =~= seq![5u8, code, 0u8]);
    push_address(&mut reply, bind);
    reply
}

/// The endpoint without an address in the family of `peer`; version 4 where there is none.
pub open spec fn zero_endpoint(peer: Option<SocketAddr>) -> SocketAddr {
    if peer is Some && peer->0 is V6 {
        SocketAddr::at(
            IpAddr::V6(Ipv6Addr { s0: 0, s1: 0, s2: 0, s3: 0, s4: 0, s5: 0, s6: 0, s7: 0 }),
            0,
        )
    } else {
        SocketAddr::at(IpAddr::V4(Ipv4Addr { a: 0, b: 0, c: 0, d: 0 }), 0)
    }
}

pub fn zero_socket_addr_for(peer: Option<SocketAddr>) -> (addr: SocketAddr)
    ensures
        addr == zero_endpoint(peer),
{
    match peer {
        Some(SocketAddr::V6(_)) => SocketAddr::new(
            IpAddr::V6(Ipv6Addr::new(0, 0, 0, 0, 0, 0, 0, 0)),
            0,
        ),
        _ => SocketAddr::new(IpAddr::V4(Ipv4Addr::new(0, 0, 0, 0)), 0),
    }
}

/// Where the relay for datagrams listens: at the address of the proxy, or at any address of the
/// client's family where the proxy listens at any address; the system picks the port.
pub fn relay_bind_addr(listen_ip: IpAddr, peer: SocketAddr) -> (addr: SocketAddr)
    ensures
        addr == (if listen_ip.unspecified() {
            zero_endpoint(Some(peer))
        } else {
            SocketAddr::at(listen_ip, 0)
        }),
{
    if listen_ip.is_unspecified() {
        zero_socket_addr_for(Some(peer))
    } else {
        SocketAddr::new(listen_ip, 0)
    }
}

/// The name of an address family.
pub open spec fn family_words(ip: IpAddr) -> Seq<char> {
    match ip {
        IpAddr::V4(_) => "IPv4"@,
        IpAddr::V6(_) => "IPv6"@,
    }
}

pub fn family_name(ip: IpAddr) -> (name: &'static str)
    ensures
        name@ == family_words(ip),
{
    match ip {
        IpAddr::V4(_) => "IPv4",
        IpAddr::V6(_) => "IPv6",
    }
}

// ---------------------------------------------------------------------
// Datagrams
// ---------------------------------------------------------------------

/// Why a frame is refused.
#[derive(Debug, Clone, Copy, PartialEq, Eq, Structural)]
pub enum UdpError {
    TooShort,
    Reserved,
    Fragmented,
    Ipv4TooShort,
    DomainTooShort,
    DomainLength,
    DomainNotUtf8,
    Ipv6TooShort,
    AddressType(u8),
}

impl UdpError {
    pub open spec fn words(self) -> Seq<char> {
        match self {
            UdpError::TooShort => "packet is too short"@,
            UdpError::Reserved => "reserved bytes are invalid"@,
            UdpError::Fragmented => "fragmented UDP packets are not supported"@,
            UdpError::Ipv4TooShort => "IPv4 UDP header is too short"@,
            UdpError::DomainTooShort => "domain UDP header is too short"@,
            UdpError::DomainLength => "domain UDP header length is invalid"@,
            UdpError::DomainNotUtf8 => "UDP domain is not valid UTF-8"@,
            UdpError::Ipv6TooShort => "IPv6 UDP header is too short"@,
            UdpError::AddressType(kind) => "unsupported UDP address type "@ + decimal(
                kind as nat,
            ),
        }
    }

    pub fn message(self) -> (message: String)
        ensures
            message@ == self.words(),
    {
        match self {
            UdpError::TooShort => "packet is too short".to_owned(),
            UdpError::Reserved => "reserved bytes are invalid".to_owned(),
            UdpError::Fragmented => "fragmented UDP packets are not supported".to_owned(),
            UdpError::Ipv4TooShort => "IPv4 UDP header is too short".to_owned(),
            UdpError::DomainTooShort => "domain UDP header is too short".to_owned(),
            UdpError::DomainLength => "domain UDP header length is invalid".to_owned(),
            UdpError::DomainNotUtf8 => "UDP domain is not valid UTF-8".to_owned(),
            UdpError::Ipv6TooShort => "IPv6 UDP header is too short".to_owned(),
            UdpError::AddressType(kind) => numbered("unsupported UDP address type ", kind),
        }
    }
}

/// A datagram that a client sends through the relay.
#[derive(Debug)]
pub struct UdpPacket<'a> {
    pub target: SocksTarget,
    pub payload: &'a [u8],
}

/// What a frame holds: its destination and where its payload starts.
pub open spec fn parsed_frame(bytes: Seq<u8>) -> Result<(Destination, int), UdpError> {
    if bytes.len() < 4 {
        Err(UdpError::TooShort)
    } else if bytes[0] != 0 || bytes[1] != 0 {
        Err(UdpError::Reserved)
    } else if bytes[2] != 0 {
        Err(UdpError::Fragmented)
    } else if bytes[3] == 1 {
        if bytes.len() < 10 {
            Err(UdpError::Ipv4TooShort)
        } else {
            Ok(
                (
                    Destination::Ip(
                        SocketAddr::at(
                            IpAddr::V4(
                                Ipv4Addr { a: bytes[4], b: bytes[5], c: bytes[6], d: bytes[7] },
                            ),
                            from_bytes(bytes[8], bytes[9]),
                        ),
                    ),
                    10,
                ),
            )
        }
    } else if bytes[3] == 3 {
        let end = 5 + bytes[4];
        if bytes.len() < 5 {
            Err(UdpError::DomainTooShort)
        } else if bytes.len() < end + 2 {
            Err(UdpError::DomainLength)
        } else if !vstd::utf8::valid_utf8(bytes.subrange(5, end)) {
            Err(UdpError::DomainNotUtf8)
        } else {
            Ok(
                (
                    Destination::Domain(
                        vstd::utf8::decode_utf8(bytes.subrange(5, end)),
                        from_bytes(bytes[end], bytes[end + 1]),
                    ),
                    end + 2,
                ),
            )
        }
    } else if bytes[3] == 4 {
        if bytes.len() < 22 {
            Err(UdpError::Ipv6TooShort)
        } else {
            Ok(
                (
                    Destination::Ip(
                        SocketAddr::at(
                            IpAddr::V6(Ipv6Addr::of_octets(bytes.subrange(4, 20))),
                            from_bytes(bytes[20], bytes[21]),
                        ),
                    ),
                    22,
                ),
            )
        }
    } else {
        Err(UdpError::AddressType(bytes[3]))
    }
}

/// Takes a frame of a client apart.
pub fn parse_udp_packet<'a>(buffer: &'a [u8]) -> (packet: Result<UdpPacket<'a>, UdpError>)
    ensures
        match packet {
            Ok(packet) => {
                &&& parsed_frame(buffer@) is Ok
                &&& packet.target@ == parsed_frame(buffer@)->Ok_0.0
                &&& packet.payload@ == buffer@.skip(parsed_frame(buffer@)->Ok_0.1)
            },
            Err(error) => parsed_frame(buffer@) == Err::<(Destination, int), UdpError>(error),
        },
{
    let len: usize = buffer.len();
    if len < 4 {
        return Err(UdpError::TooShort);
    }
    if buffer[0] != 0 || buffer[1] != 0 {
        return Err(UdpError::Reserved);
    }
    if buffer[2] != 0 {
        return Err(UdpError::Fragmented);
    }
    let (target, cursor): (SocksTarget, usize) = match buffer[3] {
        1 => {
            if len < 10 {
                return Err(UdpError::Ipv4TooShort);
            }
            let ip: Ipv4Addr = Ipv4Addr::new(buffer[4], buffer[5], buffer[6], buffer[7]);
            let port: u16 = join_bytes(buffer[8], buffer[9]);
            (SocksTarget::Ip(SocketAddr::new(IpAddr::V4(ip), port)), 10)
        },
        3 => {
            if len <= 4 {
                return Err(UdpError::DomainTooShort);
            }
            let end: usize = 5 + buffer[4] as usize;
            if len < end + 2 {
                return Err(UdpError::DomainLength);
            }
            let host: String = match String::from_utf8(copy_bytes(buffer, 5, end)) {
                Ok(host) => host,
                Err(_) => return Err(UdpError::DomainNotUtf8),
            };
            let port: u16 = join_bytes(buffer[end], buffer[end + 1]);
            (SocksTarget::Domain(host, port), end + 2)
        },
        4 => {
            if len < 22 {
                return Err(UdpError::Ipv6TooShort);
            }
            let ip: Ipv6Addr = Ipv6Addr::from_octets(buffer, 4);
            let port: u16 = join_bytes(buffer[20], buffer[21]);
            (SocksTarget::Ip(SocketAddr::new(IpAddr::V6(ip), port)), 22)
        },
        other => return Err(UdpError::AddressType(other)),
    };
    let payload: &'a [u8] = vstd::slice::slice_subrange(buffer, cursor, len);
    assert(payload@ =~= buffer@.skip(cursor as int));
    Ok(UdpPacket { target, payload })
}

/// A frame for a datagram from `remote`.
pub open spec fn frame_bytes(remote: SocketAddr, payload: Seq<u8>) -> Seq<u8> {
    seq![0u8, 0u8, 0u8] + address_bytes(remote) + payload
}

/// Puts a datagram from `remote` into a frame for the client.
pub fn build_udp_packet(remote: SocketAddr, payload: &[u8]) -> (output: Vec<u8>)
    ensures
        output@ == frame_bytes(remote, payload@),
{
    let mut output: Vec<u8> = Vec::new();
    output.push(0);
    output.push(0);
    output.push(0);
    assert(output@ =~= seq![0u8, 0u8, 0u8]);
    push_address(&mut output, remote);
    push_bytes(&mut output, payload);
    output
}

/// The identity of a datagram flow.
pub open spec fn flow_id(id: u64, remote: SocketAddr) -> Seq<char> {
    decimal(id as nat) + "/udp/"@ + socket_text(remote)
}

pub fn udp_flow_id(id: u64, remote: SocketAddr) -> (text: String)
    ensures
        text@ == flow_id(id, remote),
{
    let mut text: String = String::new();
    push_decimal(&mut text, id);
    text.append("/udp/");
    push_socket(&mut text, remote);
    assert(text@ =~= flow_id(id, remote));
    text
}

// ---------------------------------------------------------------------
// Laws
// ---------------------------------------------------------------------

/// What a client and the proxy exchange: what the proxy sends in answer to `input`, and what
/// follows; nothing where the client has to send more.
pub open spec fn exchange(stage: SessionStage, input: Seq<u8>) -> (Seq<u8>, Option<Outcome>)
    decreases stage.rank(),
{
    if input.len() < stage.needed() {
        (Seq::empty(), None)
    } else {
        let (reply, outcome) = advanced(stage, input.take(stage.needed() as int));
        match outcome {
            Outcome::Read(next) => if next.rank() < stage.rank() {
                let (more, end) = exchange(next, input.skip(stage.needed() as int));
                (reply + more, end)
            } else {
                (reply, None)
            },
            _ => (reply, Some(outcome)),
        }
    }
}

/// The greeting of a client that offers `methods`.
pub open spec fn greeting_bytes(methods: Seq<u8>) -> Seq<u8> {
    seq![5u8, methods.len() as u8] + methods
}

/// The number of a command.
pub open spec fn command_number(command: SocksCommand) -> u8 {
    match command {
        SocksCommand::Connect => 1,
        SocksCommand::Bind => 2,
        SocksCommand::UdpAssociate => 3,
    }
}

/// The request of a client.
pub open spec fn request_bytes(command: SocksCommand, target: Destination) -> Seq<u8> {
    seq![5u8, command_number(command), 0u8] + (match target {
        Destination::Ip(addr) => address_bytes(addr),
        Destination::Domain(host, port) => {
            let name = vstd::utf8::encode_utf8(host);
            seq![3u8, name.len() as u8] + name + be_bytes(port)
        },
    })
}

/// A destination as a request can name it: an endpoint without flow label and scope, or a host
/// name of at most 255 bytes.
pub open spec fn nameable(target: Destination) -> bool {
    match target {
        Destination::Ip(addr) => addr == SocketAddr::at(addr.spec_ip(), addr.spec_port()),
        Destination::Domain(host, _) => vstd::utf8::encode_utf8(host).len() <= 255,
    }
}

/// Two bytes make up the number that they were taken from.
pub proof fn lemma_bytes_round_trip(n: u16)
    ensures
        from_bytes(high_byte(n), low_byte(n)) == n,
{
}

proof fn lemma_octets_round_trip(ip: Ipv6Addr)
    ensures
        Ipv6Addr::of_octets(ip.spec_octets()) == ip,
        ip.spec_octets().len() == 16,
{
    lemma_bytes_round_trip(ip.s0);
    lemma_bytes_round_trip(ip.s1);
    lemma_bytes_round_trip(ip.s2);
    lemma_bytes_round_trip(ip.s3);
    lemma_bytes_round_trip(ip.s4);
    lemma_bytes_round_trip(ip.s5);
    lemma_bytes_round_trip(ip.s6);
    lemma_bytes_round_trip(ip.s7);
}

/// What follows one stage that needs exactly the bytes `now`, with `later` behind them.
proof fn lemma_exchange_step(stage: SessionStage, now: Seq<u8>, later: Seq<u8>)
    requires
        now.len() == stage.needed(),
    ensures
        ({
            let (reply, outcome) = advanced(stage, now);
            exchange(stage, now + later) == (match outcome {
                Outcome::Read(next) => if next.rank() < stage.rank() {
                    let (more, end) = exchange(next, later);
                    (reply + more, end)
                } else {
                    (reply, None)
                },
                _ => (reply, Some(outcome)),
            })
        }),
{
    assert((now + later).take(now.len() as int) =~= now);
    assert((now + later).skip(now.len() as int) =~= later);
}

/// A request that names an endpoint is understood.
proof fn lemma_endpoint_request(command: SocksCommand, addr: SocketAddr)
    requires
        nameable(Destination::Ip(addr)),
    ensures
        exchange(SessionStage::RequestHeader, request_bytes(command, Destination::Ip(addr))) == (
            Seq::<u8>::empty(),
            Some(Outcome::Request(command, Destination::Ip(addr))),
        ),
{
    let request = request_bytes(command, Destination::Ip(addr));
    let none = Seq::<u8>::empty();
    let ip = addr.spec_ip();
    let kind: u8 = match ip {
        IpAddr::V4(_) => 1,
        IpAddr::V6(_) => 4,
    };
    let header = seq![5u8, command_number(command), 0u8, kind];
    let body = ip.spec_octets() + be_bytes(addr.spec_port());
    lemma_bytes_round_trip(addr.spec_port());
    assert(request =~= header + body);
    assert(body + none =~= body);
    lemma_exchange_step(SessionStage::RequestHeader, header, body);
    match ip {
        IpAddr::V4(v4) => {
            lemma_exchange_step(SessionStage::Ipv4(command), body, none);
        },
        IpAddr::V6(v6) => {
            lemma_octets_round_trip(v6);
            assert(body.take(16) =~= v6.spec_octets());
            lemma_exchange_step(SessionStage::Ipv6(command), body, none);
        },
    }
    assert(none + none =~= none);
}

/// A request that names a host is understood.
proof fn lemma_host_request(command: SocksCommand, host: Seq<char>, port: u16)
    requires
        nameable(Destination::Domain(host, port)),
    ensures
        exchange(
            SessionStage::RequestHeader,
            request_bytes(command, Destination::Domain(host, port)),
        ) == (
            Seq::<u8>::empty(),
            Some(Outcome::Request(command, Destination::Domain(host, port))),
        ),
{
    let request = request_bytes(command, Destination::Domain(host, port));
    let none = Seq::<u8>::empty();
    let name = vstd::utf8::encode_utf8(host);
    let header = seq![5u8, command_number(command), 0u8, 3u8];
    let length = seq![name.len() as u8];
    let body = name + be_bytes(port);
    vstd::utf8::encode_utf8_valid_utf8(host);
    vstd::utf8::encode_utf8_decode_utf8(host);
    lemma_bytes_round_trip(port);
    assert(request =~= header + (length + body));
    assert(body + none =~= body);
    assert(body.take(name.len() as int) =~= name);
    assert(none + none =~= none);
    lemma_exchange_step(SessionStage::RequestHeader, header, length + body);
    lemma_exchange_step(SessionStage::DomainLength(command), length, body);
    lemma_exchange_step(SessionStage::Domain(command, name.len() as u8), body, none);
}

/// A client that is willing to go without authentication is told so, and its request is
/// understood: the command and the destination are those that it named.
pub proof fn law_request_is_understood(
    methods: Seq<u8>,
    command: SocksCommand,
    target: Destination,
)
    requires
        methods.len() <= 255,
        methods.contains(0),
        nameable(target),
    ensures
        exchange(
            SessionStage::Greeting,
            greeting_bytes(methods) + request_bytes(command, target),
        ) == (seq![5u8, 0u8], Some(Outcome::Request(command, target))),
{
    let request = request_bytes(command, target);
    let none = Seq::<u8>::empty();
    match target {
        Destination::Ip(addr) => lemma_endpoint_request(command, addr),
        Destination::Domain(host, port) => lemma_host_request(command, host, port),
    }
    let start = seq![5u8, methods.len() as u8];
    assert(greeting_bytes(methods) + request =~= start + (methods + request));
    lemma_exchange_step(SessionStage::Greeting, start, methods + request);
    lemma_exchange_step(SessionStage::Methods(methods.len() as u8), methods, request);
    assert(seq![5u8, 0u8] + none =~= seq![5u8, 0u8]);
    assert(none + seq![5u8, 0u8] =~= seq![5u8, 0u8]);
}

/// A client that insists on authentication is told that no method is acceptable, whatever it
/// sends after its greeting.
pub proof fn law_unacceptable_methods_are_refused(methods: Seq<u8>, more: Seq<u8>)
    requires
        methods.len() <= 255,
        !methods.contains(0),
    ensures
        exchange(SessionStage::Greeting, greeting_bytes(methods) + more) == (
            seq![5u8, 0xffu8],
            Some(Outcome::Failed(SocksError::NoAcceptableMethod)),
        ),
{
    let start = seq![5u8, methods.len() as u8];
    assert(greeting_bytes(methods) + more =~= start + (methods + more));
    lemma_exchange_step(SessionStage::Greeting, start, methods + more);
    lemma_exchange_step(SessionStage::Methods(methods.len() as u8), methods, more);
    assert(Seq::<u8>::empty() + seq![5u8, 0xffu8] =~= seq![5u8, 0xffu8]);
}

/// A frame that the relay builds is read back as what it was built from: the endpoint and the
/// payload.
pub proof fn law_frame_round_trip(remote: SocketAddr, payload: Seq<u8>)
    ensures
        parsed_frame(frame_bytes(remote, payload)) is Ok,
        parsed_frame(frame_bytes(remote, payload))->Ok_0.0 == Destination::Ip(
            SocketAddr::at(remote.spec_ip(), remote.spec_port()),
        ),
        frame_bytes(remote, payload).skip(parsed_frame(frame_bytes(remote, payload))->Ok_0.1)
            == payload,
{
    let bytes = frame_bytes(remote, payload);
    lemma_bytes_round_trip(remote.spec_port());
    match remote.spec_ip() {
        IpAddr::V4(ip) => {
            assert(bytes.skip(10) =~= payload);
        },
        IpAddr::V6(ip) => {
            lemma_octets_round_trip(ip);
            assert(bytes.subrange(4, 20) =~= ip.spec_octets());
            assert(bytes.skip(22) =~= payload);
        },
    }
}

/// A frame to a host name of at most 255 bytes is read as that name, its port and its payload.
pub proof fn law_domain_frame_is_understood(host: Seq<char>, port: u16, payload: Seq<u8>)
    requires
        vstd::utf8::encode_utf8(host).len() <= 255,
    ensures
        ({
            let name = vstd::utf8::encode_utf8(host);
            let bytes = seq![0u8, 0u8, 0u8, 3u8, name.len() as u8] + name + be_bytes(port)
                + payload;
            &&& parsed_frame(bytes) is Ok
            &&& parsed_frame(bytes)->Ok_0.0 == Destination::Domain(host, port)
            &&& bytes.skip(parsed_frame(bytes)->Ok_0.1) == payload
        }),
{
    let name = vstd::utf8::encode_utf8(host);
    let bytes = seq![0u8, 0u8, 0u8, 3u8, name.len() as u8] + name + be_bytes(port) + payload;
    vstd::utf8::encode_utf8_valid_utf8(host);
    vstd::utf8::encode_utf8_decode_utf8(host);
    lemma_bytes_round_trip(port);
    let end = 5 + name.len() as int;
    assert(bytes.subrange(5, end) =~= name);
    assert(bytes.skip(end + 2) =~= payload);
}

/// A reply tells the code, the family, the address and the port, and nothing else: two replies
/// are the same only if these are.
pub proof fn law_reply_is_unambiguous(
    code: u8,
    bind: SocketAddr,
    other_code: u8,
    other_bind: SocketAddr,
)
    requires
        reply_bytes(code, bind) == reply_bytes(other_code, other_bind),
    ensures
        code == other_code,
        bind.spec_ip() == other_bind.spec_ip(),
        bind.spec_port() == other_bind.spec_port(),
{
    let left = reply_bytes(code, bind);
    let right = reply_bytes(other_code, other_bind);
    assert(left[1] == right[1]);
    assert(left[3] == right[3]);
    lemma_bytes_round_trip(bind.spec_port());
    lemma_bytes_round_trip(other_bind.spec_port());
    match (bind.spec_ip(), other_bind.spec_ip()) {
        (IpAddr::V4(ip), IpAddr::V4(other)) => {
            assert(left[4] == right[4] && left[5] == right[5] && left[6] == right[6] && left[7]
                == right[7]);
            assert(left[8] == right[8] && left[9] == right[9]);
        },
        (IpAddr::V6(ip), IpAddr::V6(other)) => {
            lemma_octets_round_trip(ip);
            lemma_octets_round_trip(other);
            assert(left.subrange(4, 20) =~= ip.spec_octets());
            assert(right.subrange(4, 20) =~= other.spec_octets());
            assert(left[20] == right[20] && left[21] == right[21]);
        },
        _ => {},
    }
}

/// A destination is told as the endpoint that it is, or by its host and its port.
pub proof fn law_text_of_a_destination(addr: SocketAddr, host: Seq<char>, port: u16)
    ensures
        destination_text(Destination::Ip(addr)) == socket_text(addr),
        destination_text(Destination::Domain(host, port)) == host.push(':') + decimal(port as nat),
{
    reveal_strlit(":");
    assert(destination_text(Destination::Domain(host, port)) =~= host.push(':') + decimal(
        port as nat,
    ));
}

/// The numbers of the commands are those under which they are read.
pub proof fn law_numbers_of_the_commands(command: SocksCommand, number: u8)
    ensures
        command_of(command_number(command)) == Some(command),
        command_of(number) is Some <==> 1 <= number <= 3,
        command_of(number) is Some ==> command_number(command_of(number)->0) == number,
        command_of(1) == Some(SocksCommand::Connect),
        command_of(3) == Some(SocksCommand::UdpAssociate),
{
}

} // verus!
