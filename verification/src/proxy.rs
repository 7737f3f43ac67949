//! The SOCKS5 proxy: its settings, the events it reports, and how it serves its clients.

use vstd::prelude::*;

use crate::adapter::EgressTarget;
use crate::addr::{ip_text, push_ip, push_socket, socket_text, IpAddr, SocketAddr};
pub use crate::pool::EgressStrategy;
use crate::pool::WeightedPool;
use crate::socks::{
    destination_text, reply_bytes, write_reply, zero_endpoint, zero_socket_addr_for, SocksCommand,
    SocksRequest, SocksTarget,
};
use crate::text::{decimal, decimal_text, push_decimal};

verus! {

/// What the proxy is started with.
#[derive(Debug, Clone)]
pub struct ProxyConfig {
    pub listen_ip: IpAddr,
    pub listen_port: u16,
    pub egress: Vec<EgressTarget>,
    pub udp_enabled: bool,
    pub egress_strategy: EgressStrategy,
}

#[derive(Debug, Clone, Copy, PartialEq, Eq, Structural)]
pub enum ConnectionProtocol {
    Tcp,
    Udp,
}

impl ConnectionProtocol {
    pub open spec fn word(self) -> Seq<char> {
        match self {
            ConnectionProtocol::Tcp => "TCP"@,
            ConnectionProtocol::Udp => "UDP"@,
        }
    }

    pub fn label(self) -> (label: &'static str)
        ensures
            label@ == self.word(),
    {
        match self {
            ConnectionProtocol::Tcp => "TCP",
            ConnectionProtocol::Udp => "UDP",
        }
    }
}

/// A moment, in nanoseconds on the clock of the application, which never runs backwards.
pub type Moment = u64;

#[derive(Debug, Clone)]
pub struct ConnectionOpened {
    pub id: String,
    pub protocol: ConnectionProtocol,
    pub client: SocketAddr,
    pub target: String,
    pub egress_name: String,
    pub egress_ip: IpAddr,
    pub opened_at: Moment,
}

#[derive(Debug, Clone)]
pub struct ConnectionUpdated {
    pub id: String,
    pub up_bytes: u64,
    pub down_bytes: u64,
}

#[derive(Debug, Clone)]
pub struct ConnectionClosed {
    pub id: String,
    pub up_bytes: u64,
    pub down_bytes: u64,
    pub reason: String,
    pub closed_at: Moment,
}

/// What the proxy reports of a connection.
#[derive(Debug, Clone)]
pub enum ConnectionEvent {
    Opened(ConnectionOpened),
    Updated(ConnectionUpdated),
    Closed(ConnectionClosed),
}

// ---------------------------------------------------------------------
// Starting and accepting
// ---------------------------------------------------------------------

/// Where the proxy listens; it is not started without an egress address.
pub fn listen_endpoint(config: &ProxyConfig) -> (result: Result<SocketAddr, &'static str>)
    ensures
        result is Ok <==> config.egress@.len() > 0,
        result matches Ok(addr) ==> addr == SocketAddr::at(config.listen_ip, config.listen_port),
        result matches Err(message) ==> message@
            == "at least one egress adapter address must be selected"@,
{
    if config.egress.len() == 0 {
        Err("at least one egress adapter address must be selected")
    } else {
        Ok(SocketAddr::new(config.listen_ip, config.listen_port))
    }
}

/// The message where the proxy cannot listen.
pub fn bind_failed_message(addr: SocketAddr) -> (message: String)
    ensures
        message@ == "failed to bind SOCKS5 listener on "@ + socket_text(addr),
{
    let mut message: String = "failed to bind SOCKS5 listener on ".to_owned();
    push_socket(&mut message, addr);
    message
}

/// What the proxy logs once it listens: where, through which addresses, and by which policy.
pub fn startup_lines(local: SocketAddr, pool: &WeightedPool) -> (lines: Vec<String>)
    ensures
        lines@.len() == 3,
        lines@[0]@ == "SOCKS5 proxy listening on "@ + socket_text(local),
        lines@[1]@ == "selected egress adapters: "@ + pool.described(),
        lines@[2]@ == "egress policy: "@ + pool.strategy.words(),
{
    let mut lines: Vec<String> = Vec::new();
    let mut first: String = "SOCKS5 proxy listening on ".to_owned();
    push_socket(&mut first, local);
    lines.push(first);
    let mut second: String = "selected egress adapters: ".to_owned();
    second.append(pool.describe().as_str());
    lines.push(second);
    let mut third: String = "egress policy: ".to_owned();
    third.append(pool.strategy.label());
    lines.push(third);
    lines
}

/// What happens at the listening socket.
#[derive(Debug)]
pub enum ListenerEvent {
    Cancelled,
    Accepted(SocketAddr),
    AcceptFailed(String),
}

/// What the proxy does about it.
#[derive(Debug)]
pub enum ListenerAction {
    /// The proxy stops, after this line.
    Stop(String),
    /// The client is served under this number.
    Serve(u64, SocketAddr),
    /// The proxy goes on, after this line.
    GoOn(String),
}

/// The listening proxy: the number of its next client.
#[derive(Debug)]
pub struct Listener {
    pub next_id: u64,
}

impl Listener {
    pub fn new() -> (listener: Self)
        ensures
            listener.next_id == 1,
    {
        Listener { next_id: 1 }
    }

    /// Reacts to what happens at the listening socket. Clients are numbered in the order in which
    /// they come; a failed accept does not stop the proxy.
    pub fn react(&mut self, event: ListenerEvent) -> (action: ListenerAction)
        ensures
            match event {
                ListenerEvent::Cancelled => final(self).next_id == old(self).next_id && (
                action matches ListenerAction::Stop(line) && line@ == "proxy shutdown requested"@),
                ListenerEvent::Accepted(peer) => action == ListenerAction::Serve(
                    old(self).next_id,
                    peer,
                ) && final(self).next_id == (if old(self).next_id == u64::MAX {
                    0
                } else {
                    old(self).next_id + 1
                }),
                ListenerEvent::AcceptFailed(error) => final(self).next_id == old(self).next_id && (
                action matches ListenerAction::GoOn(line) && line@ == "accept failed: "@ + error@),
            },
    {
        match event {
            ListenerEvent::Cancelled => ListenerAction::Stop("proxy shutdown requested".to_owned()),
            ListenerEvent::Accepted(peer) => {
                let id: u64 = self.next_id;
                self.next_id = if id == u64::MAX {
                    0
                } else {
                    id + 1
                };
                ListenerAction::Serve(id, peer)
            },
            ListenerEvent::AcceptFailed(error) => {
                let mut line: String = "accept failed: ".to_owned();
                line.append(error.as_str());
                ListenerAction::GoOn(line)
            },
        }
    }
}

/// The line for a client whose session failed.
pub fn client_failed_line(id: u64, peer: SocketAddr, error: &str) -> (line: String)
    ensures
        line@ == "#"@ + decimal(id as nat) + " "@ + socket_text(peer) + ": "@ + error@,
{
    let mut line: String = "#".to_owned();
    push_decimal(&mut line, id);
    line.append(" ");
    push_socket(&mut line, peer);
    line.append(": ");
    line.append(error);
    line
}

// ---------------------------------------------------------------------
// Serving a request
// ---------------------------------------------------------------------

/// How a request is served.
#[derive(Debug)]
pub enum Service {
    /// A connection to the target is made.
    Connect(SocksTarget),
    /// A relay for datagrams is set up.
    Associate,
    /// The client gets this reply, and the session ends with this message.
    Refuse(Vec<u8>, &'static str),
}

/// Decides how a request is served. A request that is not supported is answered with the code for
/// that before the session ends.
pub fn dispatch(request: SocksRequest, udp_enabled: bool, peer: SocketAddr) -> (service: Service)
    ensures
        match request.command {
            SocksCommand::Connect => service == Service::Connect(request.target),
            SocksCommand::UdpAssociate => if udp_enabled {
                service == Service::Associate
            } else {
                service matches Service::Refuse(reply, message) && reply@ == reply_bytes(
                    7,
                    zero_endpoint(Some(peer)),
                ) && message@ == "UDP ASSOCIATE disabled"@
            },
            SocksCommand::Bind => service matches Service::Refuse(reply, message) && reply@
                == reply_bytes(7, zero_endpoint(Some(peer))) && message@
                == "SOCKS BIND is not supported"@,
        },
{
    match request.command {
        SocksCommand::Connect => Service::Connect(request.target),
        SocksCommand::UdpAssociate => if udp_enabled {
            Service::Associate
        } else {
            Service::Refuse(
                write_reply(7, zero_socket_addr_for(Some(peer))),
                "UDP ASSOCIATE disabled",
            )
        },
        SocksCommand::Bind => Service::Refuse(
            write_reply(7, zero_socket_addr_for(Some(peer))),
            "SOCKS BIND is not supported",
        ),
    }
}

/// What a client gets, and with which message its session ends, where the target cannot be
/// reached.
pub fn connect_failed(target: &SocksTarget, peer: SocketAddr) -> (out: (Vec<u8>, String))
    ensures
        out.0@ == reply_bytes(4, zero_endpoint(Some(peer))),
        out.1@ == "CONNECT "@ + destination_text(target@) + " failed"@,
{
    let mut message: String = "CONNECT ".to_owned();
    message.append(target.to_text().as_str());
    message.append(" failed");
    (write_reply(4, zero_socket_addr_for(Some(peer))), message)
}

/// What is reported of a target that is reached.
#[derive(Debug)]
pub struct Established {
    pub opened: ConnectionOpened,
    pub line: String,
}

/// The local endpoint of a connection that is told to the client: the one the system gives, and
/// otherwise none in the family of the remote end.
pub open spec fn bound_endpoint(local: Option<SocketAddr>, remote: Option<SocketAddr>) -> SocketAddr {
    match local {
        Some(addr) => addr,
        None => zero_endpoint(remote),
    }
}

/// What a client gets where the target is reached; `local` and `remote` are the ends of the
/// connection as far as the system tells them.
pub fn success_reply(local: Option<SocketAddr>, remote: Option<SocketAddr>) -> (reply: Vec<u8>)
    ensures
        reply@ == reply_bytes(0, bound_endpoint(local, remote)),
{
    let bound: SocketAddr = match local {
        Some(addr) => addr,
        None => zero_socket_addr_for(remote),
    };
    write_reply(0, bound)
}

/// The event and the line for the connection of client `id` to `target`.
pub fn established(
    id: u64,
    peer: SocketAddr,
    target: &SocksTarget,
    selected: &EgressTarget,
    now: Moment,
) -> (out: Established)
    ensures
        out.opened.id@ == decimal(id as nat),
        out.opened.protocol == ConnectionProtocol::Tcp,
        out.opened.client == peer,
        out.opened.target@ == destination_text(target@),
        out.opened.egress_name@ == selected.name@,
        out.opened.egress_ip == selected.ip,
        out.opened.opened_at == now,
        out.line@ == "#"@ + decimal(id as nat) + " CONNECT "@ + destination_text(target@)
            + " via "@ + selected.name@ + " ("@ + ip_text(selected.ip) + ")"@,
{
    let mut line: String = "#".to_owned();
    push_decimal(&mut line, id);
    line.append(" CONNECT ");
    line.append(target.to_text().as_str());
    line.append(" via ");
    line.append(selected.name.as_str());
    line.append(" (");
    push_ip(&mut line, selected.ip);
    line.append(")");
    Established {
        opened: ConnectionOpened {
            id: decimal_text(id),
            protocol: ConnectionProtocol::Tcp,
            client: peer,
            target: target.to_text(),
            egress_name: selected.name.clone(),
            egress_ip: selected.ip,
            opened_at: now,
        },
        line,
    }
}

/// What is done once a connection is over.
#[derive(Debug)]
pub struct Ended {
    /// The bytes that the pool takes off.
    pub bytes: u64,
    pub line: String,
    pub closed: ConnectionClosed,
}

/// The bytes, the line and the event for the end of the connection of client `id`.
pub fn ended(id: u64, up_bytes: u64, down_bytes: u64, reason: String, now: Moment) -> (out: Ended)
    requires
        up_bytes + down_bytes <= u64::MAX,
    ensures
        out.bytes == up_bytes + down_bytes,
        out.line@ == "#"@ + decimal(id as nat) + " closed: "@ + decimal(up_bytes as nat)
            + " bytes up, "@ + decimal(down_bytes as nat) + " bytes down ("@ + reason@ + ")"@,
        out.closed.id@ == decimal(id as nat),
        out.closed.up_bytes == up_bytes,
        out.closed.down_bytes == down_bytes,
        out.closed.reason@ == reason@,
        out.closed.closed_at == now,
{
    let mut line: String = "#".to_owned();
    push_decimal(&mut line, id);
    line.append(" closed: ");
    push_decimal(&mut line, up_bytes);
    line.append(" bytes up, ");
    push_decimal(&mut line, down_bytes);
    line.append(" bytes down (");
    line.append(reason.as_str());
    line.append(")");
    Ended {
        bytes: up_bytes + down_bytes,
        line,
        closed: ConnectionClosed {
            id: decimal_text(id),
            up_bytes,
            down_bytes,
            reason,
            closed_at: now,
        },
    }
}

} // verus!
