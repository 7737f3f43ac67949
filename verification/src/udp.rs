//! Relaying datagrams for a client: who may send, which flows are open, and what is counted.

use vstd::prelude::*;

use crate::adapter::EgressTarget;
use crate::connect::{addresses_of, reachable, resolve_target, unresolved_words, usable};
use crate::pool::{
    as_before, law_close_undoes_open_and_transfer, lemma_position, lemma_same_position,
    lemma_transfers_add_up, position_of, Pool, WeightedPool,
};
use crate::addr::{ip_text, push_ip, push_socket, socket_text, IpAddr, SocketAddr};
use crate::proxy::{
    ConnectionClosed, ConnectionOpened, ConnectionProtocol, ConnectionUpdated, Moment,
};
use crate::socks::{
    build_udp_packet, flow_id, frame_bytes, parse_udp_packet, parsed_frame, udp_flow_id,
    SocksTarget, UdpPacket,
};
use crate::text::{decimal, push_decimal};

verus! {

/// The longest datagram that is received.
pub const DATAGRAM_LEN: usize = 65_535;

/// The datagrams between a client and one remote endpoint.
#[derive(Debug, Clone, Copy, PartialEq, Eq, Structural)]
pub struct UdpFlow {
    pub remote: SocketAddr,
    pub egress_ip: IpAddr,
    pub up_bytes: u64,
    pub down_bytes: u64,
}

/// The relay for one client: the endpoint it sends from, once known, and its flows.
#[derive(Debug)]
pub struct UdpAssociation {
    pub id: u64,
    pub client: Option<SocketAddr>,
    pub flows: Vec<UdpFlow>,
}

/// What a datagram at the relay is.
#[derive(Debug)]
pub enum Received<'a> {
    /// It comes from someone else than the client.
    Ignored,
    /// It is no frame: the line to log.
    Invalid(String),
    Packet(UdpPacket<'a>),
}

/// Where a flow to `remote` stands; the number of flows if there is none.
pub open spec fn flow_place(flows: Seq<UdpFlow>, remote: SocketAddr) -> int
    decreases flows.len(),
{
    if flows.len() == 0 {
        0
    } else if flows[0].remote == remote {
        0
    } else {
        1 + flow_place(flows.drop_first(), remote)
    }
}

/// Whether a datagram from `sender` is taken for one of the client: every one while no client is
/// known, and after that those from its address.
pub open spec fn admits(client: Option<SocketAddr>, sender: SocketAddr) -> bool {
    client is Some ==> client->0.spec_ip() == sender.spec_ip()
}

/// The address that a datagram goes to: the first one that can be used, if there is one.
pub open spec fn routed_to(addresses: Seq<SocketAddr>, pool: Pool) -> Option<SocketAddr> {
    if usable(addresses, pool).len() > 0 {
        Some(usable(addresses, pool)[0])
    } else {
        None
    }
}

/// What follows once the destination of a datagram was looked up.
#[derive(Debug)]
pub enum Route {
    /// The datagram is dropped: the line to log.
    Unresolved(String),
    /// The datagram goes out on this flow.
    Flow(usize),
    /// A flow to this endpoint is opened first.
    Bind(SocketAddr, BindPlan),
}

/// What is done for a new flow.
#[derive(Debug)]
pub struct OpenedFlow {
    pub line: String,
    pub opened: ConnectionOpened,
}

impl UdpAssociation {
    /// No two flows lead to the same endpoint, and no flow has moved more than can be counted.
    pub open spec fn wf(self) -> bool {
        &&& forall|i: int, j: int|
            0 <= i < j < self.flows@.len() ==> (#[trigger] self.flows@[i]).remote != (
            #[trigger] self.flows@[j]).remote
        &&& forall|i: int|
            0 <= i < self.flows@.len() ==> (#[trigger] self.flows@[i]).up_bytes
                + self.flows@[i].down_bytes <= u64::MAX
    }

    pub fn new(id: u64) -> (association: Self)
        ensures
            association.wf(),
            association.id == id,
            association.client is None,
            association.flows@.len() == 0,
    {
        UdpAssociation { id, client: None, flows: Vec::new() }
    }

    /// Whether the client may be the sender: the first sender is taken for the client, and after
    /// that only its address is admitted.
    pub fn udp_sender_allowed(&mut self, sender: SocketAddr) -> (allowed: bool)
        ensures
            allowed == admits(old(self).client, sender),
            allowed == (match old(self).client {
                Some(known) => known.spec_ip() == sender.spec_ip(),
                None => true,
            }),
            final(self).client == (match old(self).client {
                Some(known) => Some(known),
                None => Some(sender),
            }),
            final(self).id == old(self).id,
            final(self).flows == old(self).flows,
    {
        match self.client {
            Some(known) => known.ip() == sender.ip(),
            None => {
                self.client = Some(sender);
                true
            },
        }
    }

    /// Takes a datagram that arrived at the relay.
    pub fn receive<'a>(&mut self, sender: SocketAddr, datagram: &'a [u8]) -> (received: Received<
        'a,
    >)
        ensures
            final(self).id == old(self).id,
            final(self).flows == old(self).flows,
            final(self).client == (match old(self).client {
                Some(known) => Some(known),
                None => Some(sender),
            }),
            received is Ignored <==> !admits(old(self).client, sender),
            ({
                let allowed = match old(self).client {
                    Some(known) => known.spec_ip() == sender.spec_ip(),
                    None => true,
                };
                match received {
                    Received::Ignored => !allowed,
                    Received::Invalid(line) => {
                        &&& allowed
                        &&& parsed_frame(datagram@) is Err
                        &&& line@ == "#"@ + decimal(old(self).id as nat)
                            + " invalid UDP packet: "@ + parsed_frame(datagram@)->Err_0.words()
                    },
                    Received::Packet(packet) => {
                        &&& allowed
                        &&& parsed_frame(datagram@) is Ok
                        &&& packet.target@ == parsed_frame(datagram@)->Ok_0.0
                        &&& packet.payload@ == datagram@.skip(parsed_frame(datagram@)->Ok_0.1)
                    },
                }
            }),
    {
        if !self.udp_sender_allowed(sender) {
            return Received::Ignored;
        }
        match parse_udp_packet(datagram) {
            Ok(packet) => Received::Packet(packet),
            Err(error) => {
                let mut line: String = "#".to_owned();
                push_decimal(&mut line, self.id);
                line.append(" invalid UDP packet: ");
                line.append(error.message().as_str());
                Received::Invalid(line)
            },
        }
    }

    /// The flow to `remote`, if there is one.
    pub fn flow_to(&self, remote: SocketAddr) -> (found: Option<usize>)
        ensures
            match found {
                Some(i) => i < self.flows@.len() && i == flow_place(self.flows@, remote)
                    && self.flows@[i as int].remote == remote,
                None => flow_place(self.flows@, remote) == self.flows@.len() && forall|i: int|
                    0 <= i < self.flows@.len() ==> (#[trigger] self.flows@[i]).remote != remote,
            },
    {
        let mut i: usize = 0;
        assert(self.flows@.skip(0) =~= self.flows@);
        while i < self.flows.len()
            invariant
                i <= self.flows@.len(),
                flow_place(self.flows@, remote) == i + flow_place(
                    self.flows@.skip(i as int),
                    remote,
                ),
                forall|j: int| 0 <= j < i ==> (#[trigger] self.flows@[j]).remote != remote,
            decreases self.flows@.len() - i,
        {
            assert(self.flows@.skip(i as int).drop_first() =~= self.flows@.skip(i + 1));
            if self.flows[i].remote == remote {
                return Some(i);
            }
            i += 1;
        }
        None
    }

    /// Where a datagram goes: on the flow to the first address of its destination, or on a new
    /// one. `found` holds the addresses of a name, and nothing where they could not be looked up
    /// or the destination is no name.
    pub fn route(
        &self,
        target: &SocksTarget,
        found: Option<Vec<SocketAddr>>,
        pool: &mut WeightedPool,
    ) -> (route: Route)
        requires
            old(pool).wf(),
        ensures
            final(pool).wf(),
            ({
                let known = addresses_of(
                    target@,
                    match found {
                        Some(list) => Some(list@),
                        None => None,
                    },
                );
                let to = match route {
                    Route::Unresolved(_) => None,
                    Route::Flow(i) => Some(self.flows@[i as int].remote),
                    Route::Bind(remote, _) => Some(remote),
                };
                &&& known is Some ==> to == routed_to(known->0, old(pool)@)
                &&& known is None ==> to is None
            }),
            ({
                let known = addresses_of(
                    target@,
                    match found {
                        Some(list) => Some(list@),
                        None => None,
                    },
                );
                let addresses = usable(known->0, old(pool)@);
                if known is None || addresses.len() == 0 {
                    &&& final(pool)@ == old(pool)@
                    &&& route matches Route::Unresolved(line) && line@ == "#"@ + decimal(
                        self.id as nat,
                    ) + " UDP resolve failed: "@ + (if known is None {
                        unresolved_words(target@)
                    } else {
                        "target has no address matching the selected adapter families"@
                    })
                } else if flow_place(self.flows@, addresses[0]) < self.flows@.len() {
                    &&& final(pool)@ == old(pool)@
                    &&& route matches Route::Flow(i) && i == flow_place(self.flows@, addresses[0])
                        && self.flows@[i as int].remote == addresses[0]
                } else {
                    &&& route matches Route::Bind(remote, plan)
                    &&& remote == addresses[0]
                    &&& plan.tried == 0
                    &&& flow_place(self.flows@, remote) == self.flows@.len()
                    &&& old(pool)@.orders(remote.spec_ip(), plan.candidates@, final(pool)@)
                }
            }),
    {
        match resolve_target(target, found, pool) {
            Err(error) => Route::Unresolved(resolve_failed_line(self.id, error.as_str())),
            Ok(addresses) => {
                let remote: SocketAddr = addresses[0];
                match self.flow_to(remote) {
                    Some(flow) => Route::Flow(flow),
                    None => Route::Bind(remote, BindPlan::new(pool.ordered_for(remote.ip()))),
                }
            },
        }
    }

    /// Opens a flow from the client at `sender` to `remote` through `selected`. The pool counts it
    /// from now on.
    pub fn open_flow(
        &mut self,
        sender: SocketAddr,
        remote: SocketAddr,
        selected: &EgressTarget,
        now: Moment,
        pool: &mut WeightedPool,
    ) -> (out: OpenedFlow)
        requires
            old(self).wf(),
            flow_place(old(self).flows@, remote) == old(self).flows@.len(),
            old(pool).wf(),
            old(pool)@.can_open(remote.spec_ip(), selected.ip),
        ensures
            final(pool).wf(),
            final(pool)@ == old(pool)@.opened(remote.spec_ip(), selected.ip),
            final(self).wf(),
            final(self).id == old(self).id,
            final(self).client == old(self).client,
            final(self).flows@ == old(self).flows@.push(
                (UdpFlow { remote, egress_ip: selected.ip, up_bytes: 0, down_bytes: 0 }),
            ),
            out.line@ == "#"@ + decimal(old(self).id as nat) + " UDP "@ + socket_text(remote)
                + " via "@ + selected.name@ + " ("@ + ip_text(selected.ip) + ")"@,
            out.opened.id@ == flow_id(old(self).id, remote),
            out.opened.protocol == ConnectionProtocol::Udp,
            out.opened.client == sender,
            out.opened.target@ == socket_text(remote),
            out.opened.egress_name@ == selected.name@,
            out.opened.egress_ip == selected.ip,
            out.opened.opened_at == now,
    {
        proof {
            lemma_no_flow(self.flows@, remote);
        }
        pool.record_open(remote.ip(), selected.ip);
        let mut line: String = "#".to_owned();
        push_decimal(&mut line, self.id);
        line.append(" UDP ");
        push_socket(&mut line, remote);
        line.append(" via ");
        line.append(selected.name.as_str());
        line.append(" (");
        push_ip(&mut line, selected.ip);
        line.append(")");
        self.flows.push(
            UdpFlow { remote, egress_ip: selected.ip, up_bytes: 0, down_bytes: 0 },
        );
        OpenedFlow {
            line,
            opened: ConnectionOpened {
                id: udp_flow_id(self.id, remote),
                protocol: ConnectionProtocol::Udp,
                client: sender,
                target: remote.to_text(),
                egress_name: selected.name.clone(),
                egress_ip: selected.ip,
                opened_at: now,
            },
        }
    }

    /// Whether `bytes` more can be counted on a flow.
    pub fn may_count(&self, flow: usize, bytes: u64) -> (may: bool)
        requires
            self.wf(),
            flow < self.flows@.len(),
        ensures
            may == (self.flows@[flow as int].up_bytes + self.flows@[flow as int].down_bytes + bytes
                <= u64::MAX),
    {
        let entry: UdpFlow = self.flows[flow];
        bytes <= u64::MAX - (entry.up_bytes + entry.down_bytes)
    }

    /// Counts a datagram of `bytes` that was sent to the remote end, and reports the flow.
    pub fn sent(&mut self, flow: usize, bytes: u64, pool: &mut WeightedPool) -> (report:
        ConnectionUpdated)
        requires
            old(pool).wf(),
            old(self).wf(),
            flow < old(self).flows@.len(),
            old(self).flows@[flow as int].up_bytes + old(self).flows@[flow as int].down_bytes
                + bytes <= u64::MAX,
        ensures
            final(pool).wf(),
            final(pool)@ == old(pool)@.transferred(
                old(self).flows@[flow as int].remote.spec_ip(),
                old(self).flows@[flow as int].egress_ip,
                bytes,
            ),
            final(self).wf(),
            final(self).id == old(self).id,
            final(self).client == old(self).client,
            final(self).flows@ == old(self).flows@.update(
                flow as int,
                (UdpFlow {
                    up_bytes: (old(self).flows@[flow as int].up_bytes + bytes) as u64,
                    ..old(self).flows@[flow as int]
                }),
            ),
            report.id@ == flow_id(old(self).id, old(self).flows@[flow as int].remote),
            report.up_bytes == old(self).flows@[flow as int].up_bytes + bytes,
            report.down_bytes == old(self).flows@[flow as int].down_bytes,
    {
        let mut entry: UdpFlow = self.flows[flow];
        entry.up_bytes = entry.up_bytes + bytes;
        self.flows.set(flow, entry);
        pool.record_transfer(entry.remote.ip(), entry.egress_ip, bytes);
        ConnectionUpdated {
            id: udp_flow_id(self.id, entry.remote),
            up_bytes: entry.up_bytes,
            down_bytes: entry.down_bytes,
        }
    }

    /// Counts a datagram of `bytes` that was handed to the client, and reports the flow.
    pub fn delivered(&mut self, flow: usize, bytes: u64, pool: &mut WeightedPool) -> (report:
        ConnectionUpdated)
        requires
            old(pool).wf(),
            old(self).wf(),
            flow < old(self).flows@.len(),
            old(self).flows@[flow as int].up_bytes + old(self).flows@[flow as int].down_bytes
                + bytes <= u64::MAX,
        ensures
            final(pool).wf(),
            final(pool)@ == old(pool)@.transferred(
                old(self).flows@[flow as int].remote.spec_ip(),
                old(self).flows@[flow as int].egress_ip,
                bytes,
            ),
            final(self).wf(),
            final(self).id == old(self).id,
            final(self).client == old(self).client,
            final(self).flows@ == old(self).flows@.update(
                flow as int,
                (UdpFlow {
                    down_bytes: (old(self).flows@[flow as int].down_bytes + bytes) as u64,
                    ..old(self).flows@[flow as int]
                }),
            ),
            report.id@ == flow_id(old(self).id, old(self).flows@[flow as int].remote),
            report.up_bytes == old(self).flows@[flow as int].up_bytes,
            report.down_bytes == old(self).flows@[flow as int].down_bytes + bytes,
    {
        let mut entry: UdpFlow = self.flows[flow];
        entry.down_bytes = entry.down_bytes + bytes;
        self.flows.set(flow, entry);
        pool.record_transfer(entry.remote.ip(), entry.egress_ip, bytes);
        ConnectionUpdated {
            id: udp_flow_id(self.id, entry.remote),
            up_bytes: entry.up_bytes,
            down_bytes: entry.down_bytes,
        }
    }

    /// The frame for a datagram from `remote` and the client it goes to; nothing while the client
    /// is not known.
    pub fn respond(&self, remote: SocketAddr, payload: &[u8]) -> (out: Option<
        (SocketAddr, Vec<u8>),
    >)
        ensures
            out is Some <==> self.client is Some,
            out matches Some((client, frame)) ==> Some(client) == self.client && frame@
                == frame_bytes(remote, payload@),
    {
        match self.client {
            Some(client) => Some((client, build_udp_packet(remote, payload))),
            None => None,
        }
    }

    /// Ends every flow: what each of them moved is taken off the pool, and its end is reported.
    pub fn close_all(&mut self, now: Moment, pool: &mut WeightedPool) -> (out: Vec<
        ConnectionClosed,
    >)
        requires
            old(self).wf(),
            old(pool).wf(),
        ensures
            final(pool).wf(),
            final(pool)@ == pool_without(old(pool)@, old(self).flows@),
            final(self).wf(),
            final(self).id == old(self).id,
            final(self).client == old(self).client,
            final(self).flows@.len() == 0,
            out@.len() == old(self).flows@.len(),
            forall|i: int|
                0 <= i < out@.len() ==> closes(
                    #[trigger] out@[i],
                    old(self).id,
                    old(self).flows@[i],
                    now,
                ),
    {
        let mut out: Vec<ConnectionClosed> = Vec::new();
        let mut i: usize = 0;
        let ghost flows = self.flows@;
        assert(flows.take(0) =~= Seq::empty());
        while i < self.flows.len()
            invariant
                self.wf(),
                pool.wf(),
                self.id == old(self).id,
                self.client == old(self).client,
                self.flows@ == flows,
                flows == old(self).flows@,
                i <= flows.len(),
                pool@ == pool_without(old(pool)@, flows.take(i as int)),
                out@.len() == i,
                forall|k: int|
                    0 <= k < i ==> closes(#[trigger] out@[k], self.id, self.flows@[k], now),
            decreases flows.len() - i,
        {
            let flow: UdpFlow = self.flows[i];
            proof {
                assert(flows.take(i + 1).drop_last() =~= flows.take(i as int));
                assert(flows.take(i + 1).last() == flow);
            }
            pool.record_close(flow.remote.ip(), flow.egress_ip, flow.up_bytes + flow.down_bytes);
            out.push(
                ConnectionClosed {
                    id: udp_flow_id(self.id, flow.remote),
                    up_bytes: flow.up_bytes,
                    down_bytes: flow.down_bytes,
                    reason: "UDP association closed".to_owned(),
                    closed_at: now,
                },
            );
            i += 1;
        }
        assert(flows.take(i as int) =~= flows);
        self.flows = Vec::new();
        out
    }
}

/// The pool after the flows were closed.
pub open spec fn pool_without(pool: Pool, flows: Seq<UdpFlow>) -> Pool
    decreases flows.len(),
{
    if flows.len() == 0 {
        pool
    } else {
        let flow = flows.last();
        pool_without(pool, flows.drop_last()).closed(
            flow.remote.spec_ip(),
            flow.egress_ip,
            (flow.up_bytes + flow.down_bytes) as u64,
        )
    }
}

/// Whether `out` is what is reported of the end of `flow`.
pub open spec fn closes(out: ConnectionClosed, id: u64, flow: UdpFlow, now: Moment) -> bool {
    &&& out.id@ == flow_id(id, flow.remote)
    &&& out.up_bytes == flow.up_bytes
    &&& out.down_bytes == flow.down_bytes
    &&& out.reason@ == "UDP association closed"@
    &&& out.closed_at == now
}

/// Where no flow is found there is none.
proof fn lemma_no_flow(flows: Seq<UdpFlow>, remote: SocketAddr)
    requires
        flow_place(flows, remote) == flows.len(),
    ensures
        forall|i: int| 0 <= i < flows.len() ==> (#[trigger] flows[i]).remote != remote,
    decreases flows.len(),
{
    if flows.len() > 0 {
        lemma_no_flow(flows.drop_first(), remote);
        assert forall|i: int| 0 <= i < flows.len() implies (#[trigger] flows[i]).remote
            != remote by {
            if i > 0 {
                assert(flows[i] == flows.drop_first()[i - 1]);
            }
        }
    }
}

// ---------------------------------------------------------------------
// Binding a new flow
// ---------------------------------------------------------------------

/// The targets through which a new flow may leave, tried in turn until one can be bound.
#[derive(Debug)]
pub struct BindPlan {
    pub candidates: Vec<EgressTarget>,
    pub tried: usize,
}

impl BindPlan {
    pub fn new(candidates: Vec<EgressTarget>) -> (plan: Self)
        ensures
            plan.candidates@ == candidates@,
            plan.tried == 0,
    {
        BindPlan { candidates, tried: 0 }
    }

    /// Whether `target` is what is tried next, and `after` is the plan from then on.
    pub open spec fn offers(self, after: BindPlan, target: Option<EgressTarget>) -> bool {
        &&& after.candidates@ == self.candidates@
        &&& if self.tried < self.candidates@.len() {
            target == Some(self.candidates@[self.tried as int]) && after.tried == self.tried + 1
        } else {
            target is None && after.tried == self.tried
        }
    }

    /// The next target, if one is left.
    pub fn next(&mut self) -> (target: Option<EgressTarget>)
        requires
            old(self).tried <= old(self).candidates@.len(),
        ensures
            final(self).tried <= final(self).candidates@.len(),
            final(self).candidates@ == old(self).candidates@,
            target is Some <==> old(self).tried < old(self).candidates@.len(),
            target matches Some(found) ==> found == old(self).candidates@[old(self).tried as int]
                && final(self).tried == old(self).tried + 1,
            target is None ==> final(self).tried == old(self).tried,
            old(self).offers(*final(self), target),
    {
        if self.tried < self.candidates.len() {
            let target: EgressTarget = self.candidates[self.tried].clone();
            self.tried += 1;
            Some(target)
        } else {
            None
        }
    }
}

// ---------------------------------------------------------------------
// Lines
// ---------------------------------------------------------------------

fn line_for(id: u64, words: &str) -> (line: String)
    ensures
        line@ == "#"@ + decimal(id as nat) + words@,
{
    let mut line: String = "#".to_owned();
    push_decimal(&mut line, id);
    line.append(words);
    line
}

pub fn listening_line(id: u64, relay: SocketAddr, peer: SocketAddr) -> (line: String)
    ensures
        line@ == "#"@ + decimal(id as nat) + " UDP relay listening on "@ + socket_text(relay)
            + " for "@ + socket_text(peer),
{
    let mut line: String = line_for(id, " UDP relay listening on ");
    push_socket(&mut line, relay);
    line.append(" for ");
    push_socket(&mut line, peer);
    line
}

pub fn control_failed_line(id: u64, error: &str) -> (line: String)
    ensures
        line@ == "#"@ + decimal(id as nat) + " UDP control connection error: "@ + error@,
{
    let mut line: String = line_for(id, " UDP control connection error: ");
    line.append(error);
    line
}

pub fn association_closed_line(id: u64) -> (line: String)
    ensures
        line@ == "#"@ + decimal(id as nat) + " UDP association closed"@,
{
    line_for(id, " UDP association closed")
}

pub fn resolve_failed_line(id: u64, error: &str) -> (line: String)
    ensures
        line@ == "#"@ + decimal(id as nat) + " UDP resolve failed: "@ + error@,
{
    let mut line: String = line_for(id, " UDP resolve failed: ");
    line.append(error);
    line
}

pub fn bind_failed_line(id: u64, candidate: &EgressTarget, error: &str) -> (line: String)
    ensures
        line@ == "#"@ + decimal(id as nat) + " failed to bind UDP via "@ + candidate.name@ + " ("@
            + ip_text(candidate.ip) + "): "@ + error@,
{
    let mut line: String = line_for(id, " failed to bind UDP via ");
    line.append(candidate.name.as_str());
    line.append(" (");
    push_ip(&mut line, candidate.ip);
    line.append("): ");
    line.append(error);
    line
}

pub fn send_failed_line(id: u64, remote: SocketAddr, error: &str) -> (line: String)
    ensures
        line@ == "#"@ + decimal(id as nat) + " UDP send to "@ + socket_text(remote) + " failed: "@
            + error@,
{
    let mut line: String = line_for(id, " UDP send to ");
    push_socket(&mut line, remote);
    line.append(" failed: ");
    line.append(error);
    line
}

pub fn receive_failed_line(id: u64, remote: SocketAddr, error: &str) -> (line: String)
    ensures
        line@ == "#"@ + decimal(id as nat) + " UDP receive from "@ + socket_text(remote)
            + " failed: "@ + error@,
{
    let mut line: String = line_for(id, " UDP receive from ");
    push_socket(&mut line, remote);
    line.append(" failed: ");
    line.append(error);
    line
}

pub fn client_send_failed_line(id: u64, error: &str) -> (line: String)
    ensures
        line@ == "#"@ + decimal(id as nat) + " UDP send to client failed: "@ + error@,
{
    let mut line: String = line_for(id, " UDP send to client failed: ");
    line.append(error);
    line
}

// ---------------------------------------------------------------------
// Laws
// ---------------------------------------------------------------------

/// A flow that was opened is found again, and so are those that were open before.
pub proof fn law_opened_flow_is_found(flows: Seq<UdpFlow>, flow: UdpFlow)
    requires
        flow_place(flows, flow.remote) == flows.len(),
    ensures
        flow_place(flows.push(flow), flow.remote) == flows.len(),
        forall|other: SocketAddr| #[trigger]
            flow_place(flows, other) < flows.len() ==> flow_place(flows.push(flow), other)
                == flow_place(flows, other),
    decreases flows.len(),
{
    let longer = flows.push(flow);
    if flows.len() == 0 {
        assert(longer.drop_first() =~= Seq::empty());
    } else {
        let rest = flows.drop_first();
        assert(longer.drop_first() =~= rest.push(flow));
        law_opened_flow_is_found(rest, flow);
        assert forall|other: SocketAddr| #[trigger]
            flow_place(flows, other) < flows.len() implies flow_place(longer, other) == flow_place(
            flows,
            other,
        ) by {
            if flows[0].remote != other {
                assert(flow_place(rest, other) < rest.len());
            }
        }
    }
}

/// A flow that is opened, used in both directions and closed leaves the pool as it was, unless a
/// counter of bytes was full: the load of every address is what it was, and so are the cursors,
/// the hosts that are held and the number of open connections of each. At most its own host, where
/// it was held before, is held to another address than it was. The other family is not touched.
pub proof fn law_flow_leaves_no_load(pool: Pool, flow: UdpFlow, index: int)
    requires
        pool.side(flow.remote.spec_ip()).wf(),
        pool.can_open(flow.remote.spec_ip(), flow.egress_ip),
        position_of(pool.side(flow.remote.spec_ip()).entries, flow.egress_ip) == Some(index),
        pool.side(flow.remote.spec_ip()).entries[index].active_bytes + flow.up_bytes
            + flow.down_bytes <= u64::MAX,
    ensures
        ({
            let ip = flow.remote.spec_ip();
            let used = pool.opened(ip, flow.egress_ip).transferred(
                ip,
                flow.egress_ip,
                flow.up_bytes,
            ).transferred(ip, flow.egress_ip, flow.down_bytes);
            let after = pool_without(used, seq![flow]);
            &&& as_before(pool.v4, after.v4, ip)
            &&& as_before(pool.v6, after.v6, ip)
            &&& after == pool.with_side(ip, pool.side(ip).moved(ip, index, pool.strategy))
        }),
{
    let ip = flow.remote.spec_ip();
    let egress = flow.egress_ip;
    let bytes = (flow.up_bytes + flow.down_bytes) as u64;
    let state = pool.side(ip);
    let opened = state.opened(ip, egress, pool.strategy);
    lemma_position(state.entries, egress);
    lemma_same_position(state.entries, opened.entries, egress);
    lemma_transfers_add_up(opened, egress, flow.up_bytes, flow.down_bytes);
    law_close_undoes_open_and_transfer(state, ip, egress, bytes, pool.strategy, index);
    let used = pool.opened(ip, egress).transferred(ip, egress, flow.up_bytes).transferred(
        ip,
        egress,
        flow.down_bytes,
    );
    assert(seq![flow].drop_last() =~= Seq::empty());
    assert(pool_without(used, Seq::empty()) == used);
    assert(pool_without(used, seq![flow]) == used.closed(ip, egress, bytes));
}

/// A flow is found where one leads to the endpoint, and it is the first such one.
pub proof fn law_flows_are_found(flows: Seq<UdpFlow>, remote: SocketAddr)
    ensures
        0 <= flow_place(flows, remote) <= flows.len(),
        flow_place(flows, remote) < flows.len() ==> flows[flow_place(flows, remote)].remote
            == remote,
        flow_place(flows, remote) == flows.len() <==> forall|i: int|
            0 <= i < flows.len() ==> (#[trigger] flows[i]).remote != remote,
        forall|i: int|
            0 <= i < flow_place(flows, remote) ==> (#[trigger] flows[i]).remote != remote,
    decreases flows.len(),
{
    if flows.len() > 0 {
        let rest = flows.drop_first();
        law_flows_are_found(rest, remote);
        assert forall|i: int| 1 <= i < flows.len() implies #[trigger] flows[i] == rest[i - 1] by {}
        if flows[0].remote != remote {
            let at = flow_place(rest, remote);
            if at < rest.len() {
                assert(flows[at + 1] == rest[at]);
            }
            assert forall|i: int| 0 <= i < flow_place(flows, remote) implies (
            #[trigger] flows[i]).remote != remote by {
                if i > 0 {
                    assert(rest[i - 1].remote != remote);
                }
            }
            if forall|i: int| 0 <= i < flows.len() ==> (#[trigger] flows[i]).remote != remote {
                assert forall|i: int| 0 <= i < rest.len() implies (#[trigger] rest[i]).remote
                    != remote by {
                    assert(flows[i + 1].remote != remote);
                }
            }
        }
    }
}

/// The end of a flow is reported with what it has moved in each direction.
pub proof fn law_end_of_a_flow_is_reported(
    out: ConnectionClosed,
    id: u64,
    flow: UdpFlow,
    now: Moment,
)
    requires
        closes(out, id, flow, now),
    ensures
        out.id@ == decimal(id as nat) + "/udp/"@ + socket_text(flow.remote),
        out.up_bytes == flow.up_bytes,
        out.down_bytes == flow.down_bytes,
        out.closed_at == now,
        out.reason@ == "UDP association closed"@,
{
}

/// Closing flows takes each of them off the pool with all that it has moved, one after the other.
pub proof fn law_each_flow_is_closed(pool: Pool, flows: Seq<UdpFlow>, flow: UdpFlow)
    ensures
        pool_without(pool, Seq::empty()) == pool,
        pool_without(pool, flows.push(flow)) == pool_without(pool, flows).closed(
            match flow.remote {
                SocketAddr::V4(v4) => IpAddr::V4(v4.ip),
                SocketAddr::V6(v6) => IpAddr::V6(v6.ip),
            },
            flow.egress_ip,
            (flow.up_bytes + flow.down_bytes) as u64,
        ),
{
    assert(flows.push(flow).drop_last() =~= flows);
}

/// Until a client is known every sender is heard; then its port may change but not its address,
/// which is compared as a whole.
pub proof fn law_only_the_client_is_heard(known: SocketAddr, sender: SocketAddr)
    ensures
        admits(None, sender),
        admits(Some(known), known),
        known is V4 != sender is V4 ==> !admits(Some(known), sender),
        (known matches SocketAddr::V4(x) && sender matches SocketAddr::V4(y) && x.ip != y.ip)
            ==> !admits(Some(known), sender),
        (known matches SocketAddr::V4(x) && sender matches SocketAddr::V4(y) && x.ip == y.ip)
            ==> admits(Some(known), sender),
        (known matches SocketAddr::V6(x) && sender matches SocketAddr::V6(y) && x.ip != y.ip)
            ==> !admits(Some(known), sender),
        (known matches SocketAddr::V6(x) && sender matches SocketAddr::V6(y) && x.ip == y.ip)
            ==> admits(Some(known), sender),
{
}

/// A plan for binding offers its targets one after the other, each of them once, and is at its end
/// only when the last one was offered. `plans[k]` is the plan when it is asked for the time `k`,
/// and `targets[k]` the answer.
pub proof fn law_every_target_is_offered(
    plans: Seq<BindPlan>,
    targets: Seq<Option<EgressTarget>>,
    k: int,
)
    requires
        plans.len() == targets.len() + 1,
        plans[0].tried == 0,
        forall|i: int|
            0 <= i < targets.len() ==> (#[trigger] plans[i]).offers(plans[i + 1], targets[i]),
        0 <= k < targets.len(),
    ensures
        k < plans[0].candidates@.len() ==> targets[k] == Some(plans[0].candidates@[k]),
        k >= plans[0].candidates@.len() ==> targets[k] is None,
{
    lemma_offered_so_far(plans, targets, k);
    assert(plans[k].offers(plans[k + 1], targets[k]));
}

proof fn lemma_offered_so_far(plans: Seq<BindPlan>, targets: Seq<Option<EgressTarget>>, k: int)
    requires
        plans.len() == targets.len() + 1,
        plans[0].tried == 0,
        forall|i: int|
            0 <= i < targets.len() ==> (#[trigger] plans[i]).offers(plans[i + 1], targets[i]),
        0 <= k < targets.len(),
    ensures
        plans[k].candidates@ == plans[0].candidates@,
        plans[k].tried == (if k < plans[0].candidates@.len() {
            k
        } else {
            plans[0].candidates@.len() as int
        }),
    decreases k,
{
    if k > 0 {
        lemma_offered_so_far(plans, targets, k - 1);
        assert(plans[k - 1].offers(plans[k], targets[k - 1]));
    }
}

proof fn lemma_first_kept(
    addresses: Seq<SocketAddr>,
    keeps: spec_fn(SocketAddr) -> bool,
    at: int,
)
    requires
        0 <= at < addresses.len(),
        keeps(addresses[at]),
        forall|i: int| 0 <= i < at ==> !keeps(#[trigger] addresses[i]),
    ensures
        addresses.filter(keeps).len() > 0,
        addresses.filter(keeps)[0] == addresses[at],
    decreases addresses.len(),
{
    reveal(Seq::filter);
    let front = addresses.drop_last();
    if at < front.len() {
        assert forall|i: int| 0 <= i < at implies !keeps(#[trigger] front[i]) by {
            assert(front[i] == addresses[i]);
        }
        lemma_first_kept(front, keeps, at);
    } else {
        assert forall|i: int| 0 <= i < front.len() implies !keeps(#[trigger] front[i]) by {
            assert(front[i] == addresses[i]);
        }
        lemma_none_kept(front, keeps);
    }
}

proof fn lemma_none_kept(addresses: Seq<SocketAddr>, keeps: spec_fn(SocketAddr) -> bool)
    requires
        forall|i: int| 0 <= i < addresses.len() ==> !keeps(#[trigger] addresses[i]),
    ensures
        addresses.filter(keeps).len() == 0,
    decreases addresses.len(),
{
    reveal(Seq::filter);
    if addresses.len() > 0 {
        let front = addresses.drop_last();
        assert forall|i: int| 0 <= i < front.len() implies !keeps(#[trigger] front[i]) by {
            assert(front[i] == addresses[i]);
        }
        assert(!keeps(addresses[addresses.len() - 1]));
        lemma_none_kept(front, keeps);
    }
}

/// A datagram goes to the first address of version 4 where the pool has a target of that version.
/// Without such an address it goes to the first one of version 6 where the pool has a target of
/// that one, and otherwise nowhere.
pub proof fn law_datagrams_go_to_the_first_address(
    addresses: Seq<SocketAddr>,
    pool: Pool,
    at: int,
)
    ensures
        0 <= at < addresses.len() && addresses[at] is V4 && pool.v4.entries.len() > 0 && (forall|
            i: int,
        |
            0 <= i < at ==> !(#[trigger] addresses[i] is V4)) ==> routed_to(addresses, pool)
            == Some(addresses[at]),
        0 <= at < addresses.len() && addresses[at] is V6 && pool.v6.entries.len() > 0 && (forall|
            i: int,
        |
            0 <= i < at ==> !(#[trigger] addresses[i] is V6)) && (pool.v4.entries.len() == 0 || (
        forall|i: int| 0 <= i < addresses.len() ==> !(#[trigger] addresses[i] is V4)))
            ==> routed_to(addresses, pool) == Some(addresses[at]),
        (forall|i: int|
            0 <= i < addresses.len() ==> (match #[trigger] addresses[i] {
                SocketAddr::V4(_) => pool.v4.entries.len() == 0,
                SocketAddr::V6(_) => pool.v6.entries.len() == 0,
            })) ==> routed_to(addresses, pool) is None,
{
    let fourth = |addr: SocketAddr| addr is V4 && reachable(pool, addr);
    let sixth = |addr: SocketAddr| addr is V6 && reachable(pool, addr);
    assert(usable(addresses, pool) == addresses.filter(fourth) + addresses.filter(sixth));
    if 0 <= at < addresses.len() && addresses[at] is V4 && pool.v4.entries.len() > 0 && (forall|
        i: int,
    |
        0 <= i < at ==> !(#[trigger] addresses[i] is V4)) {
        lemma_first_kept(addresses, fourth, at);
    }
    if pool.v4.entries.len() == 0 || (forall|i: int|
        0 <= i < addresses.len() ==> !(#[trigger] addresses[i] is V4)) {
        lemma_none_kept(addresses, fourth);
        if 0 <= at < addresses.len() && addresses[at] is V6 && pool.v6.entries.len() > 0 && (forall|
            i: int,
        |
            0 <= i < at ==> !(#[trigger] addresses[i] is V6)) {
            lemma_first_kept(addresses, sixth, at);
        }
    }
    if forall|i: int|
        0 <= i < addresses.len() ==> (match #[trigger] addresses[i] {
            SocketAddr::V4(_) => pool.v4.entries.len() == 0,
            SocketAddr::V6(_) => pool.v6.entries.len() == 0,
        }) {
        lemma_none_kept(addresses, fourth);
        lemma_none_kept(addresses, sixth);
    }
}

} // verus!
