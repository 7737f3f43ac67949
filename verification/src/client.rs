//! The session of a client: from its greeting to the end of its connection.
//!
//! A session asks for one piece of outside work at a time and goes on with what comes of it.

use vstd::prelude::*;

use crate::adapter::EgressTarget;
use crate::addr::{ip_text, IpAddr, SocketAddr};
use crate::connect::{
    addresses_of, advances, failure_words, law_step_of_a_plan, law_usable_addresses,
    resolve_target, usable, AttemptFailure, ConnectPlan, ConnectStep,
};
use crate::pool::{
    as_before, law_close_undoes_open_and_transfer, position_of, Pool, WeightedPool,
};
use crate::proxy::{
    bound_endpoint, connect_failed, dispatch, ended, established, success_reply, ConnectionClosed,
    ConnectionOpened, ConnectionProtocol, Ended, Established, Moment, Service,
};
use crate::socks::{
    advance, advanced, destination_text, reply_bytes, zero_endpoint, Destination, Outcome,
    SessionOutcome, SessionStage, SessionStep, SocksCommand, SocksTarget,
};
use crate::text::decimal;

verus! {

/// Where a session stands.
#[derive(Debug)]
pub enum ClientState {
    /// The client is to send what the stage needs.
    Reading(SessionStage),
    /// An answer to the greeting is on its way; then the outcome holds.
    Answering(SessionOutcome),
    /// A refusal is on its way; then the session ends with the message. Whether it arrives is of
    /// no matter where the flag is set.
    Refusing(String, bool),
    /// The addresses of the target are looked up.
    Resolving(SocksTarget),
    /// The target is tried through an egress address.
    Connecting(SocksTarget, ConnectPlan, EgressTarget, SocketAddr),
    /// The client is told that the target at that address is reached through the egress address.
    Announcing(SocksTarget, EgressTarget, IpAddr),
    /// Bytes are relayed between the client and the target.
    Relaying(IpAddr, IpAddr),
    /// Datagrams are relayed.
    Associated,
    Over,
}

/// The session of the client with number `id` at `peer`.
#[derive(Debug)]
pub struct ClientSession {
    pub id: u64,
    pub peer: SocketAddr,
    pub udp_enabled: bool,
    pub state: ClientState,
}

/// The outside work that a session waits for.
#[derive(Debug)]
pub enum ClientAction {
    /// Read that many bytes from the client.
    Read(usize),
    /// Send these bytes to the client.
    Write(Vec<u8>),
    /// Look up the name, if there is one.
    Resolve(Option<(String, u16)>),
    /// Connect to the endpoint through the egress address.
    Connect(EgressTarget, SocketAddr),
    /// Report the connection, log the line, and relay.
    Relay(ConnectionOpened, String),
    /// Set up a relay for datagrams.
    Associate,
    /// Log the line and report the end of the connection.
    Finish(String, ConnectionClosed),
    /// The session failed with this message.
    Fail(String),
}

impl ClientSession {
    /// Whether both sessions are of the same client.
    pub open spec fn same_client(self, other: ClientSession) -> bool {
        self.id == other.id && self.peer == other.peer && self.udp_enabled == other.udp_enabled
    }

    /// Begins a session: the client greets first.
    pub fn begin(id: u64, peer: SocketAddr, udp_enabled: bool) -> (out: (Self, ClientAction))
        ensures
            out.0 == (ClientSession {
                id,
                peer,
                udp_enabled,
                state: ClientState::Reading(SessionStage::Greeting),
            }),
            out.1 == ClientAction::Read(2),
    {
        (
            ClientSession {
                id,
                peer,
                udp_enabled,
                state: ClientState::Reading(SessionStage::Greeting),
            },
            ClientAction::Read(2),
        )
    }

    fn with_state(self, state: ClientState) -> (session: Self)
        ensures
            session.same_client(self),
            session.state == state,
    {
        ClientSession { id: self.id, peer: self.peer, udp_enabled: self.udp_enabled, state }
    }

    /// What follows once the outcome of a stage holds: more is read, the request is served, or the
    /// session fails.
    pub open spec fn goes_on(
        self,
        outcome: Outcome,
        after: ClientSession,
        action: ClientAction,
    ) -> bool {
        match outcome {
            Outcome::Read(stage) => after.state == ClientState::Reading(stage) && (
            action matches ClientAction::Read(count) && count == stage.needed()),
            Outcome::Failed(error) => after.state == ClientState::Over && (
            action matches ClientAction::Fail(message) && message@ == error.words()),
            Outcome::Request(SocksCommand::Connect, target) => {
                &&& after.state matches ClientState::Resolving(kept) && kept@ == target
                &&& action matches ClientAction::Resolve(name) && (match target {
                    Destination::Ip(_) => name is None,
                    Destination::Domain(host, port) => name matches Some((text, number)) && text@
                        == host && number == port,
                })
            },
            Outcome::Request(SocksCommand::UdpAssociate, _) => if self.udp_enabled {
                after.state == ClientState::Associated && action == ClientAction::Associate
            } else {
                self.refuses(7, "UDP ASSOCIATE disabled"@, false, after, action)
            },
            Outcome::Request(SocksCommand::Bind, _) => self.refuses(
                7,
                "SOCKS BIND is not supported"@,
                false,
                after,
                action,
            ),
        }
    }

    /// The client is sent a reply with the code; then the session ends with the message.
    pub open spec fn refuses(
        self,
        code: u8,
        message: Seq<char>,
        tolerant: bool,
        after: ClientSession,
        action: ClientAction,
    ) -> bool {
        &&& after.state matches ClientState::Refusing(text, flag) && text@ == message && flag
            == tolerant
        &&& action matches ClientAction::Write(reply) && reply@ == reply_bytes(
            code,
            zero_endpoint(Some(self.peer)),
        )
    }

    fn go_on(self, outcome: SessionOutcome) -> (out: (Self, ClientAction))
        ensures
            out.0.same_client(self),
            self.goes_on(outcome@, out.0, out.1),
    {
        match outcome {
            SessionOutcome::Read(stage) => {
                let count: usize = stage.bytes_needed();
                (self.with_state(ClientState::Reading(stage)), ClientAction::Read(count))
            },
            SessionOutcome::Failed(error) => {
                let message: String = error.message();
                (self.with_state(ClientState::Over), ClientAction::Fail(message))
            },
            SessionOutcome::Request(request) => {
                let udp_enabled: bool = self.udp_enabled;
                let peer: SocketAddr = self.peer;
                match dispatch(request, udp_enabled, peer) {
                    Service::Connect(target) => {
                        let name: Option<(String, u16)> = match &target {
                            SocksTarget::Ip(_) => None,
                            SocksTarget::Domain(host, port) => Some((host.clone(), *port)),
                        };
                        (
                            self.with_state(ClientState::Resolving(target)),
                            ClientAction::Resolve(name),
                        )
                    },
                    Service::Associate => (
                        self.with_state(ClientState::Associated),
                        ClientAction::Associate,
                    ),
                    Service::Refuse(reply, message) => (
                        self.with_state(ClientState::Refusing(message.to_owned(), false)),
                        ClientAction::Write(reply),
                    ),
                }
            },
        }
    }

    /// Takes the bytes that the client sent.
    pub fn on_bytes(self, bytes: &[u8]) -> (out: (Self, ClientAction))
        requires
            self.state matches ClientState::Reading(stage) && bytes@.len() == stage.needed(),
        ensures
            out.0.same_client(self),
            self.state matches ClientState::Reading(stage) ==> ({
                let (reply, outcome) = advanced(stage, bytes@);
                if reply.len() > 0 {
                    &&& out.0.state matches ClientState::Answering(kept) && kept@ == outcome
                    &&& out.1 matches ClientAction::Write(sent) && sent@ == reply
                } else {
                    self.goes_on(outcome, out.0, out.1)
                }
            }),
    {
        let stage: SessionStage = match &self.state {
            ClientState::Reading(stage) => *stage,
            _ => SessionStage::Greeting,
        };
        let step: SessionStep = advance(stage, bytes);
        if step.reply.len() > 0 {
            (
                self.with_state(ClientState::Answering(step.outcome)),
                ClientAction::Write(step.reply),
            )
        } else {
            self.go_on(step.outcome)
        }
    }

    /// Goes on once an answer to the greeting or a refusal was sent.
    pub fn on_written(self) -> (out: (Self, ClientAction))
        requires
            self.state is Answering || self.state is Refusing,
        ensures
            out.0.same_client(self),
            match self.state {
                ClientState::Answering(outcome) => self.goes_on(outcome@, out.0, out.1),
                ClientState::Refusing(message, _) => out.0.state == ClientState::Over && (
                out.1 matches ClientAction::Fail(text) && text@ == message@),
                _ => true,
            },
    {
        let ClientSession { id, peer, udp_enabled, state } = self;
        let rest: ClientSession = ClientSession {
            id,
            peer,
            udp_enabled,
            state: ClientState::Over,
        };
        match state {
            ClientState::Answering(outcome) => rest.go_on(outcome),
            ClientState::Refusing(message, _) => (rest, ClientAction::Fail(message)),
            _ => (rest, ClientAction::Fail(String::new())),
        }
    }

    /// Ends the session where bytes could not be sent to the client or read from it.
    pub fn on_io_error(self, error: &str) -> (out: (Self, ClientAction))
        ensures
            out.0.same_client(self),
            out.0.state == ClientState::Over,
            out.1 matches ClientAction::Fail(message) && message@ == (match self.state {
                ClientState::Refusing(text, true) => text@,
                _ => error@,
            }),
    {
        let ClientSession { id, peer, udp_enabled, state } = self;
        let rest: ClientSession = ClientSession {
            id,
            peer,
            udp_enabled,
            state: ClientState::Over,
        };
        match state {
            ClientState::Refusing(message, true) => (rest, ClientAction::Fail(message)),
            _ => (rest, ClientAction::Fail(error.to_owned())),
        }
    }

    /// What follows from a step of a plan: the next attempt, or the refusal of the request.
    pub open spec fn attempts(
        self,
        target: Destination,
        plan: ConnectPlan,
        step: ConnectStep,
        after: ClientSession,
        action: ClientAction,
    ) -> bool {
        match step {
            ConnectStep::Attempt(selected, remote) => {
                &&& after.state matches ClientState::Connecting(kept, next, chosen, addr)
                &&& kept@ == target
                &&& next == plan
                &&& chosen == selected
                &&& addr == remote
                &&& action == ClientAction::Connect(selected, remote)
            },
            ConnectStep::GiveUp(_) => self.refuses(
                4,
                "CONNECT "@ + destination_text(target) + " failed"@,
                true,
                after,
                action,
            ),
        }
    }

    fn attempt(self, target: SocksTarget, plan: ConnectPlan, step: ConnectStep) -> (out: (
        Self,
        ClientAction,
    ))
        ensures
            out.0.same_client(self),
            self.attempts(target@, plan, step, out.0, out.1),
    {
        match step {
            ConnectStep::Attempt(selected, remote) => {
                let chosen: EgressTarget = selected.clone();
                (
                    self.with_state(ClientState::Connecting(target, plan, selected, remote)),
                    ClientAction::Connect(chosen, remote),
                )
            },
            ConnectStep::GiveUp(_) => self.give_up(&target),
        }
    }

    fn give_up(self, target: &SocksTarget) -> (out: (Self, ClientAction))
        ensures
            out.0.same_client(self),
            self.refuses(
                4,
                "CONNECT "@ + destination_text(target@) + " failed"@,
                true,
                out.0,
                out.1,
            ),
    {
        let (reply, message): (Vec<u8>, String) = connect_failed(target, self.peer);
        (self.with_state(ClientState::Refusing(message, true)), ClientAction::Write(reply))
    }

    /// Goes on with what was looked up: `found` holds the addresses of a name, and nothing where
    /// they could not be looked up or the target is no name. A target that cannot be reached is
    /// answered with a failure.
    pub fn on_resolved(self, found: Option<Vec<SocketAddr>>, pool: &mut WeightedPool) -> (out: (
        Self,
        ClientAction,
    ))
        requires
            self.state is Resolving,
            old(pool).wf(),
        ensures
            out.0.same_client(self),
            final(pool).wf(),
            self.state matches ClientState::Resolving(target) ==> ({
                let known = addresses_of(
                    target@,
                    match found {
                        Some(list) => Some(list@),
                        None => None,
                    },
                );
                if known is None || usable(known->0, old(pool)@).len() == 0 {
                    &&& final(pool)@ == old(pool)@
                    &&& self.refuses(
                        4,
                        "CONNECT "@ + destination_text(target@) + " failed"@,
                        true,
                        out.0,
                        out.1,
                    )
                } else {
                    exists|plan: ConnectPlan, next: ConnectPlan, step: ConnectStep|
                        {
                            &&& plan.candidates@ == usable(known->0, old(pool)@)
                            &&& plan.fresh()
                            &&& #[trigger] advances(plan, next, old(pool)@, final(pool)@, step)
                            &&& next.wf()
                            &&& self.attempts(target@, next, step, out.0, out.1)
                        }
                }
            }),
            self.state matches ClientState::Resolving(target) ==> ({
                let some_way = match target {
                    SocksTarget::Ip(SocketAddr::V4(_)) => old(pool)@.v4.entries.len() > 0,
                    SocksTarget::Ip(SocketAddr::V6(_)) => old(pool)@.v6.entries.len() > 0,
                    SocksTarget::Domain(_, _) => found is Some && exists|i: int|
                        0 <= i < found->0@.len() && (match #[trigger] found->0@[i] {
                            SocketAddr::V4(_) => old(pool)@.v4.entries.len() > 0,
                            SocketAddr::V6(_) => old(pool)@.v6.entries.len() > 0,
                        }),
                };
                &&& some_way ==> out.0.state is Connecting && out.1 is Connect
                &&& !some_way ==> out.0.state is Refusing && out.1 is Write
            }),
    {
        let ClientSession { id, peer, udp_enabled, state } = self;
        let rest: ClientSession = ClientSession {
            id,
            peer,
            udp_enabled,
            state: ClientState::Over,
        };
        match state {
            ClientState::Resolving(target) => {
                let ghost known = addresses_of(
                    target@,
                    if found is Some {
                        Some(found->0@)
                    } else {
                        None
                    },
                );
                proof {
                    if known is Some {
                        lemma_some_way(known->0, pool@);
                        if target is Ip {
                            assert(known->0[0] == target->Ip_0);
                        }
                    }
                }
                match resolve_target(&target, found, pool) {
                    Ok(addresses) => {
                        let mut plan: ConnectPlan = ConnectPlan::new(addresses);
                        let ghost fresh = plan;
                        let ghost pool_before = pool@;
                        let step: ConnectStep = plan.next(pool);
                        assert(advances(fresh, plan, pool_before, pool@, step));
                        proof {
                            law_step_of_a_plan(fresh, plan, pool_before, pool@, step);
                            law_usable_addresses(known->0, pool_before, addresses@[0]);
                            assert(usable(known->0, pool_before).contains(addresses@[0]));
                            assert(fresh.candidates@[0] == addresses@[0]);
                        }
                        rest.attempt(target, plan, step)
                    },
                    Err(_) => rest.give_up(&target),
                }
            },
            _ => (rest, ClientAction::Fail(String::new())),
        }
    }

    /// Goes on after a failed attempt.
    pub fn on_attempt_failed(self, failure: &AttemptFailure, pool: &mut WeightedPool) -> (out: (
        Self,
        ClientAction,
    ))
        requires
            self.state matches ClientState::Connecting(_, plan, _, _) && plan.wf(),
            old(pool).wf(),
        ensures
            out.0.same_client(self),
            final(pool).wf(),
            self.state matches ClientState::Connecting(target, plan, selected, remote) ==> exists|
                noted: ConnectPlan,
                next: ConnectPlan,
                step: ConnectStep,
            |
                {
                    &&& noted.candidates@ == plan.candidates@
                    &&& noted.begun == plan.begun
                    &&& noted.selections@ == plan.selections@
                    &&& noted.tried == plan.tried
                    &&& noted.error_words() == failure_words(remote, selected, *failure)
                    &&& #[trigger] advances(noted, next, old(pool)@, final(pool)@, step)
                    &&& next.wf()
                    &&& self.attempts(target@, next, step, out.0, out.1)
                },
            self.state matches ClientState::Connecting(target, plan, selected, remote) ==> ({
                let some_way = plan.tried < plan.selections@.len() || exists|k: int|
                    plan.begun <= k < plan.candidates@.len() && (match #[trigger] plan.candidates@[k] {
                        SocketAddr::V4(_) => old(pool)@.v4.entries.len() > 0,
                        SocketAddr::V6(_) => old(pool)@.v6.entries.len() > 0,
                    });
                &&& some_way ==> out.0.state is Connecting && out.1 is Connect
                &&& !some_way ==> out.0.state is Refusing && out.1 is Write
            }),
    {
        let ClientSession { id, peer, udp_enabled, state } = self;
        let rest: ClientSession = ClientSession {
            id,
            peer,
            udp_enabled,
            state: ClientState::Over,
        };
        match state {
            ClientState::Connecting(target, plan, selected, remote) => {
                let mut next: ConnectPlan = plan;
                next.failed(remote, &selected, failure);
                let ghost noted = next;
                let ghost pool_before = pool@;
                let step: ConnectStep = next.next(pool);
                assert(advances(noted, next, pool_before, pool@, step));
                proof {
                    law_step_of_a_plan(noted, next, pool_before, pool@, step);
                    assert forall|k: int| 0 <= k < plan.candidates@.len() implies
                        #[trigger] noted.candidates@[k] == plan.candidates@[k] by {}
                }
                rest.attempt(target, next, step)
            },
            _ => (rest, ClientAction::Fail(String::new())),
        }
    }

    /// Goes on once the target is reached; `local` and `remote` are the ends of the connection as
    /// far as the system tells them.
    pub fn on_connected(self, local: Option<SocketAddr>, remote: Option<SocketAddr>) -> (out: (
        Self,
        ClientAction,
    ))
        requires
            self.state is Connecting,
        ensures
            out.0.same_client(self),
            self.state matches ClientState::Connecting(target, _, selected, addr) ==> {
                &&& out.1 matches ClientAction::Write(reply) && reply@ == reply_bytes(
                    0,
                    bound_endpoint(local, remote),
                )
                &&& out.0.state == ClientState::Announcing(target, selected, addr.spec_ip())
            },
    {
        let ClientSession { id, peer, udp_enabled, state } = self;
        let rest: ClientSession = ClientSession {
            id,
            peer,
            udp_enabled,
            state: ClientState::Over,
        };
        match state {
            ClientState::Connecting(target, _, selected, addr) => (
                rest.with_state(ClientState::Announcing(target, selected, addr.ip())),
                ClientAction::Write(success_reply(local, remote)),
            ),
            _ => (rest, ClientAction::Fail(String::new())),
        }
    }

    /// Goes on once the client was told that the target is reached: the pool counts the
    /// connection from now on.
    pub fn on_announced(self, now: Moment, pool: &mut WeightedPool) -> (out: (Self, ClientAction))
        requires
            old(pool).wf(),
            self.state matches ClientState::Announcing(_, selected, remote_ip) && old(
                pool,
            )@.can_open(remote_ip, selected.ip),
        ensures
            out.0.same_client(self),
            final(pool).wf(),
            self.state matches ClientState::Announcing(target, selected, remote_ip) ==> {
                &&& final(pool)@ == old(pool)@.opened(remote_ip, selected.ip)
                &&& out.0.state == ClientState::Relaying(remote_ip, selected.ip)
                &&& out.1 matches ClientAction::Relay(opened, line)
                &&& announces(opened, line, self, target@, selected, now)
            },
    {
        let ClientSession { id, peer, udp_enabled, state } = self;
        let rest: ClientSession = ClientSession {
            id,
            peer,
            udp_enabled,
            state: ClientState::Over,
        };
        match state {
            ClientState::Announcing(target, selected, remote_ip) => {
                pool.record_open(remote_ip, selected.ip);
                let news: Established = established(id, peer, &target, &selected, now);
                (
                    rest.with_state(ClientState::Relaying(remote_ip, selected.ip)),
                    ClientAction::Relay(news.opened, news.line),
                )
            },
            _ => (rest, ClientAction::Fail(String::new())),
        }
    }

    /// Ends the session once the connection is over: the pool no longer counts it.
    pub fn on_relayed(
        self,
        up_bytes: u64,
        down_bytes: u64,
        reason: String,
        now: Moment,
        pool: &mut WeightedPool,
    ) -> (out: (Self, ClientAction))
        requires
            self.state is Relaying,
            old(pool).wf(),
            up_bytes + down_bytes <= u64::MAX,
        ensures
            out.0.same_client(self),
            out.0.state == ClientState::Over,
            final(pool).wf(),
            self.state matches ClientState::Relaying(remote_ip, egress_ip) ==> {
                &&& final(pool)@ == old(pool)@.closed(
                    remote_ip,
                    egress_ip,
                    (up_bytes + down_bytes) as u64,
                )
                &&& out.1 matches ClientAction::Finish(line, closed)
                &&& line@ == "#"@ + decimal(self.id as nat) + " closed: "@ + decimal(
                    up_bytes as nat,
                ) + " bytes up, "@ + decimal(down_bytes as nat) + " bytes down ("@ + reason@ + ")"@
                &&& closed.id@ == decimal(self.id as nat)
                &&& closed.up_bytes == up_bytes
                &&& closed.down_bytes == down_bytes
                &&& closed.reason@ == reason@
                &&& closed.closed_at == now
            },
    {
        let ClientSession { id, peer, udp_enabled, state } = self;
        let rest: ClientSession = ClientSession {
            id,
            peer,
            udp_enabled,
            state: ClientState::Over,
        };
        match state {
            ClientState::Relaying(remote_ip, egress_ip) => {
                let end: Ended = ended(id, up_bytes, down_bytes, reason, now);
                pool.record_close(remote_ip, egress_ip, end.bytes);
                (rest, ClientAction::Finish(end.line, end.closed))
            },
            _ => (rest, ClientAction::Fail(String::new())),
        }
    }
}

/// Whether `opened` and `line` are what is reported of a connection of the session to `target`.
pub open spec fn announces(
    opened: ConnectionOpened,
    line: String,
    session: ClientSession,
    target: Destination,
    selected: EgressTarget,
    now: Moment,
) -> bool {
    &&& opened.id@ == decimal(session.id as nat)
    &&& opened.protocol == ConnectionProtocol::Tcp
    &&& opened.client == session.peer
    &&& opened.target@ == destination_text(target)
    &&& opened.egress_name@ == selected.name@
    &&& opened.egress_ip == selected.ip
    &&& opened.opened_at == now
    &&& line@ == "#"@ + decimal(session.id as nat) + " CONNECT "@ + destination_text(target)
        + " via "@ + selected.name@ + " ("@ + ip_text(selected.ip) + ")"@
}

// ---------------------------------------------------------------------
// Laws
// ---------------------------------------------------------------------

/// A connection that is opened and closed again leaves the pool as it was, unless a counter of
/// bytes was full: the load of every address is what it was, and so are the cursors, the hosts
/// that are held and the number of open connections of each. At most its own host, where it was
/// held before, is held to another address than it was. The other family is not touched.
pub proof fn law_session_leaves_no_load(
    pool: Pool,
    remote: IpAddr,
    egress: IpAddr,
    bytes: u64,
    index: int,
)
    requires
        pool.side(remote).wf(),
        pool.can_open(remote, egress),
        position_of(pool.side(remote).entries, egress) == Some(index),
        pool.side(remote).entries[index].active_bytes + bytes <= u64::MAX,
    ensures
        ({
            let after = pool.opened(remote, egress).transferred(remote, egress, bytes).closed(
                remote,
                egress,
                bytes,
            );
            &&& as_before(pool.v4, after.v4, remote)
            &&& as_before(pool.v6, after.v6, remote)
            &&& after == pool.with_side(
                remote,
                pool.side(remote).moved(remote, index, pool.strategy),
            )
        }),
{
    law_close_undoes_open_and_transfer(
        pool.side(remote),
        remote,
        egress,
        bytes,
        pool.strategy,
        index,
    );
}

/// Some address is usable exactly where the pool has a target of the family of one of them.
proof fn lemma_some_way(addresses: Seq<SocketAddr>, pool: Pool)
    ensures
        usable(addresses, pool).len() > 0 <==> exists|i: int|
            0 <= i < addresses.len() && (match #[trigger] addresses[i] {
                SocketAddr::V4(_) => pool.v4.entries.len() > 0,
                SocketAddr::V6(_) => pool.v6.entries.len() > 0,
            }),
{
    if usable(addresses, pool).len() > 0 {
        let addr = usable(addresses, pool)[0];
        assert(usable(addresses, pool).contains(addr));
        law_usable_addresses(addresses, pool, addr);
        let i = choose|i: int| 0 <= i < addresses.len() && addresses[i] == addr;
        assert(addresses[i] == addr);
    }
    if exists|i: int|
        0 <= i < addresses.len() && (match #[trigger] addresses[i] {
            SocketAddr::V4(_) => pool.v4.entries.len() > 0,
            SocketAddr::V6(_) => pool.v6.entries.len() > 0,
        }) {
        let i = choose|i: int|
            0 <= i < addresses.len() && (match #[trigger] addresses[i] {
                SocketAddr::V4(_) => pool.v4.entries.len() > 0,
                SocketAddr::V6(_) => pool.v6.entries.len() > 0,
            });
        assert(addresses.contains(addresses[i]));
        law_usable_addresses(addresses, pool, addresses[i]);
    }
}

/// A request to connect is never refused unheard: whatever is set for datagrams, the session goes
/// on to look up exactly what was asked for, and nothing is sent to the client.
pub proof fn law_connect_request_is_followed(
    session: ClientSession,
    target: Destination,
    after: ClientSession,
    action: ClientAction,
)
    requires
        session.goes_on(Outcome::Request(SocksCommand::Connect, target), after, action),
    ensures
        after.state is Resolving,
        after.state->Resolving_0@ == target,
        action is Resolve,
        target is Ip ==> action->Resolve_0 is None,
        target matches Destination::Domain(host, port) ==> action->Resolve_0 is Some && (
        action->Resolve_0->0).0@ == host && (action->Resolve_0->0).1 == port,
{
}

/// A relay for datagrams is set up exactly where it is allowed; otherwise, and for a request to
/// bind, the client is told with the code 7 that the command is not supported, and then the
/// session ends with the reason.
pub proof fn law_other_requests(
    session: ClientSession,
    command: SocksCommand,
    target: Destination,
    after: ClientSession,
    action: ClientAction,
)
    requires
        session.goes_on(Outcome::Request(command, target), after, action),
        command != SocksCommand::Connect,
    ensures
        command == SocksCommand::UdpAssociate && session.udp_enabled ==> after.state is Associated
            && action is Associate,
        command == SocksCommand::Bind || !session.udp_enabled ==> {
            &&& after.state is Refusing
            &&& !after.state->Refusing_1
            &&& after.state->Refusing_0@ == (if command == SocksCommand::Bind {
                "SOCKS BIND is not supported"@
            } else {
                "UDP ASSOCIATE disabled"@
            })
            &&& action is Write
            &&& session.peer is V4 ==> action->Write_0@ == seq![
                5u8, 7u8, 0u8, 1u8, 0u8, 0u8, 0u8, 0u8, 0u8, 0u8,
            ]
            &&& session.peer is V6 ==> action->Write_0@ == seq![
                5u8, 7u8, 0u8, 4u8, 0u8, 0u8, 0u8, 0u8, 0u8, 0u8, 0u8, 0u8, 0u8, 0u8, 0u8, 0u8,
                0u8, 0u8, 0u8, 0u8, 0u8, 0u8,
            ]
        },
{
    crate::wire::law_told_address(7, session.peer, None);
}

/// Where more is to be read the session reads it, and a fault ends the session with its words and
/// without a reply.
pub proof fn law_reading_goes_on(
    session: ClientSession,
    outcome: Outcome,
    after: ClientSession,
    action: ClientAction,
)
    requires
        session.goes_on(outcome, after, action),
    ensures
        outcome matches Outcome::Read(stage) ==> after.state == ClientState::Reading(stage)
            && action is Read && action->Read_0 == stage.needed(),
        outcome matches Outcome::Failed(error) ==> after.state is Over && action is Fail
            && action->Fail_0@ == error.words(),
{
}

/// A client is told that its target cannot be reached only where a plan gives up, and then with
/// the code 4; every other step of a plan is an attempt, and the one that the plan asks for.
pub proof fn law_failure_is_told_last(
    session: ClientSession,
    target: Destination,
    plan: ConnectPlan,
    step: ConnectStep,
    after: ClientSession,
    action: ClientAction,
)
    requires
        session.attempts(target, plan, step, after, action),
    ensures
        step is Attempt ==> {
            &&& action is Connect
            &&& action->Connect_0 == step->Attempt_0
            &&& action->Connect_1 == step->Attempt_1
            &&& after.state is Connecting
            &&& after.state->Connecting_0@ == target
            &&& after.state->Connecting_1 == plan
            &&& after.state->Connecting_2 == step->Attempt_0
            &&& after.state->Connecting_3 == step->Attempt_1
        },
        step is GiveUp ==> {
            &&& action is Write
            &&& session.peer is V4 ==> action->Write_0@ == seq![
                5u8, 4u8, 0u8, 1u8, 0u8, 0u8, 0u8, 0u8, 0u8, 0u8,
            ]
            &&& session.peer is V6 ==> action->Write_0@ == seq![
                5u8, 4u8, 0u8, 4u8, 0u8, 0u8, 0u8, 0u8, 0u8, 0u8, 0u8, 0u8, 0u8, 0u8, 0u8, 0u8,
                0u8, 0u8, 0u8, 0u8, 0u8, 0u8,
            ]
            &&& after.state is Refusing
            &&& after.state->Refusing_1
            &&& after.state->Refusing_0@ == "CONNECT "@ + destination_text(target) + " failed"@
        },
{
    crate::wire::law_told_address(4, session.peer, None);
}

/// What is reported of a connection names the client, the target, the egress address and the
/// moment that it has.
pub proof fn law_connection_is_reported(
    opened: ConnectionOpened,
    line: String,
    session: ClientSession,
    target: Destination,
    selected: EgressTarget,
    now: Moment,
)
    requires
        announces(opened, line, session, target, selected, now),
    ensures
        opened.client == session.peer,
        opened.egress_ip == selected.ip,
        opened.egress_name@ == selected.name@,
        opened.opened_at == now,
        opened.protocol is Tcp,
        opened.id@ == decimal(session.id as nat),
        opened.target@ == destination_text(target),
{
}

} // verus!
