//! Reaching a destination: its addresses, and the attempts that are made through the pool.

use vstd::prelude::*;

use crate::adapter::EgressTarget;
use crate::addr::{
    ip_text, push_ip, push_socket, socket_text, IpAddr, SocketAddr, SocketAddrV4, SocketAddrV6,
};
use crate::pool::{law_order_of_addresses, lemma_onto, Pool, WeightedPool};
use crate::socks::{destination_text, family_name, family_words, Destination, SocksTarget};
use crate::text::{decimal, push_decimal};

verus! {

/// How long one attempt may take, in milliseconds.
pub const CONNECT_TIMEOUT_MILLIS: u64 = 5_000;

// ---------------------------------------------------------------------
// The addresses of a destination
// ---------------------------------------------------------------------

/// Whether some target of the pool can reach the address.
pub open spec fn reachable(pool: Pool, addr: SocketAddr) -> bool {
    pool.side(addr.spec_ip()).entries.len() > 0
}

/// The addresses that the pool can reach: those of version 4 first, otherwise as they came.
pub open spec fn usable(addresses: Seq<SocketAddr>, pool: Pool) -> Seq<SocketAddr> {
    addresses.filter(|addr: SocketAddr| addr is V4 && reachable(pool, addr)) + addresses.filter(
        |addr: SocketAddr| addr is V6 && reachable(pool, addr),
    )
}

/// The addresses that a destination has: itself, or what was looked up for its name.
pub open spec fn addresses_of(target: Destination, found: Option<Seq<SocketAddr>>) -> Option<
    Seq<SocketAddr>,
> {
    match target {
        Destination::Ip(addr) => Some(seq![addr]),
        Destination::Domain(_, _) => found,
    }
}

/// What is said of a name that could not be looked up.
pub open spec fn unresolved_words(target: Destination) -> Seq<char> {
    "failed to resolve "@ + destination_text(target)
}

fn filter_family(addresses: &Vec<SocketAddr>, v4: bool, pool: &WeightedPool) -> (out: Vec<
    SocketAddr,
>)
    ensures
        v4 ==> out@ == addresses@.filter(
            |addr: SocketAddr| addr is V4 && reachable(pool@, addr),
        ),
        !v4 ==> out@ == addresses@.filter(
            |addr: SocketAddr| addr is V6 && reachable(pool@, addr),
        ),
{
    let ghost keeps = if v4 {
        |addr: SocketAddr| addr is V4 && reachable(pool@, addr)
    } else {
        |addr: SocketAddr| addr is V6 && reachable(pool@, addr)
    };
    let mut out: Vec<SocketAddr> = Vec::new();
    let mut i: usize = 0;
    proof {
        reveal(Seq::filter);
    }
    assert(addresses@.take(0) =~= Seq::empty());
    while i < addresses.len()
        invariant
            i <= addresses@.len(),
            v4 ==> keeps == (|addr: SocketAddr| addr is V4 && reachable(pool@, addr)),
            !v4 ==> keeps == (|addr: SocketAddr| addr is V6 && reachable(pool@, addr)),
            out@ == addresses@.take(i as int).filter(keeps),
        decreases addresses@.len() - i,
    {
        let addr: SocketAddr = addresses[i];
        proof {
            reveal(Seq::filter);
            assert(addresses@.take(i + 1).drop_last() =~= addresses@.take(i as int));
            assert(addresses@.take(i + 1).last() == addr);
        }
        if addr.is_ipv4() == v4 && pool.has_family(addr.ip()) {
            out.push(addr);
        }
        i += 1;
    }
    assert(addresses@.take(i as int) =~= addresses@);
    out
}

/// The addresses to try for `target`. `found` is what was looked up where the target is a name,
/// and nothing where that failed.
pub fn resolve_target(
    target: &SocksTarget,
    found: Option<Vec<SocketAddr>>,
    pool: &WeightedPool,
) -> (result: Result<Vec<SocketAddr>, String>)
    ensures
        ({
            let known = addresses_of(
                target@,
                match found {
                    Some(list) => Some(list@),
                    None => None,
                },
            );
            match result {
                Ok(out) => known is Some && out@ == usable(known->0, pool@) && out@.len() > 0,
                Err(message) => if known is None {
                    message@ == unresolved_words(target@)
                } else {
                    usable(known->0, pool@).len() == 0 && message@
                        == "target has no address matching the selected adapter families"@
                },
            }
        }),
{
    let addresses: Vec<SocketAddr> = match target {
        SocksTarget::Ip(addr) => {
            let mut only: Vec<SocketAddr> = Vec::new();
            only.push(*addr);
            assert(only@ =~= seq![*addr]);
            only
        },
        SocksTarget::Domain(_, _) => match found {
            Some(list) => list,
            None => {
                let mut message: String = "failed to resolve ".to_owned();
                message.append(target.to_text().as_str());
                return Err(message);
            },
        },
    };
    let mut out: Vec<SocketAddr> = filter_family(&addresses, true, pool);
    let ghost front = out@;
    let rest: Vec<SocketAddr> = filter_family(&addresses, false, pool);
    let mut i: usize = 0;
    while i < rest.len()
        invariant
            i <= rest@.len(),
            out@ == front + rest@.take(i as int),
        decreases rest@.len() - i,
    {
        out.push(rest[i]);
        i += 1;
    }
    assert(rest@.take(i as int) =~= rest@);
    assert(out@ == usable(addresses@, pool@));
    if out.len() == 0 {
        return Err("target has no address matching the selected adapter families".to_owned());
    }
    Ok(out)
}

// ---------------------------------------------------------------------
// One attempt
// ---------------------------------------------------------------------

/// The local endpoint of an attempt; the system picks the port. An address reaches only its own
/// family.
pub fn local_endpoint(local_ip: IpAddr, remote: SocketAddr) -> (result: Result<
    SocketAddr,
    &'static str,
>)
    ensures
        result is Ok <==> (local_ip is V4) == (remote is V4),
        result matches Ok(addr) ==> addr == SocketAddr::at(local_ip, 0),
        result matches Err(message) ==> message@ == "egress address family does not match remote"@,
{
    if local_ip.is_ipv4() != remote.is_ipv4() {
        Err("egress address family does not match remote")
    } else {
        Ok(SocketAddr::new(local_ip, 0))
    }
}

/// How an attempt ended without a connection.
#[derive(Debug)]
pub enum AttemptFailure {
    Refused(String),
    TimedOut,
}

/// What is said of a failed attempt.
pub open spec fn failure_words(
    remote: SocketAddr,
    selected: EgressTarget,
    failure: AttemptFailure,
) -> Seq<char> {
    match failure {
        AttemptFailure::Refused(error) => "failed to connect "@ + socket_text(remote) + " via "@
            + selected.name@ + " ("@ + ip_text(selected.ip) + "): "@ + error@,
        AttemptFailure::TimedOut => "timed out connecting "@ + socket_text(remote) + " via "@
            + selected.name@ + " ("@ + ip_text(selected.ip) + ") after "@ + decimal(
            CONNECT_TIMEOUT_MILLIS as nat,
        ) + " ms"@,
    }
}

pub fn failure_text(remote: SocketAddr, selected: &EgressTarget, failure: &AttemptFailure) -> (text:
    String)
    ensures
        text@ == failure_words(remote, *selected, *failure),
{
    match failure {
        AttemptFailure::Refused(error) => {
            let mut text: String = "failed to connect ".to_owned();
            push_socket(&mut text, remote);
            text.append(" via ");
            text.append(selected.name.as_str());
            text.append(" (");
            push_ip(&mut text, selected.ip);
            text.append("): ");
            text.append(error.as_str());
            text
        },
        AttemptFailure::TimedOut => {
            let mut text: String = "timed out connecting ".to_owned();
            push_socket(&mut text, remote);
            text.append(" via ");
            text.append(selected.name.as_str());
            text.append(" (");
            push_ip(&mut text, selected.ip);
            text.append(") after ");
            push_decimal(&mut text, CONNECT_TIMEOUT_MILLIS);
            text.append(" ms");
            text
        },
    }
}

// ---------------------------------------------------------------------
// The attempts for a destination
// ---------------------------------------------------------------------

/// The attempts for a destination: each of its addresses in turn, and for each of them every
/// target of the pool in the order that the pool gives when the address has its turn.
#[derive(Debug)]
pub struct ConnectPlan {
    pub candidates: Vec<SocketAddr>,
    /// The addresses that had their turn.
    pub begun: usize,
    /// The targets for the latest of them.
    pub selections: Vec<EgressTarget>,
    /// The targets that had their turn.
    pub tried: usize,
    pub last_error: Option<String>,
}

/// What is to be done next.
#[derive(Debug)]
pub enum ConnectStep {
    Attempt(EgressTarget, SocketAddr),
    GiveUp(String),
}

/// The first address from `at` on that the pool can reach; the number of addresses if there is
/// none.
pub open spec fn next_reachable(
    candidates: Seq<SocketAddr>,
    pool: Pool,
    at: int,
) -> int
    decreases candidates.len() - at,
{
    if at >= candidates.len() {
        candidates.len() as int
    } else if reachable(pool, candidates[at]) {
        at
    } else {
        next_reachable(candidates, pool, at + 1)
    }
}

/// What is said of an address that no target can reach.
pub open spec fn unreachable_words(remote: SocketAddr) -> Seq<char> {
    "no selected egress adapter can reach "@ + family_words(remote.spec_ip())
}

/// Whether `step` is the next one of `before`, `after` is the plan once it was given, and the pool
/// changes with it.
pub open spec fn advances(
    before: ConnectPlan,
    after: ConnectPlan,
    pool: Pool,
    pool_after: Pool,
    step: ConnectStep,
) -> bool {
    &&& after.candidates@ == before.candidates@
    &&& if before.tried < before.selections@.len() {
        &&& step == ConnectStep::Attempt(
            before.selections@[before.tried as int],
            before.candidates@[before.begun - 1],
        )
        &&& after.begun == before.begun
        &&& after.selections@ == before.selections@
        &&& after.tried == before.tried + 1
        &&& after.last_error == before.last_error
        &&& pool_after == pool
    } else {
        let at = next_reachable(before.candidates@, pool, before.begun as int);
        if at == before.candidates@.len() {
            &&& pool_after == pool
            &&& after.begun == at
            &&& step matches ConnectStep::GiveUp(message) && message@ == (if before.begun < at {
                unreachable_words(before.candidates@[at - 1])
            } else {
                before.error_words()
            })
        } else {
            let remote = before.candidates@[at];
            &&& after.begun == at + 1
            &&& after.tried == 1
            &&& pool.orders(remote.spec_ip(), after.selections@, pool_after)
            &&& step == ConnectStep::Attempt(after.selections@[0], remote)
        }
    }
}

impl ConnectPlan {
    pub open spec fn wf(self) -> bool {
        &&& self.begun <= self.candidates@.len()
        &&& self.tried <= self.selections@.len()
        &&& self.begun == 0 ==> self.selections@.len() == 0
    }

    /// Whether no attempt was made yet.
    pub open spec fn fresh(self) -> bool {
        self.begun == 0 && self.selections@.len() == 0 && self.tried == 0 && self.last_error is None
    }

    /// The latest error; where there is none, that the destination has no address.
    pub open spec fn error_words(self) -> Seq<char> {
        match self.last_error {
            Some(text) => text@,
            None => "target did not resolve to a usable address"@,
        }
    }

    pub fn new(candidates: Vec<SocketAddr>) -> (plan: Self)
        ensures
            plan.wf(),
            plan.candidates@ == candidates@,
            plan.fresh(),
    {
        ConnectPlan { candidates, begun: 0, selections: Vec::new(), tried: 0, last_error: None }
    }

    /// The next attempt. A target left for the current address comes first; then the next address
    /// that the pool can reach has its turn. With nothing left the latest error is reported.
    pub fn next(&mut self, pool: &mut WeightedPool) -> (step: ConnectStep)
        requires
            old(self).wf(),
            old(pool).wf(),
        ensures
            final(self).wf(),
            final(pool).wf(),
            advances(*old(self), *final(self), old(pool)@, final(pool)@, step),
            step is Attempt ==> final(self).begun > old(self).begun || (final(self).begun
                == old(self).begun && final(self).selections@.len() == old(
                self,
            ).selections@.len() && final(self).tried > old(self).tried),
    {
        if self.tried < self.selections.len() {
            let selected: EgressTarget = self.selections[self.tried].clone();
            let remote: SocketAddr = self.candidates[self.begun - 1];
            self.tried += 1;
            return ConnectStep::Attempt(selected, remote);
        }
        let ghost start = self.begun as int;
        while self.begun < self.candidates.len()
            invariant
                start <= self.begun <= self.candidates@.len(),
                self.candidates@ == old(self).candidates@,
                start == old(self).begun,
                *pool == *old(pool),
                pool.wf(),
                old(self).tried == old(self).selections@.len(),
                self.tried == old(self).tried,
                self.selections@ == old(self).selections@,
                next_reachable(self.candidates@, pool@, start) == next_reachable(
                    self.candidates@,
                    pool@,
                    self.begun as int,
                ),
                self.begun == start ==> self.last_error == old(self).last_error,
                self.begun > start ==> self.last_error is Some && self.last_error->0@
                    == unreachable_words(self.candidates@[self.begun - 1]),
            decreases self.candidates@.len() - self.begun,
        {
            let remote: SocketAddr = self.candidates[self.begun];
            if pool.has_family(remote.ip()) {
                let selections: Vec<EgressTarget> = pool.ordered_for(remote.ip());
                let selected: EgressTarget = selections[0].clone();
                self.selections = selections;
                self.tried = 1;
                self.begun += 1;
                return ConnectStep::Attempt(selected, remote);
            }
            let mut message: String = "no selected egress adapter can reach ".to_owned();
            message.append(family_name(remote.ip()));
            self.last_error = Some(message);
            self.begun += 1;
        }
        let message: String = match &self.last_error {
            Some(text) => text.clone(),
            None => "target did not resolve to a usable address".to_owned(),
        };
        ConnectStep::GiveUp(message)
    }

    /// Notes that the latest attempt failed.
    pub fn failed(&mut self, remote: SocketAddr, selected: &EgressTarget, failure: &AttemptFailure)
        requires
            old(self).wf(),
        ensures
            final(self).wf(),
            final(self).candidates@ == old(self).candidates@,
            final(self).begun == old(self).begun,
            final(self).selections@ == old(self).selections@,
            final(self).tried == old(self).tried,
            final(self).error_words() == failure_words(remote, *selected, *failure),
    {
        self.last_error = Some(failure_text(remote, selected, failure));
    }
}

/// Every address to try is one that the pool can reach, and of the addresses that the pool can
/// reach none is left out.
pub proof fn law_usable_addresses(addresses: Seq<SocketAddr>, pool: Pool, addr: SocketAddr)
    ensures
        usable(addresses, pool).contains(addr) <==> addresses.contains(addr) && reachable(
            pool,
            addr,
        ),
{
    let four = |addr: SocketAddr| addr is V4 && reachable(pool, addr);
    let six = |addr: SocketAddr| addr is V6 && reachable(pool, addr);
    let front = addresses.filter(four);
    let back = addresses.filter(six);
    broadcast use vstd::seq_lib::group_filter_ensures;

    if addresses.contains(addr) && reachable(pool, addr) {
        let i = choose|i: int| 0 <= i < addresses.len() && addresses[i] == addr;
        if addr is V4 {
            assert(four(addr));
            assert(front.contains(addr));
            let k = choose|k: int| 0 <= k < front.len() && front[k] == addr;
            assert((front + back)[k] == addr);
        } else {
            assert(six(addr));
            assert(back.contains(addr));
            let k = choose|k: int| 0 <= k < back.len() && back[k] == addr;
            assert((front + back)[front.len() + k] == addr);
        }
    }
    if usable(addresses, pool).contains(addr) {
        let k = choose|k: int| 0 <= k < (front + back).len() && (front + back)[k] == addr;
        if k < front.len() {
            assert(front[k] == addr);
            addresses.lemma_filter_pred(four, k);
            addresses.lemma_filter_contains_rev(four, addr);
        } else {
            assert(back[k - front.len()] == addr);
            addresses.lemma_filter_pred(six, k - front.len());
            addresses.lemma_filter_contains_rev(six, addr);
        }
    }
}

/// Addresses of version 4 are tried before those of version 6.
pub proof fn law_version_4_comes_first(
    addresses: Seq<SocketAddr>,
    pool: Pool,
    i: int,
    j: int,
)
    requires
        0 <= i < usable(addresses, pool).len(),
        0 <= j < usable(addresses, pool).len(),
        usable(addresses, pool)[i] is V4,
        usable(addresses, pool)[j] is V6,
    ensures
        i < j,
{
    let front = addresses.filter(|addr: SocketAddr| addr is V4 && reachable(pool, addr));
    let back = addresses.filter(|addr: SocketAddr| addr is V6 && reachable(pool, addr));
    broadcast use vstd::seq_lib::group_filter_ensures;

    if i >= front.len() {
        assert(back[i - front.len()] is V6);
    }
    if j < front.len() {
        assert(front[j] is V4);
    }
}

/// The attempts for a destination come to an end: each of them leaves fewer addresses to try, or
/// as many and fewer targets for the current one.
pub proof fn law_attempts_come_to_an_end(
    before: ConnectPlan,
    after: ConnectPlan,
    pool: Pool,
    pool_after: Pool,
    step: ConnectStep,
)
    requires
        before.wf(),
        after.wf(),
        advances(before, after, pool, pool_after, step),
        step is Attempt,
    ensures
        ({
            let left = before.candidates@.len() - before.begun;
            let left_after = after.candidates@.len() - after.begun;
            &&& 0 <= left_after <= left
            &&& left_after == left ==> 0 <= after.selections@.len() - after.tried
                < before.selections@.len() - before.tried
        }),
{
    lemma_next_reachable(before.candidates@, pool, before.begun as int);
}

proof fn lemma_next_reachable(candidates: Seq<SocketAddr>, pool: Pool, at: int)
    requires
        0 <= at <= candidates.len(),
    ensures
        at <= next_reachable(candidates, pool, at) <= candidates.len(),
    decreases candidates.len() - at,
{
    if at < candidates.len() && !reachable(pool, candidates[at]) {
        lemma_next_reachable(candidates, pool, at + 1);
    }
}

/// What stands between the address that had its turn last and the next one cannot be reached.
proof fn lemma_skipped(candidates: Seq<SocketAddr>, pool: Pool, at: int)
    requires
        0 <= at <= candidates.len(),
    ensures
        ({
            let next = next_reachable(candidates, pool, at);
            &&& at <= next <= candidates.len()
            &&& forall|k: int| at <= k < next ==> !reachable(pool, #[trigger] candidates[k])
            &&& next < candidates.len() ==> reachable(pool, candidates[next])
        }),
    decreases candidates.len() - at,
{
    if at < candidates.len() && !reachable(pool, candidates[at]) {
        lemma_skipped(candidates, pool, at + 1);
    }
}

/// What a step of a plan is. A target that is left for the current address is attempted, and it is
/// the next one in the order. Otherwise the next address of which the pool has the family has its
/// turn, with every target of that family in the order that the pool gives, and the first of them
/// is attempted. The plan gives up only where no target is left for the current address and no
/// address that is left is of a family of the pool.
pub proof fn law_step_of_a_plan(
    before: ConnectPlan,
    after: ConnectPlan,
    pool: Pool,
    pool_after: Pool,
    step: ConnectStep,
)
    requires
        before.wf(),
        after.wf(),
        advances(before, after, pool, pool_after, step),
    ensures
        after.candidates@ == before.candidates@,
        step is GiveUp <==> before.tried == before.selections@.len() && forall|k: int|
            before.begun <= k < before.candidates@.len() ==> (match #[trigger] before.candidates@[k] {
                SocketAddr::V4(_) => pool.v4.entries.len() == 0,
                SocketAddr::V6(_) => pool.v6.entries.len() == 0,
            }),
        before.tried < before.selections@.len() ==> {
            &&& step == ConnectStep::Attempt(
                before.selections@[before.tried as int],
                before.candidates@[before.begun - 1],
            )
            &&& after.begun == before.begun
            &&& after.tried == before.tried + 1
            &&& after.selections@ == before.selections@
            &&& pool_after == pool
        },
        before.tried == before.selections@.len() && step is Attempt ==> {
            let remote = before.candidates@[after.begun - 1];
            &&& before.begun < after.begun <= before.candidates@.len()
            &&& forall|k: int|
                before.begun <= k < after.begun - 1 ==> (match #[trigger] before.candidates@[k] {
                    SocketAddr::V4(_) => pool.v4.entries.len() == 0,
                    SocketAddr::V6(_) => pool.v6.entries.len() == 0,
                })
            &&& step == ConnectStep::Attempt(after.selections@[0], remote)
            &&& after.tried == 1
            &&& pool.orders(remote.spec_ip(), after.selections@, pool_after)
            &&& remote is V4 ==> after.selections@.len() == pool.v4.entries.len()
            &&& remote is V6 ==> after.selections@.len() == pool.v6.entries.len()
        },
        step is GiveUp ==> pool_after == pool,
{
    lemma_skipped(before.candidates@, pool, before.begun as int);
    let at = next_reachable(before.candidates@, pool, before.begun as int);
    assert forall|k: int| 0 <= k < before.candidates@.len() implies reachable(
        pool,
        #[trigger] before.candidates@[k],
    ) == (match before.candidates@[k] {
        SocketAddr::V4(_) => pool.v4.entries.len() > 0,
        SocketAddr::V6(_) => pool.v6.entries.len() > 0,
    }) by {}
    if before.tried == before.selections@.len() && at < before.candidates@.len() {
        assert(reachable(pool, before.candidates@[at]));
    }
}

/// One turn of a plan: the plan and the pool before it and after it, and what is to be done.
pub struct Turn {
    pub before: ConnectPlan,
    pub after: ConnectPlan,
    pub pool: Pool,
    pub pool_after: Pool,
    pub step: ConnectStep,
}

/// Whether the turn is one of a plan for `candidates` with a pool of those targets.
pub open spec fn is_turn(
    turn: Turn,
    candidates: Seq<SocketAddr>,
    v4: Seq<EgressTarget>,
    v6: Seq<EgressTarget>,
) -> bool {
    &&& turn.before.wf()
    &&& turn.after.wf()
    &&& turn.before.candidates@ == candidates
    &&& turn.pool.v4.wf()
    &&& turn.pool.v6.wf()
    &&& turn.pool.v4.targets() == v4
    &&& turn.pool.v6.targets() == v6
    &&& advances(turn.before, turn.after, turn.pool, turn.pool_after, turn.step)
}

/// Whether a plan goes on in the second turn where it was left in the first one, which was an
/// attempt; only the latest error may have been noted.
pub open spec fn follows(first: Turn, second: Turn) -> bool {
    &&& first.step is Attempt
    &&& second.before.begun == first.after.begun
    &&& second.before.tried == first.after.tried
    &&& second.before.selections@ == first.after.selections@
}

/// Whether the turns are those of one plan for `candidates`, from its first turn on. Between two
/// turns the loads of the pool may change; its targets stay.
pub open spec fn is_run(
    turns: Seq<Turn>,
    candidates: Seq<SocketAddr>,
    v4: Seq<EgressTarget>,
    v6: Seq<EgressTarget>,
) -> bool {
    &&& turns.len() > 0
    &&& turns[0].before.begun == 0
    &&& turns[0].before.tried == 0
    &&& turns[0].before.selections@.len() == 0
    &&& forall|k: int|
        0 <= k < turns.len() ==> is_turn(#[trigger] turns[k], candidates, v4, v6)
    &&& forall|k: int| 0 < k < turns.len() ==> follows(turns[k - 1], #[trigger] turns[k])
}

/// The targets of the family of the address.
pub open spec fn targets_for(
    addr: SocketAddr,
    v4: Seq<EgressTarget>,
    v6: Seq<EgressTarget>,
) -> Seq<EgressTarget> {
    match addr {
        SocketAddr::V4(_) => v4,
        SocketAddr::V6(_) => v6,
    }
}

/// Whether the lists hold the same targets.
spec fn same_targets(some: Seq<EgressTarget>, others: Seq<EgressTarget>) -> bool {
    &&& forall|t: int| 0 <= t < others.len() ==> some.contains(#[trigger] others[t])
    &&& forall|t: int| 0 <= t < some.len() ==> others.contains(#[trigger] some[t])
}

/// What a turn does.
proof fn lemma_turn(
    turn: Turn,
    candidates: Seq<SocketAddr>,
    v4: Seq<EgressTarget>,
    v6: Seq<EgressTarget>,
)
    requires
        is_turn(turn, candidates, v4, v6),
    ensures
        turn.before.begun <= candidates.len(),
        turn.after.begun <= candidates.len(),
        turn.before.tried <= turn.before.selections@.len(),
        turn.before.begun == 0 ==> turn.before.selections@.len() == 0,
        turn.step is GiveUp ==> turn.before.tried == turn.before.selections@.len() && forall|k: int|
            turn.before.begun <= k < candidates.len() ==> targets_for(
                #[trigger] candidates[k],
                v4,
                v6,
            ).len() == 0,
        turn.before.tried < turn.before.selections@.len() ==> {
            &&& turn.before.begun > 0
            &&& turn.step == ConnectStep::Attempt(
                turn.before.selections@[turn.before.tried as int],
                candidates[turn.before.begun - 1],
            )
            &&& turn.after.begun == turn.before.begun
            &&& turn.after.tried == turn.before.tried + 1
            &&& turn.after.selections@ == turn.before.selections@
        },
        turn.before.tried == turn.before.selections@.len() && turn.step is Attempt ==> {
            let remote = candidates[turn.after.begun - 1];
            &&& turn.before.begun < turn.after.begun
            &&& forall|k: int|
                turn.before.begun <= k < turn.after.begun - 1 ==> targets_for(
                    #[trigger] candidates[k],
                    v4,
                    v6,
                ).len() == 0
            &&& turn.after.selections@.len() > 0
            &&& turn.step == ConnectStep::Attempt(turn.after.selections@[0], remote)
            &&& turn.after.tried == 1
            &&& same_targets(turn.after.selections@, targets_for(remote, v4, v6))
        },
{
    law_step_of_a_plan(turn.before, turn.after, turn.pool, turn.pool_after, turn.step);
    assert(turn.pool.v4.targets().len() == turn.pool.v4.entries.len());
    assert(turn.pool.v6.targets().len() == turn.pool.v6.entries.len());
    assert forall|k: int| 0 <= k < candidates.len() implies targets_for(
        #[trigger] candidates[k],
        v4,
        v6,
    ).len() == (match turn.before.candidates@[k] {
        SocketAddr::V4(_) => turn.pool.v4.entries.len(),
        SocketAddr::V6(_) => turn.pool.v6.entries.len(),
    }) by {}
    if turn.before.tried == turn.before.selections@.len() && turn.step is Attempt {
        let remote = candidates[turn.after.begun - 1];
        lemma_selections(
            turn.pool,
            remote.spec_ip(),
            turn.after.selections@,
            turn.pool_after,
            targets_for(remote, v4, v6),
        );
    }
}

/// The order of the pool holds every target of the family and no other one.
proof fn lemma_selections(
    pool: Pool,
    remote: IpAddr,
    selections: Seq<EgressTarget>,
    pool_after: Pool,
    targets: Seq<EgressTarget>,
)
    requires
        pool.side(remote).wf(),
        pool.side(remote).entries.len() > 0,
        pool.side(remote).targets() == targets,
        pool.orders(remote, selections, pool_after),
    ensures
        same_targets(selections, targets),
{
    let side = pool.side(remote);
    let order = law_order_of_addresses(pool, remote, selections, pool_after);
    assert forall|t: int| 0 <= t < targets.len() implies selections.contains(
        #[trigger] targets[t],
    ) by {
        lemma_onto(order, side.entries.len() as int, t);
        let i = choose|i: int| 0 <= i < order.len() && #[trigger] order[i] == t;
        assert(selections[i] == targets[t]);
    }
    assert forall|t: int| 0 <= t < selections.len() implies targets.contains(
        #[trigger] selections[t],
    ) by {
        assert(targets[order[t]] == selections[t]);
    }
}

/// Whether one of the first `count` turns attempted the address through the target.
#[verifier::opaque]
pub open spec fn attempted(
    turns: Seq<Turn>,
    count: int,
    target: EgressTarget,
    addr: SocketAddr,
) -> bool {
    exists|k: int|
        0 <= k < count && (#[trigger] turns[k]).step == ConnectStep::Attempt(target, addr)
}

proof fn lemma_attempted_now(turns: Seq<Turn>, k: int, target: EgressTarget, addr: SocketAddr)
    requires
        0 <= k,
        turns[k].step == ConnectStep::Attempt(target, addr),
    ensures
        attempted(turns, k + 1, target, addr),
{
    reveal(attempted);
    assert(turns[k].step == ConnectStep::Attempt(target, addr));
}

proof fn lemma_attempted_still(turns: Seq<Turn>, k: int, target: EgressTarget, addr: SocketAddr)
    requires
        attempted(turns, k, target, addr),
    ensures
        attempted(turns, k + 1, target, addr),
{
    reveal(attempted);
    let i = choose|i: int|
        0 <= i < k && (#[trigger] turns[i]).step == ConnectStep::Attempt(target, addr);
    assert(turns[i].step == ConnectStep::Attempt(target, addr));
}

/// Whether every target for the addresses whose turn is over was attempted in the first turns, and
/// those that had their turn for the current one.
spec fn so_far(
    turns: Seq<Turn>,
    count: int,
    plan: ConnectPlan,
    candidates: Seq<SocketAddr>,
    v4: Seq<EgressTarget>,
    v6: Seq<EgressTarget>,
) -> bool {
    &&& forall|c: int, t: int|
        #![trigger candidates[c], targets_for(candidates[c], v4, v6)[t]]
        0 <= c < plan.begun - 1 && 0 <= t < targets_for(candidates[c], v4, v6).len() ==> attempted(
            turns,
            count,
            targets_for(candidates[c], v4, v6)[t],
            candidates[c],
        )
    &&& forall|t: int|
        0 <= t < plan.tried ==> attempted(
            turns,
            count,
            #[trigger] plan.selections@[t],
            candidates[plan.begun - 1],
        )
    &&& plan.begun > 0 ==> same_targets(
        plan.selections@,
        targets_for(candidates[plan.begun - 1], v4, v6),
    )
}

proof fn lemma_attempted_so_far(
    turns: Seq<Turn>,
    candidates: Seq<SocketAddr>,
    v4: Seq<EgressTarget>,
    v6: Seq<EgressTarget>,
    count: int,
)
    requires
        is_run(turns, candidates, v4, v6),
        0 <= count < turns.len(),
    ensures
        so_far(turns, count, turns[count].before, candidates, v4, v6),
    decreases count,
{
    assert(is_turn(turns[count], candidates, v4, v6));
    lemma_turn(turns[count], candidates, v4, v6);
    if count > 0 {
        lemma_attempted_so_far(turns, candidates, v4, v6, count - 1);
        assert(is_turn(turns[count - 1], candidates, v4, v6));
        assert(follows(turns[count - 1], turns[count]));
        lemma_turn(turns[count - 1], candidates, v4, v6);
        lemma_one_more_turn(turns, candidates, v4, v6, count);
    }
}

proof fn lemma_one_more_turn(
    turns: Seq<Turn>,
    candidates: Seq<SocketAddr>,
    v4: Seq<EgressTarget>,
    v6: Seq<EgressTarget>,
    count: int,
)
    requires
        0 < count < turns.len(),
        is_turn(turns[count - 1], candidates, v4, v6),
        follows(turns[count - 1], turns[count]),
        so_far(turns, count - 1, turns[count - 1].before, candidates, v4, v6),
    ensures
        so_far(turns, count, turns[count].before, candidates, v4, v6),
{
    let last = turns[count - 1];
    let was = last.before;
    let plan = turns[count].before;
    let current = candidates[plan.begun - 1];
    lemma_turn(last, candidates, v4, v6);
    lemma_attempted_now(turns, count - 1, plan.selections@[plan.tried - 1], current);
    assert forall|t: int| 0 <= t < plan.tried implies attempted(
        turns,
        count,
        #[trigger] plan.selections@[t],
        current,
    ) by {
        if t < plan.tried - 1 {
            assert(attempted(turns, count - 1, was.selections@[t], current));
            lemma_attempted_still(turns, count - 1, plan.selections@[t], current);
        }
    }
    assert forall|c: int, t: int|
        #![trigger candidates[c], targets_for(candidates[c], v4, v6)[t]]
        0 <= c < plan.begun - 1 && 0 <= t < targets_for(candidates[c], v4, v6).len() implies
        attempted(turns, count, targets_for(candidates[c], v4, v6)[t], candidates[c]) by {
        let target = targets_for(candidates[c], v4, v6)[t];
        if c < was.begun - 1 {
            assert(attempted(turns, count - 1, target, candidates[c]));
        } else if c == was.begun - 1 {
            assert(was.selections@.contains(target));
            let i = choose|i: int| 0 <= i < was.selections@.len() && was.selections@[i] == target;
            assert(attempted(turns, count - 1, was.selections@[i], candidates[c]));
        }
        lemma_attempted_still(turns, count - 1, target, candidates[c]);
    }
}

/// A plan gives up only after every address was attempted through every target of its family.
pub proof fn law_every_way_is_tried(
    turns: Seq<Turn>,
    candidates: Seq<SocketAddr>,
    v4: Seq<EgressTarget>,
    v6: Seq<EgressTarget>,
    address: int,
    target: int,
)
    requires
        is_run(turns, candidates, v4, v6),
        turns.last().step is GiveUp,
        0 <= address < candidates.len(),
        candidates[address] is V4 ==> 0 <= target < v4.len(),
        candidates[address] is V6 ==> 0 <= target < v6.len(),
    ensures
        exists|k: int|
            0 <= k < turns.len() - 1 && (#[trigger] turns[k]).step == ConnectStep::Attempt(
                if candidates[address] is V4 {
                    v4[target]
                } else {
                    v6[target]
                },
                candidates[address],
            ),
{
    let count = turns.len() - 1;
    let plan = turns[count].before;
    let addr = candidates[address];
    let wanted = targets_for(addr, v4, v6)[target];
    lemma_attempted_so_far(turns, candidates, v4, v6, count);
    assert(is_turn(turns[count], candidates, v4, v6));
    lemma_turn(turns[count], candidates, v4, v6);
    if address >= plan.begun {
        assert(targets_for(candidates[address], v4, v6).len() == 0);
    } else if address == plan.begun - 1 {
        assert(plan.selections@.contains(wanted));
        let i = choose|i: int| 0 <= i < plan.selections@.len() && plan.selections@[i] == wanted;
        assert(attempted(turns, count, plan.selections@[i], addr));
    }
    assert(attempted(turns, count, wanted, addr));
    reveal(attempted);
}

/// What is attempted is an address of the destination through a target of its family.
pub proof fn law_attempts_fit_the_destination(
    turns: Seq<Turn>,
    candidates: Seq<SocketAddr>,
    v4: Seq<EgressTarget>,
    v6: Seq<EgressTarget>,
    turn: int,
)
    requires
        is_run(turns, candidates, v4, v6),
        0 <= turn < turns.len(),
    ensures
        turns[turn].step matches ConnectStep::Attempt(target, addr) ==> {
            &&& candidates.contains(addr)
            &&& addr is V4 ==> v4.contains(target)
            &&& addr is V6 ==> v6.contains(target)
        },
{
    lemma_attempted_so_far(turns, candidates, v4, v6, turn);
    assert(is_turn(turns[turn], candidates, v4, v6));
    lemma_turn(turns[turn], candidates, v4, v6);
    if turns[turn].step is Attempt {
        let current = candidates[turns[turn].after.begun - 1];
        let selections = turns[turn].after.selections@;
        assert(candidates.contains(current));
        assert(targets_for(current, v4, v6).contains(selections[turns[turn].after.tried - 1]));
    }
}

/// One address more is left out where the pool has none of its family. Otherwise it is tried last
/// if it is of version 6, and after the other addresses of version 4 if it is of that version. The
/// others keep their order.
pub proof fn law_one_address_more(addresses: Seq<SocketAddr>, addr: SocketAddr, pool: Pool) -> (at:
    int)
    ensures
        ({
            let before = usable(addresses, pool);
            let after = usable(addresses.push(addr), pool);
            &&& usable(Seq::empty(), pool) == Seq::<SocketAddr>::empty()
            &&& 0 <= at <= before.len()
            &&& forall|i: int| 0 <= i < at ==> #[trigger] before[i] is V4
            &&& forall|i: int| at <= i < before.len() ==> #[trigger] before[i] is V6
            &&& addr is V4 && pool.v4.entries.len() == 0 ==> after == before
            &&& addr is V6 && pool.v6.entries.len() == 0 ==> after == before
            &&& addr is V4 && pool.v4.entries.len() > 0 ==> after == before.insert(at, addr)
            &&& addr is V6 && pool.v6.entries.len() > 0 ==> after == before.push(addr)
        }),
{
    let four = |addr: SocketAddr| addr is V4 && reachable(pool, addr);
    let six = |addr: SocketAddr| addr is V6 && reachable(pool, addr);
    let longer = addresses.push(addr);
    assert(longer.drop_last() =~= addresses);
    assert(longer.last() == addr);
    assert(Seq::<SocketAddr>::empty().filter(four) =~= Seq::empty()) by {
        reveal(Seq::filter);
    }
    assert(Seq::<SocketAddr>::empty().filter(six) =~= Seq::empty()) by {
        reveal(Seq::filter);
    }
    assert(usable(Seq::empty(), pool) =~= Seq::empty());
    assert(longer.filter(four) == if four(addr) {
        addresses.filter(four).push(addr)
    } else {
        addresses.filter(four)
    }) by {
        reveal(Seq::filter);
    }
    assert(longer.filter(six) == if six(addr) {
        addresses.filter(six).push(addr)
    } else {
        addresses.filter(six)
    }) by {
        reveal(Seq::filter);
    }
    let front = addresses.filter(four);
    let back = addresses.filter(six);
    assert forall|i: int| 0 <= i < front.len() implies #[trigger] front[i] is V4 by {
        addresses.lemma_filter_pred(four, i);
    }
    assert forall|i: int| 0 <= i < back.len() implies #[trigger] back[i] is V6 by {
        addresses.lemma_filter_pred(six, i);
    }
    let before = usable(addresses, pool);
    let after = usable(longer, pool);
    assert(before == front + back);
    if addr is V4 && pool.v4.entries.len() > 0 {
        assert(after =~= before.insert(front.len() as int, addr));
    } else if addr is V6 && pool.v6.entries.len() > 0 {
        assert(after =~= before.push(addr));
    } else {
        assert(after =~= before);
    }
    front.len() as int
}

// ---------------------------------------------------------------------
// Words
// ---------------------------------------------------------------------

/// What is said of an attempt names the endpoint, the adapter and its address, and then the error
/// or the five seconds that were waited.
pub proof fn law_words_on_an_attempt(remote: SocketAddr, selected: EgressTarget, error: String)
    ensures
        failure_words(remote, selected, AttemptFailure::Refused(error)) == "failed to connect "@
            + socket_text(remote) + " via "@ + selected.name@ + " ("@ + ip_text(selected.ip) + "): "@
            + error@,
        failure_words(remote, selected, AttemptFailure::TimedOut) == "timed out connecting "@
            + socket_text(remote) + " via "@ + selected.name@ + " ("@ + ip_text(selected.ip)
            + ") after "@ + decimal(5000) + " ms"@,
{
}

/// The addresses of a destination are itself, or what was looked up for its name and nothing else.
pub proof fn law_addresses_of_a_destination(
    addr: SocketAddr,
    host: Seq<char>,
    port: u16,
    found: Option<Seq<SocketAddr>>,
)
    ensures
        addresses_of(Destination::Ip(addr), found) == Some(seq![addr]),
        addresses_of(Destination::Domain(host, port), found) == found,
        unresolved_words(Destination::Domain(host, port)) == "failed to resolve "@ + host + ":"@
            + decimal(port as nat),
{
    assert(unresolved_words(Destination::Domain(host, port)) =~= "failed to resolve "@ + host
        + ":"@ + decimal(port as nat));
}

/// A plan tells the latest error, and without one that there is no address; an address that no
/// adapter reaches is told by its family.
pub proof fn law_words_of_a_plan(plan: ConnectPlan, v4: SocketAddrV4, v6: SocketAddrV6)
    ensures
        plan.last_error is None ==> plan.error_words()
            == "target did not resolve to a usable address"@,
        plan.last_error is Some ==> plan.error_words() == plan.last_error->0@,
        unreachable_words(SocketAddr::V4(v4)) == "no selected egress adapter can reach "@ + "IPv4"@,
        unreachable_words(SocketAddr::V6(v6)) == "no selected egress adapter can reach "@ + "IPv6"@,
{
}

} // verus!
