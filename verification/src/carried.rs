//! What the flows of an association add to the loads of the pool, and that closing the association
//! takes all of it off again.

use vstd::prelude::*;

use crate::adapter::EgressTarget;
use crate::addr::IpAddr;
use crate::pool::{
    lemma_closed_wf, lemma_position, lemma_same_position, position_of, EgressStrategy, Pool,
    PoolState, WeightedEntry,
};
use crate::udp::{pool_without, UdpFlow};

verus! {

// ---------------------------------------------------------------------
// What flows add
// ---------------------------------------------------------------------

/// Whether the flow leads to a host of the family.
pub open spec fn concerns(flow: UdpFlow, v4: bool) -> bool {
    (flow.remote.spec_ip() is V4) == v4
}

/// Whether the flow leads to a host of the family and leaves through the entry `index`.
pub open spec fn leaves_through(
    flow: UdpFlow,
    v4: bool,
    entries: Seq<WeightedEntry>,
    index: int,
) -> bool {
    concerns(flow, v4) && position_of(entries, flow.egress_ip) == Some(index)
}

/// How many of the flows leave through the entry `index` of a family.
pub open spec fn flows_through(
    flows: Seq<UdpFlow>,
    v4: bool,
    entries: Seq<WeightedEntry>,
    index: int,
) -> nat
    decreases flows.len(),
{
    if flows.len() == 0 {
        0
    } else {
        (if leaves_through(flows[0], v4, entries, index) {
            1nat
        } else {
            0
        }) + flows_through(flows.drop_first(), v4, entries, index)
    }
}

/// The bytes that the flows through the entry `index` of a family have moved.
pub open spec fn bytes_through(
    flows: Seq<UdpFlow>,
    v4: bool,
    entries: Seq<WeightedEntry>,
    index: int,
) -> nat
    decreases flows.len(),
{
    if flows.len() == 0 {
        0
    } else {
        (if leaves_through(flows[0], v4, entries, index) {
            (flows[0].up_bytes + flows[0].down_bytes) as nat
        } else {
            0
        }) + bytes_through(flows.drop_first(), v4, entries, index)
    }
}

/// How many of the flows lead to the host, where it is of the family.
pub open spec fn flows_to(flows: Seq<UdpFlow>, v4: bool, host: IpAddr) -> nat
    decreases flows.len(),
{
    if flows.len() == 0 {
        0
    } else {
        (if concerns(flows[0], v4) && flows[0].remote.spec_ip() == host {
            1nat
        } else {
            0
        }) + flows_to(flows.drop_first(), v4, host)
    }
}

/// How many connections to the host are open.
pub open spec fn open_to(state: PoolState, host: IpAddr) -> nat {
    if state.refs.dom().contains(host) {
        state.refs[host] as nat
    } else {
        0
    }
}

/// Whether the loads of a family are those of `before` and what the flows add to them.
pub open spec fn side_carries(
    before: PoolState,
    now: PoolState,
    flows: Seq<UdpFlow>,
    v4: bool,
    strategy: EgressStrategy,
) -> bool {
    &&& now.entries.len() == before.entries.len()
    &&& forall|i: int|
        0 <= i < now.entries.len() ==> {
            &&& (#[trigger] now.entries[i]).target == before.entries[i].target
            &&& now.entries[i].weight == before.entries[i].weight
            &&& now.entries[i].active_connections == before.entries[i].active_connections
                + flows_through(flows, v4, before.entries, i)
            &&& now.entries[i].active_bytes == before.entries[i].active_bytes + bytes_through(
                flows,
                v4,
                before.entries,
                i,
            )
        }
    &&& strategy == EgressStrategy::PerDestination ==> forall|host: IpAddr| #[trigger]
        open_to(now, host) == open_to(before, host) + flows_to(flows, v4, host)
    &&& strategy == EgressStrategy::PerConnection ==> now.refs == before.refs
}

/// Whether the loads of the pool are those of `before` and what the flows add to them. Which
/// address comes first is left open, as the pool moves on with every question for one.
pub open spec fn carries(before: Pool, now: Pool, flows: Seq<UdpFlow>) -> bool {
    &&& now.strategy == before.strategy
    &&& side_carries(before.v4, now.v4, flows, true, before.strategy)
    &&& side_carries(before.v6, now.v6, flows, false, before.strategy)
}

/// Whether each flow leaves through an address of the pool and has moved no more than can be
/// counted.
pub open spec fn known_flows(pool: Pool, flows: Seq<UdpFlow>) -> bool {
    forall|k: int|
        0 <= k < flows.len() ==> {
            &&& position_of(
                pool.side((#[trigger] flows[k]).remote.spec_ip()).entries,
                flows[k].egress_ip,
            ) is Some
            &&& flows[k].up_bytes + flows[k].down_bytes <= u64::MAX
        }
}

// ---------------------------------------------------------------------
// Proofs
// ---------------------------------------------------------------------

/// A flow more adds what it adds alone.
proof fn lemma_push(
    flows: Seq<UdpFlow>,
    flow: UdpFlow,
    v4: bool,
    entries: Seq<WeightedEntry>,
    index: int,
    host: IpAddr,
)
    ensures
        flows_through(flows.push(flow), v4, entries, index) == flows_through(
            flows,
            v4,
            entries,
            index,
        ) + (if leaves_through(flow, v4, entries, index) {
            1nat
        } else {
            0
        }),
        bytes_through(flows.push(flow), v4, entries, index) == bytes_through(
            flows,
            v4,
            entries,
            index,
        ) + (if leaves_through(flow, v4, entries, index) {
            (flow.up_bytes + flow.down_bytes) as nat
        } else {
            0
        }),
        flows_to(flows.push(flow), v4, host) == flows_to(flows, v4, host) + (if concerns(flow, v4)
            && flow.remote.spec_ip() == host {
            1nat
        } else {
            0
        }),
    decreases flows.len(),
{
    let longer = flows.push(flow);
    if flows.len() == 0 {
        reveal_with_fuel(flows_through, 2);
        reveal_with_fuel(bytes_through, 2);
        reveal_with_fuel(flows_to, 2);
        assert(longer.drop_first() =~= Seq::empty());
    } else {
        assert(longer[0] == flows[0]);
        assert(longer.drop_first() =~= flows.drop_first().push(flow));
        lemma_push(flows.drop_first(), flow, v4, entries, index, host);
    }
}

/// What a flow moves is added to the bytes of its entry and to nothing else.
proof fn lemma_more_bytes(
    flows: Seq<UdpFlow>,
    k: int,
    flow: UdpFlow,
    v4: bool,
    entries: Seq<WeightedEntry>,
    index: int,
    host: IpAddr,
)
    requires
        0 <= k < flows.len(),
        flow.remote == flows[k].remote,
        flow.egress_ip == flows[k].egress_ip,
    ensures
        flows_through(flows.update(k, flow), v4, entries, index) == flows_through(
            flows,
            v4,
            entries,
            index,
        ),
        leaves_through(flow, v4, entries, index) ==> bytes_through(
            flows.update(k, flow),
            v4,
            entries,
            index,
        ) + flows[k].up_bytes + flows[k].down_bytes == bytes_through(flows, v4, entries, index)
            + flow.up_bytes + flow.down_bytes,
        !leaves_through(flow, v4, entries, index) ==> bytes_through(
            flows.update(k, flow),
            v4,
            entries,
            index,
        ) == bytes_through(flows, v4, entries, index),
        flows_to(flows.update(k, flow), v4, host) == flows_to(flows, v4, host),
    decreases flows.len(),
{
    let changed = flows.update(k, flow);
    if k == 0 {
        assert(changed.drop_first() =~= flows.drop_first());
    } else {
        assert(changed.drop_first() =~= flows.drop_first().update(k - 1, flow));
        lemma_more_bytes(flows.drop_first(), k - 1, flow, v4, entries, index, host);
    }
}

/// Opening a flow adds it to the family of its host and leaves the other one alone.
proof fn lemma_opened_side(
    before: PoolState,
    now: PoolState,
    after: PoolState,
    flows: Seq<UdpFlow>,
    flow: UdpFlow,
    v4: bool,
    strategy: EgressStrategy,
)
    requires
        side_carries(before, now, flows, v4, strategy),
        concerns(flow, v4) ==> {
            &&& now.can_open(flow.remote.spec_ip(), flow.egress_ip, strategy)
            &&& position_of(now.entries, flow.egress_ip) is Some
            &&& after == now.opened(flow.remote.spec_ip(), flow.egress_ip, strategy)
        },
        !concerns(flow, v4) ==> after == now,
        flow.up_bytes == 0,
        flow.down_bytes == 0,
    ensures
        side_carries(before, after, flows.push(flow), v4, strategy),
{
    lemma_position(now.entries, flow.egress_ip);
    lemma_same_position(now.entries, before.entries, flow.egress_ip);
    let host = flow.remote.spec_ip();
    assert forall|i: int| 0 <= i < after.entries.len() implies {
        &&& (#[trigger] after.entries[i]).target == before.entries[i].target
        &&& after.entries[i].weight == before.entries[i].weight
        &&& after.entries[i].active_connections == before.entries[i].active_connections
            + flows_through(flows.push(flow), v4, before.entries, i)
        &&& after.entries[i].active_bytes == before.entries[i].active_bytes + bytes_through(
            flows.push(flow),
            v4,
            before.entries,
            i,
        )
    } by {
        assert(now.entries[i].target == before.entries[i].target);
        lemma_push(flows, flow, v4, before.entries, i, host);
    }
    if strategy == EgressStrategy::PerDestination {
        assert forall|other: IpAddr| #[trigger]
            open_to(after, other) == open_to(before, other) + flows_to(
                flows.push(flow),
                v4,
                other,
            ) by {
            assert(open_to(now, other) == open_to(before, other) + flows_to(flows, v4, other));
            lemma_push(flows, flow, v4, before.entries, 0, other);
        }
    }
}

/// What a flow moves is added to the family of its host, and the other one is left alone.
proof fn lemma_moved_side(
    before: PoolState,
    now: PoolState,
    after: PoolState,
    flows: Seq<UdpFlow>,
    k: int,
    flow: UdpFlow,
    bytes: u64,
    v4: bool,
    strategy: EgressStrategy,
)
    requires
        side_carries(before, now, flows, v4, strategy),
        0 <= k < flows.len(),
        flow.remote == flows[k].remote,
        flow.egress_ip == flows[k].egress_ip,
        flow.up_bytes + flow.down_bytes == flows[k].up_bytes + flows[k].down_bytes + bytes,
        concerns(flow, v4) ==> {
            &&& after == now.transferred(flow.egress_ip, bytes)
            &&& position_of(now.entries, flow.egress_ip) matches Some(i)
                ==> now.entries[i].active_bytes + bytes <= u64::MAX
        },
        !concerns(flow, v4) ==> after == now,
    ensures
        side_carries(before, after, flows.update(k, flow), v4, strategy),
{
    lemma_position(now.entries, flow.egress_ip);
    lemma_same_position(now.entries, before.entries, flow.egress_ip);
    let host = flow.remote.spec_ip();
    assert forall|i: int| 0 <= i < after.entries.len() implies {
        &&& (#[trigger] after.entries[i]).target == before.entries[i].target
        &&& after.entries[i].weight == before.entries[i].weight
        &&& after.entries[i].active_connections == before.entries[i].active_connections
            + flows_through(flows.update(k, flow), v4, before.entries, i)
        &&& after.entries[i].active_bytes == before.entries[i].active_bytes + bytes_through(
            flows.update(k, flow),
            v4,
            before.entries,
            i,
        )
    } by {
        assert(now.entries[i].target == before.entries[i].target);
        lemma_more_bytes(flows, k, flow, v4, before.entries, i, host);
    }
    if strategy == EgressStrategy::PerDestination {
        assert forall|other: IpAddr| #[trigger]
            open_to(after, other) == open_to(before, other) + flows_to(
                flows.update(k, flow),
                v4,
                other,
            ) by {
            assert(open_to(now, other) == open_to(before, other) + flows_to(flows, v4, other));
            lemma_more_bytes(flows, k, flow, v4, before.entries, 0, other);
        }
    }
}

/// Closing the first flow takes off what it adds.
proof fn lemma_close_first(
    before: PoolState,
    now: PoolState,
    flows: Seq<UdpFlow>,
    v4: bool,
    strategy: EgressStrategy,
)
    requires
        now.wf(),
        flows.len() > 0,
        side_carries(before, now, flows, v4, strategy),
        concerns(flows[0], v4) ==> position_of(before.entries, flows[0].egress_ip) is Some,
        flows[0].up_bytes + flows[0].down_bytes <= u64::MAX,
    ensures
        ({
            let flow = flows[0];
            let remote = flow.remote.spec_ip();
            let after = if concerns(flow, v4) {
                now.closed(
                    remote,
                    flow.egress_ip,
                    (flow.up_bytes + flow.down_bytes) as u64,
                    strategy,
                )
            } else {
                now
            };
            &&& after.wf()
            &&& side_carries(before, after, flows.drop_first(), v4, strategy)
            &&& after.cursor == now.cursor
            &&& forall|host: IpAddr|
                host != remote && now.chosen.dom().contains(host)
                    ==> #[trigger] after.chosen[host] == now.chosen[host]
        }),
{
    let flow = flows[0];
    let remote = flow.remote.spec_ip();
    let egress = flow.egress_ip;
    let bytes = (flow.up_bytes + flow.down_bytes) as u64;
    if concerns(flow, v4) {
        let after = now.closed(remote, egress, bytes, strategy);
        lemma_closed_wf(now, remote, egress, bytes, strategy);
        lemma_position(before.entries, egress);
        lemma_same_position(now.entries, before.entries, egress);
        let index = position_of(before.entries, egress)->0;
        assert(now.entries[index].active_connections >= 1);
        assert(now.entries[index].active_bytes >= bytes);
        assert forall|i: int| 0 <= i < after.entries.len() implies {
            &&& (#[trigger] after.entries[i]).target == before.entries[i].target
            &&& after.entries[i].weight == before.entries[i].weight
            &&& after.entries[i].active_connections == before.entries[i].active_connections
                + flows_through(flows.drop_first(), v4, before.entries, i)
            &&& after.entries[i].active_bytes == before.entries[i].active_bytes + bytes_through(
                flows.drop_first(),
                v4,
                before.entries,
                i,
            )
        } by {
            assert(now.entries[i].target == before.entries[i].target);
        }
        if strategy == EgressStrategy::PerDestination {
            assert(open_to(now, remote) >= 1);
            assert forall|host: IpAddr| #[trigger]
                open_to(after, host) == open_to(before, host) + flows_to(
                    flows.drop_first(),
                    v4,
                    host,
                ) by {
                assert(open_to(now, host) == open_to(before, host) + flows_to(flows, v4, host));
            }
        }
    } else {
        assert forall|i: int| 0 <= i < now.entries.len() implies flows_through(
            flows.drop_first(),
            v4,
            before.entries,
            i,
        ) == flows_through(flows, v4, before.entries, i) && bytes_through(
            flows.drop_first(),
            v4,
            before.entries,
            i,
        ) == bytes_through(flows, v4, before.entries, i) && (#[trigger] now.entries[i]).target
            == before.entries[i].target by {}
    }
}

/// Closing the first flow and then the others closes them all.
proof fn lemma_first_of_all(pool: Pool, flows: Seq<UdpFlow>)
    requires
        flows.len() > 0,
    ensures
        pool_without(pool, flows) == pool_without(
            pool.closed(
                flows[0].remote.spec_ip(),
                flows[0].egress_ip,
                (flows[0].up_bytes + flows[0].down_bytes) as u64,
            ),
            flows.drop_first(),
        ),
    decreases flows.len(),
{
    if flows.len() == 1 {
        assert(flows.drop_last() =~= Seq::empty());
        assert(flows.drop_first() =~= Seq::empty());
        assert(pool_without(pool, flows.drop_last()) == pool);
    } else {
        assert(flows.drop_last().drop_first() =~= flows.drop_first().drop_last());
        lemma_first_of_all(pool, flows.drop_last());
    }
}

/// A family without anything added is what it was.
proof fn lemma_nothing_added(
    before: PoolState,
    now: PoolState,
    v4: bool,
    strategy: EgressStrategy,
)
    requires
        before.wf(),
        now.wf(),
        side_carries(before, now, Seq::empty(), v4, strategy),
    ensures
        now.entries == before.entries,
        now.refs == before.refs,
        now.chosen.dom() == before.chosen.dom(),
{
    assert(now.entries =~= before.entries);
    if strategy == EgressStrategy::PerDestination {
        assert forall|host: IpAddr| #[trigger] now.refs.dom().contains(host)
            == before.refs.dom().contains(host) by {
            assert(open_to(now, host) == open_to(before, host));
            assert(now.chosen.dom().contains(host) == now.refs.dom().contains(host));
            assert(before.chosen.dom().contains(host) == before.refs.dom().contains(host));
        }
        assert(now.refs.dom() =~= before.refs.dom());
        assert forall|host: IpAddr| #[trigger] now.refs.dom().contains(host) implies now.refs[host]
            == before.refs[host] by {
            assert(open_to(now, host) == open_to(before, host));
        }
        assert(now.refs =~= before.refs);
    }
}

// ---------------------------------------------------------------------
// Laws
// ---------------------------------------------------------------------

/// A pool carries nothing before a flow is opened.
pub proof fn law_nothing_is_carried_at_first(pool: Pool)
    ensures
        carries(pool, pool, Seq::empty()),
{
}

/// Asking the pool for an order of addresses adds nothing to what it carries.
pub proof fn law_asking_adds_nothing(
    before: Pool,
    now: Pool,
    flows: Seq<UdpFlow>,
    remote: IpAddr,
    targets: Seq<EgressTarget>,
    asked: Pool,
)
    requires
        carries(before, now, flows),
        now.orders(remote, targets, asked),
    ensures
        carries(before, asked, flows),
{
    assert forall|host: IpAddr| #[trigger] open_to(asked.v4, host) == open_to(now.v4, host) by {}
    assert forall|host: IpAddr| #[trigger] open_to(asked.v6, host) == open_to(now.v6, host) by {}
}

/// A flow that is opened adds itself to what the pool carries.
pub proof fn law_opened_flow_is_carried(
    before: Pool,
    now: Pool,
    flows: Seq<UdpFlow>,
    flow: UdpFlow,
)
    requires
        carries(before, now, flows),
        now.can_open(flow.remote.spec_ip(), flow.egress_ip),
        position_of(now.side(flow.remote.spec_ip()).entries, flow.egress_ip) is Some,
        flow.up_bytes == 0,
        flow.down_bytes == 0,
    ensures
        carries(before, now.opened(flow.remote.spec_ip(), flow.egress_ip), flows.push(flow)),
{
    let after = now.opened(flow.remote.spec_ip(), flow.egress_ip);
    lemma_opened_side(before.v4, now.v4, after.v4, flows, flow, true, before.strategy);
    lemma_opened_side(before.v6, now.v6, after.v6, flows, flow, false, before.strategy);
}

/// What a flow moves adds to what the pool carries, unless a counter of bytes was full. `flow` is
/// the flow at `k` after it moved `bytes` in either direction.
pub proof fn law_moved_bytes_are_carried(
    before: Pool,
    now: Pool,
    flows: Seq<UdpFlow>,
    k: int,
    flow: UdpFlow,
    bytes: u64,
)
    requires
        carries(before, now, flows),
        0 <= k < flows.len(),
        flow.remote == flows[k].remote,
        flow.egress_ip == flows[k].egress_ip,
        flow.up_bytes + flow.down_bytes == flows[k].up_bytes + flows[k].down_bytes + bytes,
        position_of(now.side(flow.remote.spec_ip()).entries, flow.egress_ip) matches Some(i)
            ==> now.side(flow.remote.spec_ip()).entries[i].active_bytes + bytes <= u64::MAX,
    ensures
        carries(
            before,
            now.transferred(flow.remote.spec_ip(), flow.egress_ip, bytes),
            flows.update(k, flow),
        ),
{
    let after = now.transferred(flow.remote.spec_ip(), flow.egress_ip, bytes);
    lemma_moved_side(before.v4, now.v4, after.v4, flows, k, flow, bytes, true, before.strategy);
    lemma_moved_side(before.v6, now.v6, after.v6, flows, k, flow, bytes, false, before.strategy);
}

/// Closing an association takes off all that its flows have added: the load of every address is
/// what it was, and so are the hosts that are held and the number of open connections of each. A
/// host to which no flow leads is held to the address it was held to.
pub proof fn law_association_leaves_no_load(before: Pool, now: Pool, flows: Seq<UdpFlow>)
    requires
        before.v4.wf(),
        before.v6.wf(),
        now.v4.wf(),
        now.v6.wf(),
        carries(before, now, flows),
        known_flows(before, flows),
    ensures
        ({
            let after = pool_without(now, flows);
            &&& after.strategy == before.strategy
            &&& after.v4.entries == before.v4.entries
            &&& after.v6.entries == before.v6.entries
            &&& after.v4.refs == before.v4.refs
            &&& after.v6.refs == before.v6.refs
            &&& after.v4.chosen.dom() == before.v4.chosen.dom()
            &&& after.v6.chosen.dom() == before.v6.chosen.dom()
            &&& after.v4.cursor == now.v4.cursor
            &&& after.v6.cursor == now.v6.cursor
            &&& forall|host: IpAddr|
                flows_to(flows, true, host) == 0 && after.v4.chosen.dom().contains(host)
                    ==> #[trigger] after.v4.chosen[host] == now.v4.chosen[host]
            &&& forall|host: IpAddr|
                flows_to(flows, false, host) == 0 && after.v6.chosen.dom().contains(host)
                    ==> #[trigger] after.v6.chosen[host] == now.v6.chosen[host]
        }),
    decreases flows.len(),
{
    if flows.len() == 0 {
        assert(flows =~= Seq::empty());
        lemma_nothing_added(before.v4, now.v4, true, before.strategy);
        lemma_nothing_added(before.v6, now.v6, false, before.strategy);
    } else {
        let flow = flows[0];
        let rest = flows.drop_first();
        let next = now.closed(
            flow.remote.spec_ip(),
            flow.egress_ip,
            (flow.up_bytes + flow.down_bytes) as u64,
        );
        lemma_close_first(before.v4, now.v4, flows, true, before.strategy);
        lemma_close_first(before.v6, now.v6, flows, false, before.strategy);
        assert(known_flows(before, rest)) by {
            assert forall|k: int| 0 <= k < rest.len() implies {
                &&& position_of(
                    before.side((#[trigger] rest[k]).remote.spec_ip()).entries,
                    rest[k].egress_ip,
                ) is Some
                &&& rest[k].up_bytes + rest[k].down_bytes <= u64::MAX
            } by {
                assert(rest[k] == flows[k + 1]);
            }
        }
        law_association_leaves_no_load(before, next, rest);
        lemma_first_of_all(now, flows);
    }
}

} // verus!
