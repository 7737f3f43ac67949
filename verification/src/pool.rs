//! The pool of egress addresses: which one a new connection leaves through.
//!
//! Each address carries a load that is made of its open connections and of the bytes that these
//! have moved, divided by its weight. The least loaded address is tried first. Where connections
//! stick to their destination, an address once chosen for a remote host is kept for it until the
//! last connection to that host is closed.

use std::collections::HashMap;

use vstd::prelude::*;

use crate::adapter::EgressTarget;
use crate::addr::{ip_text, push_ip, IpAddr, Ipv4Addr, Ipv6Addr};
use crate::text::{decimal, join, joined, lemma_texts_push, push_decimal, texts};

verus! {

/// How connections are spread over the pool.
#[derive(Debug, Clone, Copy, PartialEq, Eq, Structural)]
pub enum EgressStrategy {
    PerConnection,
    PerDestination,
}

impl Default for EgressStrategy {
    fn default() -> (strategy: Self)
        ensures
            strategy == EgressStrategy::PerDestination,
    {
        EgressStrategy::PerDestination
    }
}

impl EgressStrategy {
    pub open spec fn words(self) -> Seq<char> {
        match self {
            EgressStrategy::PerConnection => "per-connection load balance"@,
            EgressStrategy::PerDestination => "sticky per destination IP"@,
        }
    }

    pub fn label(self) -> (label: &'static str)
        ensures
            label@ == self.words(),
    {
        match self {
            EgressStrategy::PerConnection => "per-connection load balance",
            EgressStrategy::PerDestination => "sticky per destination IP",
        }
    }
}

// ---------------------------------------------------------------------
// A map from addresses
// ---------------------------------------------------------------------

/// A map whose keys are addresses, each family by its numbers.
#[derive(Debug)]
pub struct IpMap<V> {
    v4: HashMap<u32, V>,
    v6: HashMap<u128, V>,
}

impl<V: Copy> IpMap<V> {
    pub closed spec fn map(self) -> Map<IpAddr, V> {
        Map::new(
            |key: IpAddr|
                match key {
                    IpAddr::V4(ip) => self.v4@.dom().contains(ip.number() as u32),
                    IpAddr::V6(ip) => self.v6@.dom().contains(ip.number() as u128),
                },
            |key: IpAddr|
                match key {
                    IpAddr::V4(ip) => self.v4@[ip.number() as u32],
                    IpAddr::V6(ip) => self.v6@[ip.number() as u128],
                },
        )
    }

    pub fn new() -> (out: Self)
        ensures
            out.map() == Map::<IpAddr, V>::empty(),
    {
        broadcast use vstd::std_specs::hash::group_hash_axioms;

        let out: IpMap<V> = IpMap { v4: HashMap::new(), v6: HashMap::new() };
        assert(out.map() =~= Map::<IpAddr, V>::empty());
        out
    }

    pub fn get(&self, key: &IpAddr) -> (value: Option<V>)
        ensures
            value == (if self.map().dom().contains(*key) {
                Some(self.map()[*key])
            } else {
                None
            }),
    {
        broadcast use vstd::std_specs::hash::group_hash_axioms;

        let found: Option<&V> = match *key {
            IpAddr::V4(ip) => self.v4.get(&ip.as_number()),
            IpAddr::V6(ip) => self.v6.get(&ip.as_number()),
        };
        match found {
            Some(value) => Some(*value),
            None => None,
        }
    }

    pub fn contains_key(&self, key: &IpAddr) -> (found: bool)
        ensures
            found == self.map().dom().contains(*key),
    {
        broadcast use vstd::std_specs::hash::group_hash_axioms;

        match *key {
            IpAddr::V4(ip) => self.v4.contains_key(&ip.as_number()),
            IpAddr::V6(ip) => self.v6.contains_key(&ip.as_number()),
        }
    }

    pub fn insert(&mut self, key: IpAddr, value: V)
        ensures
            final(self).map() == old(self).map().insert(key, value),
    {
        broadcast use vstd::std_specs::hash::group_hash_axioms;

        match key {
            IpAddr::V4(ip) => {
                self.v4.insert(ip.as_number(), value);
            },
            IpAddr::V6(ip) => {
                self.v6.insert(ip.as_number(), value);
            },
        }
        proof {
            lemma_numbers_tell_addresses(key);
            assert(self.map() =~= old(self).map().insert(key, value));
        }
    }

    pub fn remove(&mut self, key: &IpAddr)
        ensures
            final(self).map() == old(self).map().remove(*key),
    {
        broadcast use vstd::std_specs::hash::group_hash_axioms;

        match *key {
            IpAddr::V4(ip) => {
                self.v4.remove(&ip.as_number());
            },
            IpAddr::V6(ip) => {
                self.v6.remove(&ip.as_number());
            },
        }
        proof {
            lemma_numbers_tell_addresses(*key);
            assert(self.map() =~= old(self).map().remove(*key));
        }
    }
}

/// A number to a base tells its last digit and what stands before it.
proof fn lemma_last_digit(upper: nat, digit: nat, other_upper: nat, other_digit: nat, base: nat)
    requires
        digit < base,
        other_digit < base,
        upper * base + digit == other_upper * base + other_digit,
    ensures
        upper == other_upper,
        digit == other_digit,
{
    if upper < other_upper {
        assert(upper * base + base <= other_upper * base) by (nonlinear_arith)
            requires
                upper + 1 <= other_upper,
        ;
    } else if other_upper < upper {
        assert(other_upper * base + base <= upper * base) by (nonlinear_arith)
            requires
                other_upper + 1 <= upper,
        ;
    }
}

/// Addresses of version 4 that differ have numbers that differ.
proof fn lemma_number_tells_ipv4(one: Ipv4Addr, other: Ipv4Addr)
    requires
        one.number() == other.number(),
    ensures
        one == other,
{
    let (x, y) = (one, other);
    let (x2, y2) = (x.a as nat * 256 + x.b as nat, y.a as nat * 256 + y.b as nat);
    let (x3, y3) = (x2 * 256 + x.c as nat, y2 * 256 + y.c as nat);
    lemma_last_digit(x3, x.d as nat, y3, y.d as nat, 256);
    lemma_last_digit(x2, x.c as nat, y2, y.c as nat, 256);
    lemma_last_digit(x.a as nat, x.b as nat, y.a as nat, y.b as nat, 256);
}

/// Addresses of version 6 that differ have numbers that differ.
proof fn lemma_number_tells_ipv6(one: Ipv6Addr, other: Ipv6Addr)
    requires
        one.number() == other.number(),
    ensures
        one == other,
{
    let (x, y) = (one, other);
    let (x2, y2) = (x.s0 as nat * 0x1_0000 + x.s1 as nat, y.s0 as nat * 0x1_0000 + y.s1 as nat);
    let (x3, y3) = (x2 * 0x1_0000 + x.s2 as nat, y2 * 0x1_0000 + y.s2 as nat);
    let (x4, y4) = (x3 * 0x1_0000 + x.s3 as nat, y3 * 0x1_0000 + y.s3 as nat);
    let (x5, y5) = (x4 * 0x1_0000 + x.s4 as nat, y4 * 0x1_0000 + y.s4 as nat);
    let (x6, y6) = (x5 * 0x1_0000 + x.s5 as nat, y5 * 0x1_0000 + y.s5 as nat);
    let (x7, y7) = (x6 * 0x1_0000 + x.s6 as nat, y6 * 0x1_0000 + y.s6 as nat);
    lemma_last_digit(x7, x.s7 as nat, y7, y.s7 as nat, 0x1_0000);
    lemma_last_digit(x6, x.s6 as nat, y6, y.s6 as nat, 0x1_0000);
    lemma_last_digit(x5, x.s5 as nat, y5, y.s5 as nat, 0x1_0000);
    lemma_last_digit(x4, x.s4 as nat, y4, y.s4 as nat, 0x1_0000);
    lemma_last_digit(x3, x.s3 as nat, y3, y.s3 as nat, 0x1_0000);
    lemma_last_digit(x2, x.s2 as nat, y2, y.s2 as nat, 0x1_0000);
    lemma_last_digit(x.s0 as nat, x.s1 as nat, y.s0 as nat, y.s1 as nat, 0x1_0000);
}

/// The numbers by which the addresses of a family are kept tell them apart.
proof fn lemma_numbers_tell_addresses(key: IpAddr)
    ensures
        key matches IpAddr::V4(ip) ==> forall|other: Ipv4Addr|
            #[trigger] other.number() as u32 == ip.number() as u32 ==> other == ip,
        key matches IpAddr::V6(ip) ==> forall|other: Ipv6Addr|
            #[trigger] other.number() as u128 == ip.number() as u128 ==> other == ip,
{
    match key {
        IpAddr::V4(ip) => {
            assert(ip.number() <= u32::MAX);
            assert forall|other: Ipv4Addr|
                #[trigger] other.number() as u32 == ip.number() as u32 implies other == ip by {
                assert(other.number() <= u32::MAX);
                lemma_number_tells_ipv4(other, ip);
            }
        },
        IpAddr::V6(ip) => {
            assert(ip.number() <= u128::MAX);
            assert forall|other: Ipv6Addr|
                #[trigger] other.number() as u128 == ip.number() as u128 implies other == ip by {
                assert(other.number() <= u128::MAX);
                lemma_number_tells_ipv6(other, ip);
            }
        },
    }
}

// ---------------------------------------------------------------------
// Load
// ---------------------------------------------------------------------

/// The bytes that weigh as much as one unit of load.
pub const LOAD_BYTE_UNIT: u64 = 262_144;

/// An egress address with its load.
#[derive(Debug)]
pub struct WeightedEntry {
    pub target: EgressTarget,
    pub weight: u64,
    pub active_connections: u64,
    pub active_bytes: u64,
}

impl WeightedEntry {
    /// The load of the entry: a connection counts a million units, and the sum is divided by the
    /// weight.
    pub open spec fn score(self) -> nat {
        (self.active_connections as nat * 1_000_000 + (self.active_bytes / LOAD_BYTE_UNIT) as nat)
            / (self.weight as nat)
    }
}

/// How many steps lead from `start` to `index` on a ring of `len` places.
pub open spec fn ring_steps(start: int, index: int, len: int) -> int {
    (index + len - start) % len
}

/// How many steps lead from `start` to `index` on a ring of `len` places.
pub fn ring_distance(start: usize, index: usize, len: usize) -> (steps: usize)
    requires
        len > 0 ==> start <= index + len,
    ensures
        len == 0 ==> steps == 0,
        len > 0 ==> steps == ring_steps(start as int, index as int, len as int) && steps < len,
{
    if len == 0 {
        0
    } else {
        let sum: u128 = index as u128 + len as u128 - start as u128;
        (sum % (len as u128)) as usize
    }
}

/// Places on a ring that differ are reached in different numbers of steps.
proof fn lemma_ring(start: int, index: int, len: int)
    requires
        0 <= start < len,
        0 <= index < len,
    ensures
        ring_steps(start, index, len) == (if index >= start {
            index - start
        } else {
            index + len - start
        }),
{
    if index >= start {
        vstd::arithmetic::div_mod::lemma_mod_add_multiples_vanish(index - start, len);
        vstd::arithmetic::div_mod::lemma_small_mod((index - start) as nat, len as nat);
    } else {
        vstd::arithmetic::div_mod::lemma_small_mod((index + len - start) as nat, len as nat);
    }
}

// ---------------------------------------------------------------------
// The addresses of one family
// ---------------------------------------------------------------------

/// What the addresses of one family stand for: the entries, the entry that each remote host
/// sticks to, the number of its open connections, and the place after the latest choice.
#[verifier::ext_equal]
pub struct PoolState {
    pub entries: Seq<WeightedEntry>,
    pub chosen: Map<IpAddr, usize>,
    pub refs: Map<IpAddr, u64>,
    pub cursor: usize,
}

/// The first entry for the address.
pub open spec fn position_of(entries: Seq<WeightedEntry>, ip: IpAddr) -> Option<int>
    decreases entries.len(),
{
    if entries.len() == 0 {
        None
    } else {
        match position_of(entries.drop_last(), ip) {
            Some(i) => Some(i),
            None => if entries.last().target.ip == ip {
                Some(entries.len() - 1)
            } else {
                None
            },
        }
    }
}

impl PoolState {
    /// The cursor stands on an entry, each weight is the target's or one, the remote hosts that
    /// stick to an entry are those with open connections, and the entry exists.
    pub open spec fn wf(self) -> bool {
        &&& self.entries.len() <= usize::MAX
        &&& self.cursor < self.entries.len() || (self.entries.len() == 0 && self.cursor == 0)
        &&& forall|i: int|
            0 <= i < self.entries.len() ==> (#[trigger] self.entries[i]).weight == (
            if self.entries[i].target.weight == 0 {
                1
            } else {
                self.entries[i].target.weight as int
            })
        &&& self.chosen.dom() == self.refs.dom()
        &&& forall|ip: IpAddr| #[trigger]
            self.chosen.dom().contains(ip) ==> self.chosen[ip] < self.entries.len()
                && self.refs[ip] > 0
    }

    /// The targets, in the order in which they were given.
    pub open spec fn targets(self) -> Seq<EgressTarget> {
        self.entries.map_values(|entry: WeightedEntry| entry.target)
    }

    /// Whether the entry `i` is to be tried before the entry `j`, seen from the place `start`: its
    /// load is lower, or it is the same and `i` is reached sooner.
    pub open spec fn preferred(self, start: int, i: int, j: int) -> bool {
        let (a, b) = (self.entries[i].score(), self.entries[j].score());
        let len = self.entries.len() as int;
        a < b || (a == b && ring_steps(start, i, len) < ring_steps(start, j, len))
    }

    /// Whether the entry `i` is the least loaded one; of several the first from the cursor on.
    pub open spec fn least_loaded(self, i: int) -> bool {
        &&& 0 <= i < self.entries.len()
        &&& forall|j: int|
            0 <= j < self.entries.len() && j != i ==> #[trigger] self.preferred(
                self.cursor as int,
                i,
                j,
            )
    }

    /// Whether the entry `i` is the first one to be tried for a remote host.
    pub open spec fn first_choice(self, remote: IpAddr, strategy: EgressStrategy, i: int) -> bool {
        if strategy == EgressStrategy::PerDestination && self.chosen.dom().contains(remote) {
            i == self.chosen[remote]
        } else {
            self.least_loaded(i)
        }
    }

    /// Whether `order` lists every entry once: the entry `first`, then the others as they are
    /// preferred from there.
    pub open spec fn ranking(self, first: int, order: Seq<int>) -> bool {
        &&& order.len() == self.entries.len()
        &&& order.len() > 0
        &&& order[0] == first
        &&& forall|i: int| 0 <= i < order.len() ==> 0 <= #[trigger] order[i] < self.entries.len()
        &&& forall|i: int, j: int|
            0 <= i < j < order.len() ==> #[trigger] order[i] != #[trigger] order[j]
        &&& forall|i: int, j: int|
            1 <= i < j < order.len() ==> self.preferred(
                first,
                #[trigger] order[i],
                #[trigger] order[j],
            )
    }

    /// The state after a connection to `remote` was opened through `egress`.
    pub open spec fn opened(
        self,
        remote: IpAddr,
        egress: IpAddr,
        strategy: EgressStrategy,
    ) -> PoolState {
        match position_of(self.entries, egress) {
            None => self,
            Some(i) => {
                let entry = self.entries[i];
                let entries = self.entries.update(
                    i,
                    WeightedEntry {
                        active_connections: (entry.active_connections + 1) as u64,
                        ..entry
                    },
                );
                if strategy == EgressStrategy::PerDestination {
                    PoolState {
                        entries,
                        chosen: self.chosen.insert(remote, i as usize),
                        refs: self.refs.insert(
                            remote,
                            (if self.refs.dom().contains(remote) {
                                self.refs[remote] + 1
                            } else {
                                1
                            }) as u64,
                        ),
                        cursor: self.cursor,
                    }
                } else {
                    PoolState { entries, ..self }
                }
            },
        }
    }

    /// The state with `remote` held to the address at `index`, if it is held at all.
    pub open spec fn moved(self, remote: IpAddr, index: int, strategy: EgressStrategy) -> PoolState {
        if strategy == EgressStrategy::PerDestination && self.chosen.dom().contains(remote) {
            PoolState { chosen: self.chosen.insert(remote, index as usize), ..self }
        } else {
            self
        }
    }

    /// Whether no counter overflows when a connection to `remote` is opened through `egress`.
    pub open spec fn can_open(
        self,
        remote: IpAddr,
        egress: IpAddr,
        strategy: EgressStrategy,
    ) -> bool {
        match position_of(self.entries, egress) {
            None => true,
            Some(i) => {
                &&& self.entries[i].active_connections < u64::MAX
                &&& strategy == EgressStrategy::PerDestination && self.refs.dom().contains(remote)
                    ==> self.refs[remote] < u64::MAX
            },
        }
    }

    /// The state after a connection through `egress` moved `bytes`.
    pub open spec fn transferred(self, egress: IpAddr, bytes: u64) -> PoolState {
        match position_of(self.entries, egress) {
            None => self,
            Some(i) => {
                let entry = self.entries[i];
                let sum = entry.active_bytes + bytes;
                PoolState {
                    entries: self.entries.update(
                        i,
                        WeightedEntry {
                            active_bytes: (if sum > u64::MAX {
                                u64::MAX as int
                            } else {
                                sum
                            }) as u64,
                            ..entry
                        },
                    ),
                    ..self
                }
            },
        }
    }

    /// The state after a connection to `remote` through `egress` that moved `bytes` was closed.
    pub open spec fn closed(
        self,
        remote: IpAddr,
        egress: IpAddr,
        bytes: u64,
        strategy: EgressStrategy,
    ) -> PoolState {
        let entries = match position_of(self.entries, egress) {
            None => self.entries,
            Some(i) => {
                let entry = self.entries[i];
                self.entries.update(
                    i,
                    WeightedEntry {
                        active_connections: (if entry.active_connections > 0 {
                            entry.active_connections - 1
                        } else {
                            0
                        }) as u64,
                        active_bytes: (if entry.active_bytes > bytes {
                            entry.active_bytes - bytes
                        } else {
                            0
                        }) as u64,
                        ..entry
                    },
                )
            },
        };
        if strategy == EgressStrategy::PerDestination && self.refs.dom().contains(remote) {
            if self.refs[remote] <= 1 {
                PoolState {
                    entries,
                    chosen: self.chosen.remove(remote),
                    refs: self.refs.remove(remote),
                    cursor: self.cursor,
                }
            } else {
                PoolState {
                    entries,
                    refs: self.refs.insert(remote, (self.refs[remote] - 1) as u64),
                    ..self
                }
            }
        } else {
            PoolState { entries, ..self }
        }
    }
}

/// The addresses of one family and their load.
#[derive(Debug)]
pub struct WeightedState {
    pub entries: Vec<WeightedEntry>,
    pub destination_map: IpMap<usize>,
    pub destination_refs: IpMap<u64>,
    pub cursor: usize,
}

impl View for WeightedState {
    type V = PoolState;

    open spec fn view(&self) -> PoolState {
        PoolState {
            entries: self.entries@,
            chosen: self.destination_map.map(),
            refs: self.destination_refs.map(),
            cursor: self.cursor,
        }
    }
}

/// The entries for `targets` before any connection was opened.
pub open spec fn idle_entries(targets: Seq<EgressTarget>) -> Seq<WeightedEntry> {
    targets.map_values(
        |target: EgressTarget|
            WeightedEntry {
                target,
                weight: if target.weight == 0 {
                    1
                } else {
                    target.weight as u64
                },
                active_connections: 0,
                active_bytes: 0,
            },
    )
}

impl WeightedState {
    pub open spec fn wf(self) -> bool {
        self@.wf()
    }

    pub fn new(targets: Vec<EgressTarget>) -> (state: Self)
        ensures
            state.wf(),
            state@.entries == idle_entries(targets@),
            state@.chosen == Map::<IpAddr, usize>::empty(),
            state@.refs == Map::<IpAddr, u64>::empty(),
            state@.cursor == 0,
    {
        let mut entries: Vec<WeightedEntry> = Vec::new();
        let mut i: usize = 0;
        while i < targets.len()
            invariant
                i <= targets@.len(),
                entries@.len() == i,
                forall|j: int| 0 <= j < i ==> #[trigger] entries@[j] == idle_entries(targets@)[j],
            decreases targets@.len() - i,
        {
            let target: EgressTarget = targets[i].clone();
            let weight: u64 = if target.weight == 0 {
                1
            } else {
                target.weight as u64
            };
            entries.push(WeightedEntry { target, weight, active_connections: 0, active_bytes: 0 });
            i += 1;
        }
        assert(entries@ =~= idle_entries(targets@));
        assert(entries.len() <= usize::MAX);
        WeightedState {
            entries,
            destination_map: IpMap::new(),
            destination_refs: IpMap::new(),
            cursor: 0,
        }
    }

    pub fn len(&self) -> (len: usize)
        ensures
            len == self@.entries.len(),
    {
        self.entries.len()
    }

    pub fn load_score(&self, index: usize) -> (score: u128)
        requires
            self.wf(),
            index < self@.entries.len(),
        ensures
            score == self@.entries[index as int].score(),
    {
        let entry: &WeightedEntry = &self.entries[index];
        let normalized_active: u128 = entry.active_connections as u128 * 1_000_000;
        let normalized_bytes: u128 = (entry.active_bytes / LOAD_BYTE_UNIT) as u128;
        assert(entry == self@.entries[index as int]);
        (normalized_active + normalized_bytes) / (entry.weight as u128)
    }

    fn is_preferred(&self, start: usize, i: usize, j: usize) -> (before: bool)
        requires
            self.wf(),
            start < self@.entries.len(),
            i < self@.entries.len(),
            j < self@.entries.len(),
        ensures
            before == self@.preferred(start as int, i as int, j as int),
    {
        let len: usize = self.entries.len();
        let a: u128 = self.load_score(i);
        let b: u128 = self.load_score(j);
        a < b || (a == b && ring_distance(start, i, len) < ring_distance(start, j, len))
    }

    pub fn pick_least_loaded(&self) -> (index: usize)
        requires
            self.wf(),
        ensures
            self@.entries.len() == 0 ==> index == 0,
            self@.entries.len() > 0 ==> self@.least_loaded(index as int),
    {
        let len: usize = self.entries.len();
        if len == 0 {
            return 0;
        }
        let mut best: usize = 0;
        let mut i: usize = 1;
        while i < len
            invariant
                self.wf(),
                len == self@.entries.len(),
                self.cursor < len,
                best < i <= len,
                forall|j: int|
                    0 <= j < i && j != best ==> #[trigger] self@.preferred(
                        self.cursor as int,
                        best as int,
                        j,
                    ),
            decreases len - i,
        {
            proof {
                lemma_ring(self.cursor as int, best as int, len as int);
                lemma_ring(self.cursor as int, i as int, len as int);
            }
            if self.is_preferred(self.cursor, i, best) {
                proof {
                    let start = self.cursor as int;
                    assert forall|j: int| 0 <= j < i implies #[trigger] self@.preferred(
                        start,
                        i as int,
                        j,
                    ) by {
                        assert(j != best ==> self@.preferred(start, best as int, j));
                    }
                }
                best = i;
            }
            i += 1;
        }
        best
    }

    /// Puts `item` into the ranking of the entries below `item`.
    fn insert_ranked(&self, order: &mut Vec<usize>, first: usize, item: usize)
        requires
            self.wf(),
            first < self@.entries.len(),
            item < self@.entries.len(),
            item != first,
            old(order)@.len() > 0,
            old(order)@.len() < self@.entries.len(),
            old(order)@[0] == first,
            forall|i: int|
                0 <= i < old(order)@.len() ==> #[trigger] old(order)@[i] < self@.entries.len()
                    && (old(order)@[i] == first || old(order)@[i] < item),
            forall|i: int, j: int|
                0 <= i < j < old(order)@.len() ==> #[trigger] old(order)@[i]
                    != #[trigger] old(order)@[j],
            forall|i: int, j: int|
                1 <= i < j < old(order)@.len() ==> self@.preferred(
                    first as int,
                    #[trigger] old(order)@[i] as int,
                    #[trigger] old(order)@[j] as int,
                ),
        ensures
            final(order)@.len() == old(order)@.len() + 1,
            final(order)@[0] == first,
            forall|i: int|
                0 <= i < final(order)@.len() ==> #[trigger] final(order)@[i] < self@.entries.len()
                    && (final(order)@[i] == first || final(order)@[i] <= item),
            forall|i: int, j: int|
                0 <= i < j < final(order)@.len() ==> #[trigger] final(order)@[i]
                    != #[trigger] final(order)@[j],
            forall|i: int, j: int|
                1 <= i < j < final(order)@.len() ==> self@.preferred(
                    first as int,
                    #[trigger] final(order)@[i] as int,
                    #[trigger] final(order)@[j] as int,
                ),
    {
        let ghost len = self@.entries.len() as int;
        let mut at: usize = 1;
        while at < order.len() && !self.is_preferred(first, item, order[at])
            invariant
                self.wf(),
                len == self@.entries.len(),
                first < len,
                item < len,
                1 <= at <= order@.len(),
                forall|i: int|
                    0 <= i < order@.len() ==> #[trigger] order@[i] < len && (order@[i] == first
                        || order@[i] < item),
                forall|i: int, j: int|
                    0 <= i < j < order@.len() ==> #[trigger] order@[i] != #[trigger] order@[j],
                order@[0] == first,
                forall|i: int|
                    1 <= i < at ==> self@.preferred(
                        first as int,
                        #[trigger] order@[i] as int,
                        item as int,
                    ),
            decreases order@.len() - at,
        {
            proof {
                let other = order@[at as int] as int;
                assert(order@[0] != order@[at as int]);
                lemma_ring(first as int, other, len);
                lemma_ring(first as int, item as int, len);
            }
            at += 1;
        }
        let ghost before = order@;
        order.insert(at, item);
        proof {
            assert(order@ =~= before.insert(at as int, item));
            assert forall|i: int, j: int| 0 <= i < j < order@.len() implies #[trigger] order@[i]
                != #[trigger] order@[j] by {
                let a = if i < at { i } else { i - 1 };
                let b = if j < at { j } else { j - 1 };
                if i != at {
                    assert(order@[i] == before[a]);
                }
                if j != at {
                    assert(order@[j] == before[b]);
                }
            }
            assert forall|i: int, j: int| 1 <= i < j < order@.len() implies self@.preferred(
                first as int,
                #[trigger] order@[i] as int,
                #[trigger] order@[j] as int,
            ) by {
                let a = if i < at { i } else { i - 1 };
                let b = if j < at { j } else { j - 1 };
                if i == at {
                    assert(order@[j] == before[b]);
                    if b > at {
                        assert(self@.preferred(
                            first as int,
                            before[at as int] as int,
                            before[b] as int,
                        ));
                    }
                } else if j == at {
                    assert(order@[i] == before[a]);
                } else {
                    assert(order@[i] == before[a]);
                    assert(order@[j] == before[b]);
                }
            }
        }
    }

    /// The targets in the order in which they are to be tried for a connection to `remote_ip`.
    pub fn ordered_for(&mut self, remote_ip: IpAddr, strategy: EgressStrategy) -> (out: Vec<
        EgressTarget,
    >)
        requires
            old(self).wf(),
        ensures
            final(self).wf(),
            final(self)@.entries == old(self)@.entries,
            final(self)@.chosen == old(self)@.chosen,
            final(self)@.refs == old(self)@.refs,
            old(self)@.entries.len() == 0 ==> out@.len() == 0 && final(self)@.cursor == 0,
            old(self)@.entries.len() > 0 ==> exists|first: int, order: Seq<int>|
                {
                    &&& old(self)@.first_choice(remote_ip, strategy, first)
                    &&& #[trigger] old(self)@.ranking(first, order)
                    &&& out@ == order.map_values(|i: int| old(self)@.entries[i].target)
                    &&& final(self)@.cursor == (first + 1) % (old(self)@.entries.len() as int)
                },
            old(self)@.entries.len() > 0 && (strategy == EgressStrategy::PerConnection || !old(
                self,
            )@.chosen.dom().contains(remote_ip)) ==> exists|first: int|
                0 <= first < old(self)@.entries.len() && out@[0] == (
                #[trigger] old(self)@.entries[first]).target && forall|j: int|
                    0 <= j < old(self)@.entries.len() ==> (
                    old(self)@.entries[first].active_connections as int * 1_000_000 + old(
                        self,
                    )@.entries[first].active_bytes as int / 262_144) / (
                    old(self)@.entries[first].weight as int) <= ((
                    #[trigger] old(self)@.entries[j]).active_connections as int * 1_000_000 + old(
                        self,
                    )@.entries[j].active_bytes as int / 262_144) / (
                    old(self)@.entries[j].weight as int),
            old(self)@.entries.len() > 0 && strategy == EgressStrategy::PerDestination && old(
                self,
            )@.chosen.dom().contains(remote_ip) ==> out@[0] == old(self)@.entries[old(
                self,
            )@.chosen[remote_ip] as int].target,
    {
        let len: usize = self.entries.len();
        let mut out: Vec<EgressTarget> = Vec::new();
        if len == 0 {
            return out;
        }
        let known: Option<usize> = match strategy {
            EgressStrategy::PerDestination => self.destination_map.get(&remote_ip),
            EgressStrategy::PerConnection => None,
        };
        let first: usize = match known {
            Some(index) => index,
            None => self.pick_least_loaded(),
        };
        assert(self@.first_choice(remote_ip, strategy, first as int));
        let mut order: Vec<usize> = Vec::new();
        order.push(first);
        let mut item: usize = 0;
        while item < len
            invariant
                self.wf(),
                *self == *old(self),
                len == self@.entries.len(),
                first < len,
                item <= len,
                order@.len() == item + (if first < item {
                    0int
                } else {
                    1
                }),
                order@[0] == first,
                forall|i: int|
                    0 <= i < order@.len() ==> #[trigger] order@[i] < len && (order@[i] == first
                        || order@[i] < item),
                forall|i: int, j: int|
                    0 <= i < j < order@.len() ==> #[trigger] order@[i] != #[trigger] order@[j],
                forall|i: int, j: int|
                    1 <= i < j < order@.len() ==> self@.preferred(
                        first as int,
                        #[trigger] order@[i] as int,
                        #[trigger] order@[j] as int,
                    ),
            decreases len - item,
        {
            if item != first {
                self.insert_ranked(&mut order, first, item);
            }
            item += 1;
        }
        let ghost ranked = order@.map_values(|i: usize| i as int);
        proof {
            assert forall|i: int, j: int| 0 <= i < j < ranked.len() implies #[trigger] ranked[i]
                != #[trigger] ranked[j] by {
                assert(order@[i] != order@[j]);
            }
            assert forall|i: int, j: int| 1 <= i < j < ranked.len() implies self@.preferred(
                first as int,
                #[trigger] ranked[i],
                #[trigger] ranked[j],
            ) by {
                assert(self@.preferred(first as int, order@[i] as int, order@[j] as int));
            }
            assert(self@.ranking(first as int, ranked));
        }
        let mut k: usize = 0;
        while k < order.len()
            invariant
                k <= order@.len(),
                out@.len() == k,
                len == self@.entries.len(),
                forall|i: int| 0 <= i < order@.len() ==> #[trigger] order@[i] < len,
                forall|i: int|
                    0 <= i < k ==> #[trigger] out@[i] == self@.entries[order@[i] as int].target,
            decreases order@.len() - k,
        {
            out.push(self.entries[order[k]].target.clone());
            k += 1;
        }
        assert(out@ =~= ranked.map_values(|i: int| self@.entries[i].target));
        proof {
            assert(out@[0] == self@.entries[first as int].target);
            if known is None {
                assert forall|j: int| 0 <= j < len implies self@.entries[first as int].score() <= (
                #[trigger] self@.entries[j]).score() by {
                    if j != first {
                        assert(self@.preferred(self.cursor as int, first as int, j));
                    }
                }
            }
        }
        self.cursor = if first == len - 1 {
            0
        } else {
            first + 1
        };
        proof {
            if first == len - 1 {
                vstd::arithmetic::div_mod::lemma_mod_self_0(len as int);
            } else {
                vstd::arithmetic::div_mod::lemma_small_mod((first + 1) as nat, len as nat);
            }
        }
        out
    }

    pub fn index_for(&self, ip: IpAddr) -> (index: Option<usize>)
        ensures
            match index {
                Some(i) => position_of(self@.entries, ip) == Some(i as int) && i
                    < self@.entries.len(),
                None => position_of(self@.entries, ip) is None,
            },
    {
        let mut i: usize = 0;
        assert(self.entries@.take(0) =~= Seq::empty());
        while i < self.entries.len()
            invariant
                i <= self.entries@.len(),
                position_of(self.entries@.take(i as int), ip) is None,
            decreases self.entries@.len() - i,
        {
            proof {
                assert(self.entries@.take(i + 1).drop_last() =~= self.entries@.take(i as int));
                assert(self.entries@.take(i + 1).last() == self.entries@[i as int]);
            }
            if self.entries[i].target.ip == ip {
                proof {
                    lemma_position_prefix(self.entries@, i + 1, ip);
                }
                return Some(i);
            }
            i += 1;
        }
        assert(self.entries@.take(i as int) =~= self.entries@);
        None
    }

    /// Whether no counter overflows when a connection is opened.
    pub fn may_open(&self, remote_ip: IpAddr, egress_ip: IpAddr, strategy: EgressStrategy) -> (may:
        bool)
        requires
            self.wf(),
        ensures
            may == self@.can_open(remote_ip, egress_ip, strategy),
    {
        match self.index_for(egress_ip) {
            None => true,
            Some(i) => {
                if self.entries[i].active_connections == u64::MAX {
                    return false;
                }
                match strategy {
                    EgressStrategy::PerConnection => true,
                    EgressStrategy::PerDestination => match self.destination_refs.get(&remote_ip) {
                        Some(count) => count < u64::MAX,
                        None => true,
                    },
                }
            },
        }
    }

    pub fn record_open(&mut self, remote_ip: IpAddr, egress_ip: IpAddr, strategy: EgressStrategy)
        requires
            old(self).wf(),
            old(self)@.can_open(remote_ip, egress_ip, strategy),
        ensures
            final(self).wf(),
            final(self)@ == old(self)@.opened(remote_ip, egress_ip, strategy),
    {
        let ghost before = *self;
        match self.index_for(egress_ip) {
            Some(index) => {
                let entry: &WeightedEntry = &self.entries[index];
                let changed: WeightedEntry = WeightedEntry {
                    target: entry.target.clone(),
                    weight: entry.weight,
                    active_connections: entry.active_connections + 1,
                    active_bytes: entry.active_bytes,
                };
                self.entries.set(index, changed);
                match strategy {
                    EgressStrategy::PerDestination => {
                        let count: u64 = match self.destination_refs.get(&remote_ip) {
                            Some(count) => count + 1,
                            None => 1,
                        };
                        self.destination_map.insert(remote_ip, index);
                        self.destination_refs.insert(remote_ip, count);
                    },
                    EgressStrategy::PerConnection => {},
                }
            },
            None => {},
        }
        assert(self@ =~= before@.opened(remote_ip, egress_ip, strategy));
        proof {
            lemma_opened_wf(before@, remote_ip, egress_ip, strategy);
        }
    }

    pub fn record_transfer(&mut self, _remote_ip: IpAddr, egress_ip: IpAddr, bytes: u64)
        requires
            old(self).wf(),
        ensures
            final(self).wf(),
            final(self)@ == old(self)@.transferred(egress_ip, bytes),
    {
        let ghost before = *self;
        match self.index_for(egress_ip) {
            Some(index) => {
                let entry: &WeightedEntry = &self.entries[index];
                let changed: WeightedEntry = WeightedEntry {
                    target: entry.target.clone(),
                    weight: entry.weight,
                    active_connections: entry.active_connections,
                    active_bytes: entry.active_bytes.saturating_add(bytes),
                };
                self.entries.set(index, changed);
            },
            None => {},
        }
        assert(self@ =~= before@.transferred(egress_ip, bytes));
        proof {
            lemma_transferred_wf(before@, egress_ip, bytes);
        }
    }

    pub fn record_close(
        &mut self,
        remote_ip: IpAddr,
        egress_ip: IpAddr,
        bytes: u64,
        strategy: EgressStrategy,
    )
        requires
            old(self).wf(),
        ensures
            final(self).wf(),
            final(self)@ == old(self)@.closed(remote_ip, egress_ip, bytes, strategy),
    {
        let ghost before = *self;
        match self.index_for(egress_ip) {
            Some(index) => {
                let entry: &WeightedEntry = &self.entries[index];
                let changed: WeightedEntry = WeightedEntry {
                    target: entry.target.clone(),
                    weight: entry.weight,
                    active_connections: entry.active_connections.saturating_sub(1),
                    active_bytes: entry.active_bytes.saturating_sub(bytes),
                };
                self.entries.set(index, changed);
            },
            None => {},
        }
        match strategy {
            EgressStrategy::PerDestination => match self.destination_refs.get(&remote_ip) {
                Some(count) => {
                    if count <= 1 {
                        self.destination_refs.remove(&remote_ip);
                        self.destination_map.remove(&remote_ip);
                    } else {
                        self.destination_refs.insert(remote_ip, count - 1);
                    }
                },
                None => {},
            },
            EgressStrategy::PerConnection => {},
        }
        assert(self@ =~= before@.closed(remote_ip, egress_ip, bytes, strategy));
        proof {
            lemma_closed_wf(before@, remote_ip, egress_ip, bytes, strategy);
        }
    }

    /// A line on each entry.
    pub fn describe(&self) -> (parts: Vec<String>)
        ensures
            texts(parts@) == described(self@.targets()),
    {
        let mut parts: Vec<String> = Vec::new();
        let mut i: usize = 0;
        while i < self.entries.len()
            invariant
                i <= self.entries@.len(),
                parts@.len() == i,
                forall|j: int|
                    0 <= j < i ==> #[trigger] parts@[j]@ == target_text(self.entries@[j].target),
            decreases self.entries@.len() - i,
        {
            let target: &EgressTarget = &self.entries[i].target;
            let mut part: String = target.name.clone();
            part.append(" (");
            push_ip(&mut part, target.ip);
            part.append(", weight ");
            push_decimal(&mut part, target.weight as u64);
            part.append(")");
            parts.push(part);
            i += 1;
        }
        assert(texts(parts@) =~= described(self@.targets()));
        parts
    }
}

/// How a target is described: its name, its address and its weight.
pub open spec fn target_text(target: EgressTarget) -> Seq<char> {
    target.name@ + " ("@ + ip_text(target.ip) + ", weight "@ + decimal(target.weight as nat)
        + ")"@
}

/// How each of the targets is described.
pub open spec fn described(targets: Seq<EgressTarget>) -> Seq<Seq<char>> {
    targets.map_values(|target: EgressTarget| target_text(target))
}

/// What is found in a prefix is found in the whole.
proof fn lemma_position_prefix(entries: Seq<WeightedEntry>, count: int, ip: IpAddr)
    requires
        0 <= count <= entries.len(),
        position_of(entries.take(count), ip) is Some,
    ensures
        position_of(entries, ip) == position_of(entries.take(count), ip),
    decreases entries.len(),
{
    if count == entries.len() {
        assert(entries.take(count) =~= entries);
    } else {
        assert(entries.drop_last().take(count) =~= entries.take(count));
        lemma_position_prefix(entries.drop_last(), count, ip);
    }
}

/// The first entry for an address is an entry for that address.
pub proof fn lemma_position(entries: Seq<WeightedEntry>, ip: IpAddr)
    ensures
        position_of(entries, ip) matches Some(i) ==> {
            &&& 0 <= i < entries.len()
            &&& entries[i].target.ip == ip
            &&& forall|j: int| 0 <= j < i ==> (#[trigger] entries[j]).target.ip != ip
        },
        position_of(entries, ip) is None ==> forall|j: int|
            0 <= j < entries.len() ==> (#[trigger] entries[j]).target.ip != ip,
    decreases entries.len(),
{
    if entries.len() > 0 {
        lemma_position(entries.drop_last(), ip);
        assert forall|j: int| 0 <= j < entries.len() - 1 implies #[trigger] entries[j]
            == entries.drop_last()[j] by {}
    }
}

proof fn lemma_opened_wf(
    state: PoolState,
    remote: IpAddr,
    egress: IpAddr,
    strategy: EgressStrategy,
)
    requires
        state.wf(),
        state.can_open(remote, egress, strategy),
    ensures
        state.opened(remote, egress, strategy).wf(),
{
    lemma_position(state.entries, egress);
    let after = state.opened(remote, egress, strategy);
    assert(after.chosen.dom() =~= after.refs.dom());
}

proof fn lemma_transferred_wf(state: PoolState, egress: IpAddr, bytes: u64)
    requires
        state.wf(),
    ensures
        state.transferred(egress, bytes).wf(),
{
    lemma_position(state.entries, egress);
}

pub proof fn lemma_closed_wf(
    state: PoolState,
    remote: IpAddr,
    egress: IpAddr,
    bytes: u64,
    strategy: EgressStrategy,
)
    requires
        state.wf(),
    ensures
        state.closed(remote, egress, bytes, strategy).wf(),
{
    lemma_position(state.entries, egress);
    let after = state.closed(remote, egress, bytes, strategy);
    assert(after.chosen.dom() =~= after.refs.dom());
}

// ---------------------------------------------------------------------
// Both families
// ---------------------------------------------------------------------

/// The egress addresses of both families.
#[derive(Debug)]
pub struct WeightedPool {
    pub v4: WeightedState,
    pub v6: WeightedState,
    pub strategy: EgressStrategy,
}

/// What the pool stands for: the addresses of each family and the strategy.
#[verifier::ext_equal]
pub struct Pool {
    pub v4: PoolState,
    pub v6: PoolState,
    pub strategy: EgressStrategy,
}

impl View for WeightedPool {
    type V = Pool;

    open spec fn view(&self) -> Pool {
        Pool { v4: self.v4@, v6: self.v6@, strategy: self.strategy }
    }
}

impl Pool {
    /// The addresses through which `remote` can be reached: those of its family.
    pub open spec fn side(self, remote: IpAddr) -> PoolState {
        match remote {
            IpAddr::V4(_) => self.v4,
            IpAddr::V6(_) => self.v6,
        }
    }

    /// The pool with other loads in the family of `remote`.
    pub open spec fn with_side(self, remote: IpAddr, state: PoolState) -> Pool {
        match remote {
            IpAddr::V4(_) => Pool { v4: state, ..self },
            IpAddr::V6(_) => Pool { v6: state, ..self },
        }
    }

    /// The pool after a connection to `remote` was opened through `egress`.
    pub open spec fn opened(self, remote: IpAddr, egress: IpAddr) -> Pool {
        self.with_side(remote, self.side(remote).opened(remote, egress, self.strategy))
    }

    /// The pool after a connection to `remote` through `egress` moved `bytes`.
    pub open spec fn transferred(self, remote: IpAddr, egress: IpAddr, bytes: u64) -> Pool {
        self.with_side(remote, self.side(remote).transferred(egress, bytes))
    }

    /// The pool after a connection to `remote` through `egress` that moved `bytes` was closed.
    pub open spec fn closed(self, remote: IpAddr, egress: IpAddr, bytes: u64) -> Pool {
        self.with_side(remote, self.side(remote).closed(remote, egress, bytes, self.strategy))
    }

    /// Whether no counter overflows when a connection to `remote` is opened through `egress`.
    pub open spec fn can_open(self, remote: IpAddr, egress: IpAddr) -> bool {
        self.side(remote).can_open(remote, egress, self.strategy)
    }

    /// Whether `targets` is an order in which the addresses may be tried for `remote`, and
    /// `after` is the pool once that order was given.
    pub open spec fn orders(self, remote: IpAddr, targets: Seq<EgressTarget>, after: Pool) -> bool {
        let side = self.side(remote);
        if side.entries.len() == 0 {
            targets.len() == 0 && after == self
        } else {
            exists|first: int, order: Seq<int>|
                {
                    &&& side.first_choice(remote, self.strategy, first)
                    &&& #[trigger] side.ranking(first, order)
                    &&& targets == order.map_values(|i: int| side.entries[i].target)
                    &&& after == self.with_side(
                        remote,
                        PoolState {
                            cursor: ((first + 1) % (side.entries.len() as int)) as usize,
                            ..side
                        },
                    )
                }
        }
    }
}

/// The targets of the family of `ip`, in the order in which they were given.
pub open spec fn of_family(targets: Seq<EgressTarget>, v4: bool) -> Seq<EgressTarget> {
    targets.filter(|target: EgressTarget| (target.ip is V4) == v4)
}

impl WeightedPool {
    pub open spec fn wf(self) -> bool {
        &&& self.v4.wf()
        &&& self.v6.wf()
        &&& forall|i: int|
            0 <= i < self.v4@.entries.len() ==> (#[trigger] self.v4@.entries[i]).target.ip is V4
        &&& forall|i: int|
            0 <= i < self.v6@.entries.len() ==> (#[trigger] self.v6@.entries[i]).target.ip is V6
    }

    pub fn new(targets: Vec<EgressTarget>, strategy: EgressStrategy) -> (pool: Self)
        ensures
            pool.wf(),
            pool.strategy == strategy,
            pool.v4@.entries == idle_entries(of_family(targets@, true)),
            pool.v6@.entries == idle_entries(of_family(targets@, false)),
            pool.v4@.chosen == Map::<IpAddr, usize>::empty(),
            pool.v6@.chosen == Map::<IpAddr, usize>::empty(),
            pool.v4@.refs == Map::<IpAddr, u64>::empty(),
            pool.v6@.refs == Map::<IpAddr, u64>::empty(),
            pool.v4@.cursor == 0,
            pool.v6@.cursor == 0,
    {
        let mut v4: Vec<EgressTarget> = Vec::new();
        let mut v6: Vec<EgressTarget> = Vec::new();
        let mut i: usize = 0;
        proof {
            reveal(Seq::filter);
        }
        assert(targets@.take(0) =~= Seq::empty());
        while i < targets.len()
            invariant
                i <= targets@.len(),
                v4@ == of_family(targets@.take(i as int), true),
                v6@ == of_family(targets@.take(i as int), false),
                forall|j: int| 0 <= j < v4@.len() ==> (#[trigger] v4@[j]).ip is V4,
                forall|j: int| 0 <= j < v6@.len() ==> (#[trigger] v6@[j]).ip is V6,
            decreases targets@.len() - i,
        {
            proof {
                reveal(Seq::filter);
                assert(targets@.take(i + 1).drop_last() =~= targets@.take(i as int));
                assert(targets@.take(i + 1).last() == targets@[i as int]);
            }
            let target: EgressTarget = targets[i].clone();
            match target.ip {
                IpAddr::V4(_) => v4.push(target),
                IpAddr::V6(_) => v6.push(target),
            }
            i += 1;
        }
        assert(targets@.take(i as int) =~= targets@);
        WeightedPool { v4: WeightedState::new(v4), v6: WeightedState::new(v6), strategy }
    }

    /// The targets in the order in which they are to be tried for a connection to `remote_ip`.
    pub fn ordered_for(&mut self, remote_ip: IpAddr) -> (out: Vec<EgressTarget>)
        requires
            old(self).wf(),
        ensures
            final(self).wf(),
            old(self)@.orders(remote_ip, out@, final(self)@),
            out@.len() == old(self)@.side(remote_ip).entries.len(),
    {
        let ghost before = self@;
        let out: Vec<EgressTarget> = match remote_ip {
            IpAddr::V4(_) => self.v4.ordered_for(remote_ip, self.strategy),
            IpAddr::V6(_) => self.v6.ordered_for(remote_ip, self.strategy),
        };
        proof {
            let side = before.side(remote_ip);
            if side.entries.len() > 0 {
                let (first, order): (int, Seq<int>) = choose|first: int, order: Seq<int>|
                    {
                        &&& side.first_choice(remote_ip, before.strategy, first)
                        &&& #[trigger] side.ranking(first, order)
                        &&& out@ == order.map_values(|i: int| side.entries[i].target)
                        &&& self@.side(remote_ip).cursor == (first + 1) % (
                        side.entries.len() as int)
                    };
                assert(side.ranking(first, order));
                assert(self@ =~= before.with_side(
                    remote_ip,
                    PoolState {
                        cursor: ((first + 1) % (side.entries.len() as int)) as usize,
                        ..side
                    },
                ));
            } else {
                assert(self@ =~= before);
            }
        }
        out
    }

    pub fn may_open(&self, remote_ip: IpAddr, egress_ip: IpAddr) -> (may: bool)
        requires
            self.wf(),
        ensures
            may == self@.can_open(remote_ip, egress_ip),
    {
        match remote_ip {
            IpAddr::V4(_) => self.v4.may_open(remote_ip, egress_ip, self.strategy),
            IpAddr::V6(_) => self.v6.may_open(remote_ip, egress_ip, self.strategy),
        }
    }

    pub fn record_open(&mut self, remote_ip: IpAddr, egress_ip: IpAddr)
        requires
            old(self).wf(),
            old(self)@.can_open(remote_ip, egress_ip),
        ensures
            final(self).wf(),
            final(self)@ == old(self)@.opened(remote_ip, egress_ip),
    {
        proof {
            lemma_position(self@.side(remote_ip).entries, egress_ip);
        }
        match remote_ip {
            IpAddr::V4(_) => self.v4.record_open(remote_ip, egress_ip, self.strategy),
            IpAddr::V6(_) => self.v6.record_open(remote_ip, egress_ip, self.strategy),
        }
    }

    pub fn record_transfer(&mut self, remote_ip: IpAddr, egress_ip: IpAddr, bytes: u64)
        requires
            old(self).wf(),
        ensures
            final(self).wf(),
            final(self)@ == old(self)@.transferred(remote_ip, egress_ip, bytes),
    {
        proof {
            lemma_position(self@.side(remote_ip).entries, egress_ip);
        }
        match remote_ip {
            IpAddr::V4(_) => self.v4.record_transfer(remote_ip, egress_ip, bytes),
            IpAddr::V6(_) => self.v6.record_transfer(remote_ip, egress_ip, bytes),
        }
    }

    pub fn record_close(&mut self, remote_ip: IpAddr, egress_ip: IpAddr, bytes: u64)
        requires
            old(self).wf(),
        ensures
            final(self).wf(),
            final(self)@ == old(self)@.closed(remote_ip, egress_ip, bytes),
    {
        proof {
            lemma_position(self@.side(remote_ip).entries, egress_ip);
        }
        match remote_ip {
            IpAddr::V4(_) => self.v4.record_close(remote_ip, egress_ip, bytes, self.strategy),
            IpAddr::V6(_) => self.v6.record_close(remote_ip, egress_ip, bytes, self.strategy),
        }
    }

    pub fn family_count(&self, remote_ip: IpAddr) -> (count: usize)
        ensures
            count == self@.side(remote_ip).entries.len(),
    {
        match remote_ip {
            IpAddr::V4(_) => self.v4.len(),
            IpAddr::V6(_) => self.v6.len(),
        }
    }

    pub fn has_family(&self, remote_ip: IpAddr) -> (has: bool)
        ensures
            has == (self@.side(remote_ip).entries.len() > 0),
    {
        self.family_count(remote_ip) > 0
    }

    /// The targets of both families in words.
    pub open spec fn described(self) -> Seq<char> {
        let parts = described(self.v4@.targets()) + described(self.v6@.targets());
        if parts.len() == 0 {
            "none"@
        } else {
            joined(parts, ", "@)
        }
    }

    pub fn describe(&self) -> (text: String)
        ensures
            text@ == self.described(),
    {
        let mut parts: Vec<String> = self.v4.describe();
        let ghost front = texts(parts@);
        let rest: Vec<String> = self.v6.describe();
        let mut i: usize = 0;
        assert(texts(parts@) =~= front + texts(rest@).take(0));
        while i < rest.len()
            invariant
                i <= rest@.len(),
                texts(parts@) == front + texts(rest@).take(i as int),
            decreases rest@.len() - i,
        {
            let part: String = rest[i].clone();
            proof {
                lemma_texts_push(parts@, part);
                assert(texts(rest@).take(i + 1) =~= texts(rest@).take(i as int).push(part@));
            }
            parts.push(part);
            i += 1;
            assert(texts(parts@) =~= front + texts(rest@).take(i as int));
        }
        assert(texts(rest@).take(i as int) =~= texts(rest@));
        assert(parts@.len() == texts(parts@).len());
        if parts.len() == 0 {
            "none".to_owned()
        } else {
            join(&parts, ", ")
        }
    }
}

// ---------------------------------------------------------------------
// Laws
// ---------------------------------------------------------------------

/// Whether two states agree in everything but in the address that `remote` is held to.
pub open spec fn as_before(before: PoolState, after: PoolState, remote: IpAddr) -> bool {
    &&& after.entries == before.entries
    &&& after.refs == before.refs
    &&& after.cursor == before.cursor
    &&& after.chosen.dom() == before.chosen.dom()
    &&& forall|other: IpAddr|
        other != remote && before.chosen.dom().contains(other) ==> #[trigger] after.chosen[other]
            == before.chosen[other]
}

/// Every address of the family is tried, and none twice.
pub proof fn law_every_address_is_tried(state: PoolState, first: int, order: Seq<int>, index: int)
    requires
        state.ranking(first, order),
        0 <= index < state.entries.len(),
    ensures
        exists|i: int| 0 <= i < order.len() && #[trigger] order[i] == index,
        forall|i: int, j: int|
            0 <= i < order.len() && 0 <= j < order.len() && #[trigger] order[i] == index
                && #[trigger] order[j] == index ==> i == j,
{
    lemma_onto(order, state.entries.len() as int, index);
}

/// A list of `len` different numbers below `len` holds each of them.
pub proof fn lemma_onto(order: Seq<int>, len: int, index: int)
    requires
        order.len() == len,
        0 <= index < len,
        forall|i: int| 0 <= i < order.len() ==> 0 <= #[trigger] order[i] < len,
        forall|i: int, j: int|
            0 <= i < j < order.len() ==> #[trigger] order[i] != #[trigger] order[j],
    ensures
        exists|i: int| 0 <= i < order.len() && #[trigger] order[i] == index,
{
    let range = vstd::set_lib::set_int_range(0, len);
    assert(order.no_duplicates());
    order.unique_seq_to_set();
    vstd::set_lib::lemma_int_range(0, len);
    assert(order.to_set().subset_of(range));
    vstd::set_lib::lemma_subset_equality(order.to_set(), range);
    assert(order.to_set().contains(index));
}

/// Closing a connection that moved nothing undoes its opening: the loads are as before, and so are
/// the cursor, the hosts that are held and the number of open connections of each. A host without
/// other connections is forgotten again; one that was held to another address is now held to the
/// one of the connection.
pub proof fn law_close_undoes_open(
    state: PoolState,
    remote: IpAddr,
    egress: IpAddr,
    strategy: EgressStrategy,
)
    requires
        state.wf(),
        state.can_open(remote, egress, strategy),
        position_of(state.entries, egress) is Some,
    ensures
        ({
            let after = state.opened(remote, egress, strategy).closed(remote, egress, 0, strategy);
            &&& as_before(state, after, remote)
            &&& after == state.moved(remote, position_of(state.entries, egress)->0, strategy)
            &&& !state.chosen.dom().contains(remote) || strategy == EgressStrategy::PerConnection
                || state.chosen[remote] == position_of(state.entries, egress)->0 ==> after.chosen
                == state.chosen
        }),
{
    let opened = state.opened(remote, egress, strategy);
    let after = opened.closed(remote, egress, 0, strategy);
    let index = position_of(state.entries, egress)->0;
    lemma_transfer_nothing(opened, egress);
    law_close_undoes_open_and_transfer(state, remote, egress, 0, strategy, index);
    if !state.chosen.dom().contains(remote) || strategy == EgressStrategy::PerConnection
        || state.chosen[remote] == position_of(state.entries, egress)->0 {
        assert(after.chosen =~= state.chosen);
    }
}

/// Where an address is found depends on the targets alone.
pub proof fn lemma_same_position(left: Seq<WeightedEntry>, right: Seq<WeightedEntry>, ip: IpAddr)
    requires
        left.len() == right.len(),
        forall|i: int| 0 <= i < left.len() ==> (#[trigger] left[i]).target == right[i].target,
    ensures
        position_of(left, ip) == position_of(right, ip),
    decreases left.len(),
{
    if left.len() > 0 {
        assert forall|i: int| 0 <= i < left.len() - 1 implies (
        #[trigger] left.drop_last()[i]).target == right.drop_last()[i].target by {
            assert(left[i].target == right[i].target);
        }
        lemma_same_position(left.drop_last(), right.drop_last(), ip);
        assert(left[left.len() - 1].target == right[left.len() - 1].target);
    }
}

/// What a connection moved is taken off again when it is closed, unless the counter was full.
pub proof fn law_close_takes_off_transfers(
    state: PoolState,
    remote: IpAddr,
    egress: IpAddr,
    bytes: u64,
    strategy: EgressStrategy,
    index: int,
)
    requires
        state.wf(),
        position_of(state.entries, egress) == Some(index),
        state.entries[index].active_bytes + bytes <= u64::MAX,
    ensures
        state.transferred(egress, bytes).closed(
            remote,
            egress,
            bytes,
            strategy,
        ).entries[index].active_bytes == state.entries[index].active_bytes,
{
    lemma_position(state.entries, egress);
    lemma_same_position(state.entries, state.transferred(egress, bytes).entries, egress);
}

/// Moving nothing changes nothing.
pub proof fn lemma_transfer_nothing(state: PoolState, egress: IpAddr)
    ensures
        state.transferred(egress, 0) == state,
{
    lemma_position(state.entries, egress);
    assert(state.transferred(egress, 0).entries =~= state.entries);
}

/// Two transfers count as one of their sum, unless the counter is full.
pub proof fn lemma_transfers_add_up(state: PoolState, egress: IpAddr, first: u64, second: u64)
    requires
        first + second <= u64::MAX,
        position_of(state.entries, egress) matches Some(i) ==> state.entries[i].active_bytes + first
            + second <= u64::MAX,
    ensures
        state.transferred(egress, first).transferred(egress, second) == state.transferred(
            egress,
            (first + second) as u64,
        ),
{
    lemma_position(state.entries, egress);
    let moved = state.transferred(egress, first);
    lemma_same_position(state.entries, moved.entries, egress);
    assert(moved.transferred(egress, second).entries =~= state.transferred(
        egress,
        (first + second) as u64,
    ).entries);
}

/// Closing a connection undoes its opening and all that it moved, unless a counter of bytes was
/// full: the loads are as before, and so are the cursor, the hosts that are held and the number of
/// open connections of each. Where its host was held already, it is now held to the address of
/// the connection; every other host is held to the address it was held to.
pub proof fn law_close_undoes_open_and_transfer(
    state: PoolState,
    remote: IpAddr,
    egress: IpAddr,
    bytes: u64,
    strategy: EgressStrategy,
    index: int,
)
    requires
        state.wf(),
        state.can_open(remote, egress, strategy),
        position_of(state.entries, egress) == Some(index),
        state.entries[index].active_bytes + bytes <= u64::MAX,
    ensures
        ({
            let after = state.opened(remote, egress, strategy).transferred(egress, bytes).closed(
                remote,
                egress,
                bytes,
                strategy,
            );
            &&& as_before(state, after, remote)
            &&& after == state.moved(remote, index, strategy)
        }),
{
    let opened = state.opened(remote, egress, strategy);
    let busy = opened.transferred(egress, bytes);
    let after = busy.closed(remote, egress, bytes, strategy);
    lemma_position(state.entries, egress);
    lemma_same_position(state.entries, opened.entries, egress);
    lemma_same_position(state.entries, busy.entries, egress);
    assert(after.entries =~= state.entries);
    assert(after.refs =~= state.refs);
    assert(after.chosen =~= state.moved(remote, index, strategy).chosen);
    assert(after.chosen.dom() =~= state.chosen.dom());
}

/// Once a connection to a remote host is open, further connections to it are tried through the
/// same address first.
pub proof fn law_open_makes_sticky(state: PoolState, remote: IpAddr, egress: IpAddr, first: int)
    requires
        state.wf(),
        state.can_open(remote, egress, EgressStrategy::PerDestination),
        position_of(state.entries, egress) is Some,
        state.opened(remote, egress, EgressStrategy::PerDestination).first_choice(
            remote,
            EgressStrategy::PerDestination,
            first,
        ),
    ensures
        state.opened(remote, egress, EgressStrategy::PerDestination).entries[first].target.ip
            == egress,
{
    lemma_position(state.entries, egress);
}

/// A remote host is held to its address while connections to it are open, whatever else is
/// opened, moved or closed for other hosts, and it is let go with the last one.
pub proof fn law_sticky_until_last_close(
    state: PoolState,
    remote: IpAddr,
    other: IpAddr,
    egress: IpAddr,
    bytes: u64,
)
    requires
        state.wf(),
        state.chosen.dom().contains(remote),
        other != remote,
        state.can_open(other, egress, EgressStrategy::PerDestination),
    ensures
        ({
            let sticky = EgressStrategy::PerDestination;
            let closed = state.closed(remote, egress, bytes, sticky);
            let opened_other = state.opened(other, egress, sticky);
            let closed_other = state.closed(other, egress, bytes, sticky);
            let moved = state.transferred(egress, bytes);
            &&& state.refs[remote] > 1 ==> closed.chosen.dom().contains(remote)
                && closed.chosen[remote] == state.chosen[remote] && closed.refs[remote]
                == state.refs[remote] - 1
            &&& state.refs[remote] == 1 ==> !closed.chosen.dom().contains(remote)
                && !closed.refs.dom().contains(remote)
            &&& opened_other.chosen.dom().contains(remote) && opened_other.chosen[remote]
                == state.chosen[remote] && opened_other.refs[remote] == state.refs[remote]
            &&& closed_other.chosen.dom().contains(remote) && closed_other.chosen[remote]
                == state.chosen[remote] && closed_other.refs[remote] == state.refs[remote]
            &&& moved.chosen == state.chosen && moved.refs == state.refs
        }),
{
}

/// An idle address is preferred to every address with a load.
pub proof fn law_idle_address_comes_first(state: PoolState, idle: int, loaded: int)
    requires
        state.wf(),
        0 <= idle < state.entries.len(),
        0 <= loaded < state.entries.len(),
        state.entries[idle].active_connections == 0,
        state.entries[idle].active_bytes == 0,
        state.entries[loaded].score() > 0,
    ensures
        !state.least_loaded(loaded),
{
    assert(state.entries[idle].score() == 0) by {
        let weight = state.entries[idle].weight as int;
        vstd::arithmetic::div_mod::lemma_small_mod(0, weight as nat);
        assert(0int / weight == 0) by (nonlinear_arith)
            requires
                weight > 0,
        ;
    }
    assert(!state.preferred(state.cursor as int, loaded, idle));
}

/// Opening, moving and closing keep the targets and their order.
pub proof fn law_targets_stay(
    state: PoolState,
    remote: IpAddr,
    egress: IpAddr,
    bytes: u64,
    strategy: EgressStrategy,
)
    requires
        state.wf(),
    ensures
        state.opened(remote, egress, strategy).targets() == state.targets(),
        state.transferred(egress, bytes).targets() == state.targets(),
        state.closed(remote, egress, bytes, strategy).targets() == state.targets(),
{
    lemma_position(state.entries, egress);
    assert(state.opened(remote, egress, strategy).targets() =~= state.targets());
    assert(state.transferred(egress, bytes).targets() =~= state.targets());
    assert(state.closed(remote, egress, bytes, strategy).targets() =~= state.targets());
}

/// Of two addresses with the same connections and bytes the one with the larger weight is not
/// the more loaded one.
pub proof fn law_weight_lightens_load(heavy: WeightedEntry, light: WeightedEntry)
    requires
        heavy.active_connections == light.active_connections,
        heavy.active_bytes == light.active_bytes,
        heavy.weight >= light.weight,
        light.weight > 0,
    ensures
        heavy.score() <= light.score(),
{
    let load = heavy.active_connections as int * 1_000_000 + (heavy.active_bytes
        / LOAD_BYTE_UNIT) as int;
    vstd::arithmetic::div_mod::lemma_div_is_ordered_by_denominator(
        load,
        light.weight as int,
        heavy.weight as int,
    );
}

/// Addresses with the same load take turns: the choice falls on the place after the latest one.
pub proof fn law_equal_loads_take_turns(state: PoolState, index: int)
    requires
        state.wf(),
        state.entries.len() > 0,
        forall|i: int, j: int|
            0 <= i < state.entries.len() && 0 <= j < state.entries.len() ==> (
            #[trigger] state.entries[i]).score() == (#[trigger] state.entries[j]).score(),
    ensures
        state.least_loaded(index) <==> index == state.cursor,
{
    let len = state.entries.len() as int;
    let cursor = state.cursor as int;
    lemma_ring(cursor, cursor, len);
    if index == cursor {
        assert forall|j: int| 0 <= j < len && j != index implies #[trigger] state.preferred(
            cursor,
            index,
            j,
        ) by {
            lemma_ring(cursor, j, len);
            assert(state.entries[index].score() == state.entries[j].score());
        }
    } else if state.least_loaded(index) {
        lemma_ring(cursor, index, len);
        assert(state.preferred(cursor, index, cursor));
        assert(state.entries[index].score() == state.entries[cursor].score());
    }
}

/// Whether a place is taken before another one where their loads are the same: it is reached
/// first on the way round from `start`.
pub open spec fn sooner(start: int, i: int, j: int) -> bool {
    if i >= start {
        j < start || i < j
    } else {
        j < start && i < j
    }
}

/// The addresses of the family come in the order of their loads: that of the open connections, a
/// million each, and of the bytes moved, one for every 256 KiB, divided by the weight. The first
/// one is the address that the host is held to. Without such an address no other one has a lower
/// load, whatever the strategy; of several the one that is reached first from the cursor on is
/// taken. The others follow, the less loaded ones before the more loaded ones, and where loads
/// are the same as they are reached from the first one on. Every address is there once. Nothing
/// changes but the cursor, which moves behind the first one.
pub proof fn law_order_of_addresses(
    pool: Pool,
    remote: IpAddr,
    targets: Seq<EgressTarget>,
    after: Pool,
) -> (order: Seq<int>)
    requires
        pool.side(remote).wf(),
        pool.side(remote).entries.len() > 0,
        pool.orders(remote, targets, after),
    ensures
        ({
            let side = match remote {
                IpAddr::V4(_) => pool.v4,
                IpAddr::V6(_) => pool.v6,
            };
            let side_after = match remote {
                IpAddr::V4(_) => after.v4,
                IpAddr::V6(_) => after.v6,
            };
            let load = |i: int|
                (side.entries[i].active_connections as int * 1_000_000
                    + side.entries[i].active_bytes as int / 262_144)
                    / (side.entries[i].weight as int);
            let first = order[0];
            let held = pool.strategy == EgressStrategy::PerDestination
                && side.chosen.dom().contains(remote);
            &&& order.len() == side.entries.len()
            &&& targets.len() == side.entries.len()
            &&& forall|i: int|
                0 <= i < order.len() ==> 0 <= #[trigger] order[i] < side.entries.len() && targets[i]
                    == side.entries[order[i]].target
            &&& forall|i: int, j: int|
                0 <= i < j < order.len() ==> #[trigger] order[i] != #[trigger] order[j]
            &&& held ==> first == side.chosen[remote]
            &&& !held ==> forall|j: int|
                0 <= j < side.entries.len() && j != first ==> #[trigger] load(j) > load(first) || (
                load(j) == load(first) && sooner(side.cursor as int, first, j))
            &&& forall|i: int, j: int|
                1 <= i < j < order.len() ==> load(#[trigger] order[i]) < load(#[trigger] order[j])
                    || (load(order[i]) == load(order[j]) && sooner(first, order[i], order[j]))
            &&& side_after.entries == side.entries
            &&& side_after.chosen == side.chosen
            &&& side_after.refs == side.refs
            &&& side_after.cursor == (if first + 1 == side.entries.len() {
                0
            } else {
                first + 1
            })
            &&& after.strategy == pool.strategy
            &&& remote is V4 ==> after.v6 == pool.v6
            &&& remote is V6 ==> after.v4 == pool.v4
        }),
{
    let side = pool.side(remote);
    let len = side.entries.len() as int;
    let (first, order) = choose|first: int, order: Seq<int>|
        {
            &&& side.first_choice(remote, pool.strategy, first)
            &&& #[trigger] side.ranking(first, order)
            &&& targets == order.map_values(|i: int| side.entries[i].target)
            &&& after == pool.with_side(
                remote,
                PoolState { cursor: ((first + 1) % (side.entries.len() as int)) as usize, ..side },
            )
        };
    let load = |i: int|
        (side.entries[i].active_connections as int * 1_000_000 + side.entries[i].active_bytes as int
            / 262_144) / (side.entries[i].weight as int);
    assert forall|i: int| 0 <= i < len implies #[trigger] load(i) == side.entries[i].score() by {}
    if pool.strategy == EgressStrategy::PerDestination && side.chosen.dom().contains(remote) {
        assert(first == side.chosen[remote]);
    } else {
        assert forall|j: int| 0 <= j < len && j != first implies #[trigger] load(j) > load(first)
            || (load(j) == load(first) && sooner(side.cursor as int, first, j)) by {
            assert(side.preferred(side.cursor as int, first, j));
            assert(load(first) == side.entries[first].score());
            lemma_ring(side.cursor as int, first, len);
            lemma_ring(side.cursor as int, j, len);
        }
    }
    assert(0 <= first < len);
    assert forall|i: int, j: int| 1 <= i < j < order.len() implies load(#[trigger] order[i]) < load(
        #[trigger] order[j],
    ) || (load(order[i]) == load(order[j]) && sooner(first, order[i], order[j])) by {
        assert(side.preferred(first, order[i], order[j]));
        lemma_ring(first, order[i], len);
        lemma_ring(first, order[j], len);
    }
    if first + 1 == len {
        vstd::arithmetic::div_mod::lemma_mod_self_0(len);
    } else {
        vstd::arithmetic::div_mod::lemma_small_mod((first + 1) as nat, len as nat);
    }
    order
}

/// A host that no open connection holds goes to an address with the lowest load, by either
/// strategy.
pub proof fn law_new_host_goes_to_the_least_loaded_address(
    pool: Pool,
    remote: IpAddr,
    targets: Seq<EgressTarget>,
    after: Pool,
) -> (first: int)
    requires
        pool.side(remote).wf(),
        pool.side(remote).entries.len() > 0,
        !pool.side(remote).chosen.dom().contains(remote) || pool.strategy
            == EgressStrategy::PerConnection,
        pool.orders(remote, targets, after),
    ensures
        ({
            let entries = pool.side(remote).entries;
            &&& 0 <= first < entries.len()
            &&& targets.len() > 0
            &&& targets[0] == entries[first].target
            &&& forall|j: int|
                0 <= j < entries.len() ==> (entries[first].active_connections as int * 1_000_000
                    + entries[first].active_bytes as int / 262_144) / (
                entries[first].weight as int) <= ((#[trigger] entries[j]).active_connections as int
                    * 1_000_000 + entries[j].active_bytes as int / 262_144) / (
                entries[j].weight as int)
        }),
{
    let side = pool.side(remote);
    let (first, order) = choose|first: int, order: Seq<int>|
        {
            &&& side.first_choice(remote, pool.strategy, first)
            &&& #[trigger] side.ranking(first, order)
            &&& targets == order.map_values(|i: int| side.entries[i].target)
        };
    assert forall|j: int| 0 <= j < side.entries.len() implies side.entries[first].score() <= (
    #[trigger] side.entries[j]).score() by {
        if j != first {
            assert(side.preferred(side.cursor as int, first, j));
        }
    }
    first
}

/// An open connection is counted at the first entry for its address and nowhere else. Where
/// connections stick, its host is held to that entry and has one more open connection. Without
/// such an entry nothing happens.
pub proof fn law_open_is_counted(
    state: PoolState,
    remote: IpAddr,
    egress: IpAddr,
    strategy: EgressStrategy,
)
    requires
        state.wf(),
        state.can_open(remote, egress, strategy),
    ensures
        ({
            let after = state.opened(remote, egress, strategy);
            &&& after.cursor == state.cursor
            &&& after.entries.len() == state.entries.len()
            &&& forall|i: int|
                0 <= i < state.entries.len() ==> {
                    let first = state.entries[i].target.ip == egress && forall|j: int|
                        0 <= j < i ==> (#[trigger] state.entries[j]).target.ip != egress;
                    &&& (#[trigger] after.entries[i]).target == state.entries[i].target
                    &&& after.entries[i].weight == state.entries[i].weight
                    &&& after.entries[i].active_bytes == state.entries[i].active_bytes
                    &&& after.entries[i].active_connections == state.entries[i].active_connections
                        + (if first {
                        1int
                    } else {
                        0
                    })
                    &&& first && strategy == EgressStrategy::PerDestination
                        ==> after.chosen.dom().contains(remote) && after.chosen[remote] == i
                        && after.refs.dom().contains(remote) && after.refs[remote] == (
                    if state.refs.dom().contains(remote) {
                        state.refs[remote] + 1
                    } else {
                        1
                    })
                }
            &&& (forall|i: int|
                0 <= i < state.entries.len() ==> (#[trigger] state.entries[i]).target.ip != egress)
                || strategy == EgressStrategy::PerConnection ==> after.chosen == state.chosen
                && after.refs == state.refs
            &&& forall|other: IpAddr|
                other != remote ==> (#[trigger] after.chosen.dom().contains(other)
                    == state.chosen.dom().contains(other)) && after.chosen[other]
                    == state.chosen[other] && after.refs.dom().contains(other)
                    == state.refs.dom().contains(other) && after.refs[other] == state.refs[other]
        }),
{
    lemma_position(state.entries, egress);
    let after = state.opened(remote, egress, strategy);
    match position_of(state.entries, egress) {
        Some(at) => {
            assert forall|i: int| 0 <= i < state.entries.len() implies (i == at) == (
            state.entries[i].target.ip == egress && forall|j: int|
                0 <= j < i ==> (#[trigger] state.entries[j]).target.ip != egress) by {
                if i > at {
                    assert(state.entries[at].target.ip == egress);
                }
            }
        },
        None => {},
    }
}

/// The bytes that a connection moves are counted at the first entry for its address, up to what
/// the counter holds, and nowhere else.
pub proof fn law_transfer_is_counted(state: PoolState, egress: IpAddr, bytes: u64)
    ensures
        ({
            let after = state.transferred(egress, bytes);
            &&& after.cursor == state.cursor
            &&& after.chosen == state.chosen
            &&& after.refs == state.refs
            &&& after.entries.len() == state.entries.len()
            &&& forall|i: int|
                0 <= i < state.entries.len() ==> {
                    let first = state.entries[i].target.ip == egress && forall|j: int|
                        0 <= j < i ==> (#[trigger] state.entries[j]).target.ip != egress;
                    let sum = state.entries[i].active_bytes + (if first {
                        bytes as int
                    } else {
                        0
                    });
                    &&& (#[trigger] after.entries[i]).target == state.entries[i].target
                    &&& after.entries[i].weight == state.entries[i].weight
                    &&& after.entries[i].active_connections == state.entries[i].active_connections
                    &&& after.entries[i].active_bytes == (if sum > u64::MAX {
                        u64::MAX as int
                    } else {
                        sum
                    })
                }
        }),
{
    lemma_position(state.entries, egress);
    match position_of(state.entries, egress) {
        Some(at) => {
            assert forall|i: int| 0 <= i < state.entries.len() implies (i == at) == (
            state.entries[i].target.ip == egress && forall|j: int|
                0 <= j < i ==> (#[trigger] state.entries[j]).target.ip != egress) by {
                if i > at {
                    assert(state.entries[at].target.ip == egress);
                }
            }
        },
        None => {},
    }
}

/// The end of a connection takes one connection and its bytes off the first entry for its address
/// and nothing off the others; no counter falls below zero. Where connections stick, its host has
/// one open connection less and is let go with the last one.
pub proof fn law_close_is_counted(
    state: PoolState,
    remote: IpAddr,
    egress: IpAddr,
    bytes: u64,
    strategy: EgressStrategy,
)
    requires
        state.wf(),
    ensures
        ({
            let after = state.closed(remote, egress, bytes, strategy);
            let sticky = strategy == EgressStrategy::PerDestination;
            &&& after.cursor == state.cursor
            &&& after.entries.len() == state.entries.len()
            &&& forall|i: int|
                0 <= i < state.entries.len() ==> {
                    let first = state.entries[i].target.ip == egress && forall|j: int|
                        0 <= j < i ==> (#[trigger] state.entries[j]).target.ip != egress;
                    let connections = state.entries[i].active_connections - (if first {
                        1int
                    } else {
                        0
                    });
                    let rest = state.entries[i].active_bytes - (if first {
                        bytes as int
                    } else {
                        0
                    });
                    &&& (#[trigger] after.entries[i]).target == state.entries[i].target
                    &&& after.entries[i].weight == state.entries[i].weight
                    &&& after.entries[i].active_connections == (if connections < 0 {
                        0
                    } else {
                        connections
                    })
                    &&& after.entries[i].active_bytes == (if rest < 0 {
                        0
                    } else {
                        rest
                    })
                }
            &&& sticky && state.refs.dom().contains(remote) && state.refs[remote] > 1
                ==> after.refs.dom().contains(remote) && after.refs[remote] == state.refs[remote]
                - 1 && after.chosen.dom().contains(remote) && after.chosen[remote]
                == state.chosen[remote]
            &&& sticky && state.refs.dom().contains(remote) && state.refs[remote] <= 1
                ==> !after.refs.dom().contains(remote) && !after.chosen.dom().contains(remote)
            &&& !sticky || !state.refs.dom().contains(remote) ==> after.refs == state.refs
                && after.chosen == state.chosen
            &&& forall|other: IpAddr|
                other != remote ==> (#[trigger] after.chosen.dom().contains(other)
                    == state.chosen.dom().contains(other)) && after.refs.dom().contains(other)
                    == state.refs.dom().contains(other) && (state.chosen.dom().contains(other)
                    ==> after.chosen[other] == state.chosen[other] && after.refs[other]
                    == state.refs[other])
        }),
{
    lemma_position(state.entries, egress);
    match position_of(state.entries, egress) {
        Some(at) => {
            assert forall|i: int| 0 <= i < state.entries.len() implies (i == at) == (
            state.entries[i].target.ip == egress && forall|j: int|
                0 <= j < i ==> (#[trigger] state.entries[j]).target.ip != egress) by {
                if i > at {
                    assert(state.entries[at].target.ip == egress);
                }
            }
        },
        None => {},
    }
}

/// A connection can be counted unless a counter is full.
pub proof fn law_connections_can_be_counted(
    state: PoolState,
    remote: IpAddr,
    egress: IpAddr,
    strategy: EgressStrategy,
)
    requires
        forall|i: int|
            0 <= i < state.entries.len() ==> (#[trigger] state.entries[i]).active_connections
                < u64::MAX,
        state.refs.dom().contains(remote) ==> state.refs[remote] < u64::MAX,
    ensures
        state.can_open(remote, egress, strategy),
{
    lemma_position(state.entries, egress);
}

/// A new pool has no load: every target is there in its order, with its weight or, where that is
/// zero, with the weight one.
pub proof fn law_new_pool_is_idle(targets: Seq<EgressTarget>)
    ensures
        idle_entries(targets).len() == targets.len(),
        forall|i: int|
            0 <= i < targets.len() ==> {
                &&& (#[trigger] idle_entries(targets)[i]).target == targets[i]
                &&& targets[i].weight > 0 ==> idle_entries(targets)[i].weight == targets[i].weight
                &&& targets[i].weight == 0 ==> idle_entries(targets)[i].weight == 1
                &&& idle_entries(targets)[i].active_connections == 0
                &&& idle_entries(targets)[i].active_bytes == 0
            },
{
}

/// What happens in the pool for a host happens among the addresses of its family; the other
/// family and the strategy stay.
pub proof fn law_families_are_apart(pool: Pool, remote: IpAddr, egress: IpAddr, bytes: u64)
    ensures
        remote is V4 ==> {
            &&& pool.opened(remote, egress) == (Pool {
                v4: pool.v4.opened(remote, egress, pool.strategy),
                ..pool
            })
            &&& pool.transferred(remote, egress, bytes) == (Pool {
                v4: pool.v4.transferred(egress, bytes),
                ..pool
            })
            &&& pool.closed(remote, egress, bytes) == (Pool {
                v4: pool.v4.closed(remote, egress, bytes, pool.strategy),
                ..pool
            })
        },
        remote is V6 ==> {
            &&& pool.opened(remote, egress) == (Pool {
                v6: pool.v6.opened(remote, egress, pool.strategy),
                ..pool
            })
            &&& pool.transferred(remote, egress, bytes) == (Pool {
                v6: pool.v6.transferred(egress, bytes),
                ..pool
            })
            &&& pool.closed(remote, egress, bytes) == (Pool {
                v6: pool.v6.closed(remote, egress, bytes, pool.strategy),
                ..pool
            })
        },
{
}

/// A pool holds every target in the family of its address, in the order in which they were given,
/// and no other ones: a target more is one more in its own family.
pub proof fn law_targets_by_family(targets: Seq<EgressTarget>, target: EgressTarget)
    ensures
        of_family(Seq::empty(), true).len() == 0,
        of_family(Seq::empty(), false).len() == 0,
        target.ip is V4 ==> of_family(targets.push(target), true) == of_family(targets, true).push(
            target,
        ) && of_family(targets.push(target), false) == of_family(targets, false),
        target.ip is V6 ==> of_family(targets.push(target), false) == of_family(
            targets,
            false,
        ).push(target) && of_family(targets.push(target), true) == of_family(targets, true),
{
    reveal(Seq::filter);
    let longer = targets.push(target);
    assert(longer.drop_last() =~= targets);
    assert(longer.last() == target);
    assert(Seq::<EgressTarget>::empty().filter(|target: EgressTarget| (target.ip is V4) == true)
        =~= Seq::empty());
    assert(Seq::<EgressTarget>::empty().filter(|target: EgressTarget| (target.ip is V4) == false)
        =~= Seq::empty());
}

/// A target is described by its name, its address and the weight that was set.
pub proof fn law_described_targets(targets: Seq<EgressTarget>, i: int)
    requires
        0 <= i < targets.len(),
    ensures
        described(targets).len() == targets.len(),
        described(targets)[i] == targets[i].name@ + " ("@ + ip_text(targets[i].ip) + ", weight "@
            + decimal(targets[i].weight as nat) + ")"@,
{
}

/// The pool names the targets of version 4 and then those of version 6; without any it says so.
pub proof fn law_described_pool(pool: WeightedPool)
    ensures
        pool.v4@.entries.len() == 0 && pool.v6@.entries.len() == 0 ==> pool.described() == "none"@,
        pool.v4@.entries.len() > 0 || pool.v6@.entries.len() > 0 ==> pool.described() == joined(
            described(pool.v4@.targets()) + described(pool.v6@.targets()),
            ", "@,
        ),
        pool.v4@.targets().len() == pool.v4@.entries.len(),
        forall|i: int|
            0 <= i < pool.v4@.entries.len() ==> #[trigger] pool.v4@.targets()[i]
                == pool.v4@.entries[i].target,
{
}

} // verus!
