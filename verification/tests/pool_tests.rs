use net_combiner::adapter::EgressTarget;
use net_combiner::addr::{IpAddr, Ipv4Addr, Ipv6Addr};
use net_combiner::pool::{ring_distance, EgressStrategy, IpMap, WeightedPool, WeightedState};

fn target(name: &str, last_octet: u8) -> EgressTarget {
    EgressTarget {
        name: name.to_owned(),
        ip: IpAddr::V4(Ipv4Addr::new(192, 0, 2, last_octet)),
        weight: 1,
    }
}

#[test]
fn per_connection_prefers_idle_adapter() {
    let first = target("first", 10);
    let second = target("second", 11);
    let mut state = WeightedState::new(vec![first.clone(), second.clone()]);

    let remote_a = IpAddr::V4(Ipv4Addr::new(203, 0, 113, 10));
    let selected = state.ordered_for(remote_a, EgressStrategy::PerConnection)[0].ip;
    state.record_open(remote_a, selected, EgressStrategy::PerConnection);

    let remote_b = IpAddr::V4(Ipv4Addr::new(203, 0, 113, 11));
    let next = state.ordered_for(remote_b, EgressStrategy::PerConnection)[0].ip;

    assert_eq!(next, second.ip);
}

#[test]
fn per_destination_stays_sticky_until_last_flow_closes() {
    let first = target("first", 10);
    let second = target("second", 11);
    let mut state = WeightedState::new(vec![first.clone(), second]);
    let remote = IpAddr::V4(Ipv4Addr::new(203, 0, 113, 20));

    let selected = state.ordered_for(remote, EgressStrategy::PerDestination)[0].ip;
    state.record_open(remote, selected, EgressStrategy::PerDestination);
    state.record_open(remote, selected, EgressStrategy::PerDestination);

    let sticky = state.ordered_for(remote, EgressStrategy::PerDestination)[0].ip;
    assert_eq!(sticky, selected);

    state.record_close(remote, selected, 0, EgressStrategy::PerDestination);
    assert!(state.destination_map.contains_key(&remote));

    state.record_close(remote, selected, 0, EgressStrategy::PerDestination);
    assert!(!state.destination_map.contains_key(&remote));
}

fn v4(a: u8, b: u8, c: u8, d: u8) -> IpAddr {
    IpAddr::V4(Ipv4Addr::new(a, b, c, d))
}

fn names(targets: &[EgressTarget]) -> Vec<String> {
    targets.iter().map(|target| target.name.clone()).collect()
}

#[test]
fn ring_distance_counts_steps_forward() {
    assert_eq!(ring_distance(0, 0, 0), 0);
    assert_eq!(ring_distance(2, 2, 5), 0);
    assert_eq!(ring_distance(2, 4, 5), 2);
    assert_eq!(ring_distance(4, 1, 5), 2);
    assert_eq!(ring_distance(1, 0, 3), 2);
}

#[test]
fn load_score_weighs_connections_bytes_and_weight() {
    let mut first = target("first", 10);
    first.weight = 4;
    let mut state = WeightedState::new(vec![first.clone()]);
    let remote = v4(203, 0, 113, 1);
    assert_eq!(state.load_score(0), 0);
    state.record_open(remote, first.ip, EgressStrategy::PerConnection);
    assert_eq!(state.load_score(0), 250_000);
    state.record_transfer(remote, first.ip, 12 * 256 * 1024 + 5);
    assert_eq!(state.load_score(0), (1_000_000 + 12) / 4);
}

#[test]
fn zero_weight_counts_as_one() {
    let mut first = target("first", 10);
    first.weight = 0;
    let mut state = WeightedState::new(vec![first.clone()]);
    state.record_open(v4(203, 0, 113, 1), first.ip, EgressStrategy::PerConnection);
    assert_eq!(state.load_score(0), 1_000_000);
}

#[test]
fn order_lists_every_target_once() {
    let targets: Vec<EgressTarget> =
        (0..5).map(|i| target(["a", "b", "c", "d", "e"][i], 10 + i as u8)).collect();
    let mut state = WeightedState::new(targets);
    let remote = v4(203, 0, 113, 1);
    assert_eq!(
        names(&state.ordered_for(remote, EgressStrategy::PerConnection)),
        vec!["a", "b", "c", "d", "e"]
    );
    assert_eq!(state.cursor, 1);
    state.record_open(remote, v4(192, 0, 2, 12), EgressStrategy::PerConnection);
    assert_eq!(
        names(&state.ordered_for(remote, EgressStrategy::PerConnection)),
        vec!["b", "d", "e", "a", "c"]
    );
    assert_eq!(state.cursor, 2);
}

#[test]
fn cursor_wraps_around() {
    let mut state = WeightedState::new(vec![target("a", 1), target("b", 2)]);
    let remote = v4(203, 0, 113, 1);
    assert_eq!(state.ordered_for(remote, EgressStrategy::PerConnection)[0].name, "a");
    assert_eq!(state.ordered_for(remote, EgressStrategy::PerConnection)[0].name, "b");
    assert_eq!(state.cursor, 0);
    assert_eq!(state.ordered_for(remote, EgressStrategy::PerConnection)[0].name, "a");
}

#[test]
fn empty_family_has_no_order() {
    let mut state = WeightedState::new(vec![]);
    assert_eq!(state.ordered_for(v4(1, 1, 1, 1), EgressStrategy::PerDestination).len(), 0);
    assert_eq!(state.pick_least_loaded(), 0);
    assert_eq!(state.len(), 0);
}

#[test]
fn unknown_egress_changes_no_load() {
    let mut state = WeightedState::new(vec![target("a", 1)]);
    let remote = v4(203, 0, 113, 1);
    let unknown = v4(198, 51, 100, 1);
    assert!(state.may_open(remote, unknown, EgressStrategy::PerDestination));
    state.record_open(remote, unknown, EgressStrategy::PerDestination);
    state.record_transfer(remote, unknown, 99);
    state.record_close(remote, unknown, 99, EgressStrategy::PerDestination);
    assert_eq!(state.entries[0].active_connections, 0);
    assert_eq!(state.entries[0].active_bytes, 0);
    assert!(!state.destination_map.contains_key(&remote));
    assert_eq!(state.index_for(unknown), None);
}

#[test]
fn close_undoes_open() {
    let first = target("a", 1);
    let mut state = WeightedState::new(vec![first.clone(), target("b", 2)]);
    let remote = v4(203, 0, 113, 1);
    state.record_open(remote, first.ip, EgressStrategy::PerDestination);
    assert_eq!(state.destination_refs.get(&remote), Some(1));
    assert_eq!(state.destination_map.get(&remote), Some(0));
    state.record_transfer(remote, first.ip, 700);
    state.record_close(remote, first.ip, 700, EgressStrategy::PerDestination);
    assert_eq!(state.entries[0].active_connections, 0);
    assert_eq!(state.entries[0].active_bytes, 0);
    assert_eq!(state.destination_refs.get(&remote), None);
}

#[test]
fn counters_saturate() {
    let first = target("a", 1);
    let mut state = WeightedState::new(vec![first.clone()]);
    let remote = v4(203, 0, 113, 1);
    state.record_transfer(remote, first.ip, u64::MAX - 1);
    state.record_transfer(remote, first.ip, 10);
    assert_eq!(state.entries[0].active_bytes, u64::MAX);
    state.record_close(remote, first.ip, 1, EgressStrategy::PerConnection);
    assert_eq!(state.entries[0].active_bytes, u64::MAX - 1);
    assert_eq!(state.entries[0].active_connections, 0);
}

#[test]
fn full_counter_cannot_open() {
    let first = target("a", 1);
    let mut state = WeightedState::new(vec![first.clone()]);
    state.entries[0].active_connections = u64::MAX;
    assert!(!state.may_open(v4(1, 2, 3, 4), first.ip, EgressStrategy::PerConnection));
}

#[test]
fn other_hosts_do_not_loosen_a_sticky_host() {
    let first = target("a", 1);
    let second = target("b", 2);
    let mut state = WeightedState::new(vec![first.clone(), second.clone()]);
    let remote = v4(203, 0, 113, 1);
    let other = v4(203, 0, 113, 2);
    let sticky = EgressStrategy::PerDestination;
    state.record_open(remote, first.ip, sticky);
    state.record_open(other, second.ip, sticky);
    state.record_transfer(other, first.ip, 1 << 40);
    state.record_close(other, second.ip, 0, sticky);
    assert_eq!(state.ordered_for(remote, sticky)[0].ip, first.ip);
}

#[test]
fn pool_keeps_families_apart() {
    let six = IpAddr::V6(Ipv6Addr::new(0x2001, 0xdb8, 0, 0, 0, 0, 0, 1));
    let mut second = target("six", 0);
    second.ip = six;
    let mut pool =
        WeightedPool::new(vec![target("four", 10), second], EgressStrategy::PerDestination);
    assert_eq!(pool.family_count(v4(9, 9, 9, 9)), 1);
    assert!(pool.has_family(six));
    assert_eq!(names(&pool.ordered_for(v4(9, 9, 9, 9))), vec!["four"]);
    assert_eq!(names(&pool.ordered_for(six)), vec!["six"]);
    assert!(pool.may_open(six, six));
    pool.record_open(six, six);
    pool.record_transfer(six, six, 5);
    assert_eq!(pool.v6.entries[0].active_bytes, 5);
    assert_eq!(pool.v4.entries[0].active_connections, 0);
    pool.record_close(six, six, 5);
    assert_eq!(pool.v6.entries[0].active_connections, 0);
}

#[test]
fn pool_describes_its_targets() {
    let mut heavy = target("Wi-Fi", 20);
    heavy.weight = 3;
    let pool = WeightedPool::new(vec![target("LAN", 10), heavy], EgressStrategy::PerConnection);
    assert_eq!(pool.describe(), "LAN (192.0.2.10, weight 1), Wi-Fi (192.0.2.20, weight 3)");
    let none = WeightedPool::new(vec![], EgressStrategy::PerConnection);
    assert_eq!(none.describe(), "none");
}

#[test]
fn strategy_labels() {
    assert_eq!(EgressStrategy::PerConnection.label(), "per-connection load balance");
    assert_eq!(EgressStrategy::PerDestination.label(), "sticky per destination IP");
    assert_eq!(EgressStrategy::default(), EgressStrategy::PerDestination);
}

#[test]
fn ip_map_behaves_as_a_map() {
    let mut map: IpMap<usize> = IpMap::new();
    for i in 0..20u8 {
        map.insert(v4(10, 0, 0, i), i as usize);
    }
    map.insert(v4(10, 0, 0, 7), 70);
    map.remove(&v4(10, 0, 0, 3));
    map.remove(&v4(10, 0, 0, 3));
    assert_eq!(map.get(&v4(10, 0, 0, 7)), Some(70));
    assert_eq!(map.get(&v4(10, 0, 0, 3)), None);
    assert_eq!(map.get(&v4(10, 0, 0, 19)), Some(19));
    assert!(map.contains_key(&v4(10, 0, 0, 0)));
    let v6 = IpAddr::V6(Ipv6Addr::new(0, 0, 0, 0, 0, 0, 0x0a00, 7));
    assert_eq!(map.get(&v6), None);
    map.insert(v6, 9);
    assert_eq!(map.get(&v6), Some(9));
    assert_eq!(map.get(&v4(10, 0, 0, 7)), Some(70));
}

#[test]
fn heavier_weight_carries_more() {
    let mut light = target("light", 1);
    light.weight = 1;
    let mut heavy = target("heavy", 2);
    heavy.weight = 3;
    let mut state = WeightedState::new(vec![light, heavy]);
    let mut counts = [0, 0];
    for i in 0..40u8 {
        let remote = v4(203, 0, 113, i);
        let chosen = state.ordered_for(remote, EgressStrategy::PerConnection)[0].clone();
        counts[if chosen.name == "heavy" { 1 } else { 0 }] += 1;
        state.record_open(remote, chosen.ip, EgressStrategy::PerConnection);
        assert!(state.load_score(1) <= 14_000_000);
    }
    assert_eq!(counts, [10, 30]);
}

#[test]
fn equal_loads_take_turns() {
    let mut state = WeightedState::new(vec![target("a", 1), target("b", 2), target("c", 3)]);
    let remote = v4(203, 0, 113, 1);
    let chosen: Vec<String> = (0..6)
        .map(|_| state.ordered_for(remote, EgressStrategy::PerConnection)[0].name.clone())
        .collect();
    assert_eq!(chosen, vec!["a", "b", "c", "a", "b", "c"]);
}

#[test]
fn close_undoes_open_and_transfer() {
    let sticky = EgressStrategy::PerDestination;
    let mut state = WeightedState::new(vec![target("one", 1), target("two", 2)]);
    let (remote, other) = (v4(203, 0, 113, 1), v4(203, 0, 113, 2));
    let (one, two) = (v4(192, 0, 2, 1), v4(192, 0, 2, 2));
    state.ordered_for(remote, sticky);
    state.record_open(remote, one, sticky);
    state.record_open(other, one, sticky);
    state.record_transfer(remote, one, 300_000);
    let loads = (state.load_score(0), state.load_score(1));
    let cursor = state.cursor;

    state.record_open(remote, two, sticky);
    state.record_transfer(remote, two, 5_000_000);
    assert_ne!(loads, (state.load_score(0), state.load_score(1)));
    state.record_close(remote, two, 5_000_000, sticky);

    assert_eq!(loads, (state.load_score(0), state.load_score(1)));
    assert_eq!(state.cursor, cursor);
    assert_eq!(state.destination_refs.get(&remote), Some(1));
    assert_eq!(state.destination_refs.get(&other), Some(1));
    assert_eq!(state.destination_map.get(&other), Some(0));
    assert_eq!(state.destination_map.get(&remote), Some(1));
}
