//! Network adapters: their addresses, how these are classed, and the order they are listed in.

use vstd::prelude::*;

use crate::addr::{ip_text, push_ip, IpAddr, Ipv4Addr, Ipv6Addr};
use crate::text::{is_text_before, lemma_text_order_total, lemma_text_order_transitive, text_before};

verus! {

#[derive(Debug, PartialEq, Eq)]
pub struct AdapterAddress {
    pub name: String,
    pub ip: IpAddr,
    pub mac: Option<String>,
    pub index: Option<u32>,
    pub is_loopback: bool,
    pub is_private: bool,
    pub is_link_local: bool,
}

/// The identity of an adapter address over time: its name and its address.
pub open spec fn identity(name: Seq<char>, ip: IpAddr) -> Seq<char> {
    name + "|"@ + ip_text(ip)
}

impl AdapterAddress {
    pub fn family_label(&self) -> (label: &'static str)
        ensures
            label@ == (match self.ip {
                IpAddr::V4(_) => "IPv4"@,
                IpAddr::V6(_) => "IPv6"@,
            }),
    {
        match self.ip {
            IpAddr::V4(_) => "IPv4",
            IpAddr::V6(_) => "IPv6",
        }
    }

    /// The narrowest class that the address is in.
    pub open spec fn scope(self) -> Seq<char> {
        if self.is_loopback {
            "loopback"@
        } else if self.is_link_local {
            "link-local"@
        } else if self.is_private {
            "private"@
        } else {
            "public"@
        }
    }

    pub fn scope_label(&self) -> (label: &'static str)
        ensures
            label@ == self.scope(),
    {
        if self.is_loopback {
            "loopback"
        } else if self.is_link_local {
            "link-local"
        } else if self.is_private {
            "private"
        } else {
            "public"
        }
    }

    pub fn stable_id(&self) -> (id: String)
        ensures
            id@ == identity(self.name@, self.ip),
    {
        let mut id: String = self.name.clone();
        id.append("|");
        push_ip(&mut id, self.ip);
        id
    }
}

impl Clone for AdapterAddress {
    fn clone(&self) -> (out: Self)
        ensures
            out == *self,
    {
        AdapterAddress {
            name: self.name.clone(),
            ip: self.ip,
            mac: match &self.mac {
                Some(mac) => Some(mac.clone()),
                None => None,
            },
            index: self.index,
            is_loopback: self.is_loopback,
            is_private: self.is_private,
            is_link_local: self.is_link_local,
        }
    }
}

/// An address that traffic may leave through, and the share that it gets.
#[derive(Debug, PartialEq, Eq)]
pub struct EgressTarget {
    pub name: String,
    pub ip: IpAddr,
    pub weight: u16,
}

impl Clone for EgressTarget {
    fn clone(&self) -> (out: Self)
        ensures
            out == *self,
    {
        EgressTarget { name: self.name.clone(), ip: self.ip, weight: self.weight }
    }
}

// ---------------------------------------------------------------------
// Classes
// ---------------------------------------------------------------------

/// `10.0.0.0/8`, `172.16.0.0/12`, `192.168.0.0/16` and `fc00::/7`.
pub open spec fn private_ip(ip: IpAddr) -> bool {
    match ip {
        IpAddr::V4(v4) => v4.a == 10 || (v4.a == 172 && 16 <= v4.b <= 31) || (v4.a == 192 && v4.b
            == 168),
        IpAddr::V6(v6) => 0xfc00 <= v6.s0 <= 0xfdff,
    }
}

/// `169.254.0.0/16` and `fe80::/10`.
pub open spec fn link_local_ip(ip: IpAddr) -> bool {
    match ip {
        IpAddr::V4(v4) => v4.a == 169 && v4.b == 254,
        IpAddr::V6(v6) => 0xfe80 <= v6.s0 <= 0xfebf,
    }
}

pub fn is_private_ip(ip: IpAddr) -> (private: bool)
    ensures
        private == private_ip(ip),
{
    match ip {
        IpAddr::V4(v4) => v4.a == 10 || (v4.a == 172 && v4.b >= 16 && v4.b <= 31) || (v4.a == 192
            && v4.b == 168),
        IpAddr::V6(v6) => {
            let first: u16 = v6.s0;
            assert((first & 0xfe00 == 0xfc00) == (0xfc00 <= first && first <= 0xfdff))
                by (bit_vector);
            (first & 0xfe00) == 0xfc00
        },
    }
}

pub fn is_link_local_ip(ip: IpAddr) -> (link_local: bool)
    ensures
        link_local == link_local_ip(ip),
{
    match ip {
        IpAddr::V4(v4) => v4.a == 169 && v4.b == 254,
        IpAddr::V6(v6) => {
            let first: u16 = v6.s0;
            assert((first & 0xffc0 == 0xfe80) == (0xfe80 <= first && first <= 0xfebf))
                by (bit_vector);
            (first & 0xffc0) == 0xfe80
        },
    }
}

// ---------------------------------------------------------------------
// Listing
// ---------------------------------------------------------------------

/// An interface as the system reports it.
#[derive(Debug)]
pub struct Interface {
    pub name: String,
    pub mac: Option<String>,
    pub index: u32,
    pub addresses: Vec<IpAddr>,
}

/// How an address of an interface is listed.
pub open spec fn listed(interface: Interface, ip: IpAddr) -> AdapterAddress {
    AdapterAddress {
        name: interface.name,
        ip,
        mac: interface.mac,
        index: Some(interface.index),
        is_loopback: ip.loopback(),
        is_private: private_ip(ip),
        is_link_local: link_local_ip(ip),
    }
}

/// The addresses of an interface that are listed: all but the unspecified one.
pub open spec fn listed_of(interface: Interface, addresses: Seq<IpAddr>) -> Seq<AdapterAddress>
    decreases addresses.len(),
{
    if addresses.len() == 0 {
        Seq::empty()
    } else {
        let before = listed_of(interface, addresses.drop_last());
        if addresses.last().unspecified() {
            before
        } else {
            before.push(listed(interface, addresses.last()))
        }
    }
}

/// The addresses of all interfaces in the order in which they are reported.
pub open spec fn reported(interfaces: Seq<Interface>) -> Seq<AdapterAddress>
    decreases interfaces.len(),
{
    if interfaces.len() == 0 {
        Seq::empty()
    } else {
        reported(interfaces.drop_last()) + listed_of(
            interfaces.last(),
            interfaces.last().addresses@,
        )
    }
}

/// The order of the list: loopback addresses come last, then names decide, then addresses.
pub open spec fn listed_before(left: AdapterAddress, right: AdapterAddress) -> bool {
    if left.is_loopback != right.is_loopback {
        right.is_loopback
    } else if left.name@ != right.name@ {
        text_before(left.name@, right.name@)
    } else {
        left.ip.before(right.ip)
    }
}

/// Whether `output` is `input` in the order of the list, entries of the same rank staying in the
/// order they had: `places[i]` is where the entry at `i` came from.
pub open spec fn sorted_stably(
    input: Seq<AdapterAddress>,
    output: Seq<AdapterAddress>,
    places: Seq<int>,
) -> bool {
    &&& output.len() == input.len()
    &&& places.len() == input.len()
    &&& forall|i: int|
        0 <= i < places.len() ==> 0 <= #[trigger] places[i] < input.len() && output[i]
            == input[places[i]]
    &&& forall|i: int, j: int|
        0 <= i < j < places.len() ==> #[trigger] places[i] != #[trigger] places[j]
    &&& forall|i: int, j: int|
        0 <= i < j < output.len() ==> !listed_before(#[trigger] output[j], #[trigger] output[i])
    &&& forall|i: int, j: int|
        0 <= i < j < output.len() && !listed_before(#[trigger] output[i], #[trigger] output[j])
            ==> places[i] < places[j]
}

/// What stands before an entry stands before whatever does not stand before that entry.
proof fn lemma_listed_before(a: AdapterAddress, b: AdapterAddress, c: AdapterAddress)
    requires
        listed_before(a, b),
        !listed_before(c, b),
    ensures
        listed_before(a, c),
        !listed_before(c, a),
{
    lemma_text_order_total(a.name@, b.name@);
    lemma_text_order_total(b.name@, c.name@);
    lemma_text_order_total(a.name@, c.name@);
    if text_before(a.name@, b.name@) && text_before(b.name@, c.name@) {
        lemma_text_order_transitive(a.name@, b.name@, c.name@);
    }
}

fn is_listed_before(left: &AdapterAddress, right: &AdapterAddress) -> (before: bool)
    ensures
        before == listed_before(*left, *right),
{
    proof {
        lemma_text_order_total(left.name@, right.name@);
    }
    if left.is_loopback != right.is_loopback {
        right.is_loopback
    } else if is_text_before(left.name.as_str(), right.name.as_str()) {
        true
    } else if is_text_before(right.name.as_str(), left.name.as_str()) {
        false
    } else {
        left.ip.is_before(&right.ip)
    }
}

/// Puts `item` into the sorted list, behind its equals.
fn insert_sorted(
    output: &mut Vec<AdapterAddress>,
    item: AdapterAddress,
    input: Ghost<Seq<AdapterAddress>>,
    places: Ghost<Seq<int>>,
) -> (new_places: Ghost<Seq<int>>)
    requires
        sorted_stably(input@, old(output)@, places@),
    ensures
        sorted_stably(input@.push(item), final(output)@, new_places@),
{
    let mut at: usize = 0;
    while at < output.len() && !is_listed_before(&item, &output[at])
        invariant
            at <= output@.len(),
            forall|i: int| 0 <= i < at ==> !listed_before(item, #[trigger] output@[i]),
        decreases output@.len() - at,
    {
        at += 1;
    }
    let ghost before = output@;
    let ghost new_places = places@.insert(at as int, input@.len() as int);
    output.insert(at, item);
    proof {
        let all = input@.push(item);
        assert(output@ =~= before.insert(at as int, item));
        assert forall|i: int| 0 <= i < new_places.len() implies 0 <= #[trigger] new_places[i]
            < all.len() && output@[i] == all[new_places[i]] by {
            if i < at {
                assert(new_places[i] == places@[i]);
            } else if i > at {
                assert(new_places[i] == places@[i - 1]);
            }
        }
        assert forall|i: int, j: int| 0 <= i < j < new_places.len() implies #[trigger] new_places[i]
            != #[trigger] new_places[j] by {
            let a = if i < at { i } else { i - 1 };
            let b = if j < at { j } else { j - 1 };
            if i != at {
                assert(new_places[i] == places@[a]);
            }
            if j != at {
                assert(new_places[j] == places@[b]);
            }
        }
        assert forall|i: int, j: int| 0 <= i < j < output@.len() implies !listed_before(
            #[trigger] output@[j],
            #[trigger] output@[i],
        ) && (!listed_before(output@[i], output@[j]) ==> new_places[i] < new_places[j]) by {
            let a = if i < at { i } else { i - 1 };
            let b = if j < at { j } else { j - 1 };
            if i == at {
                assert(output@[j] == before[b]);
                if b > at {
                    assert(!listed_before(before[b], before[at as int]));
                    lemma_listed_before(item, before[at as int], before[b]);
                } else {
                    lemma_listed_before_asymmetric(item, before[b]);
                }
            } else if j == at {
                assert(output@[i] == before[a]);
                assert(new_places[i] == places@[a]);
            } else {
                assert(output@[i] == before[a]);
                assert(output@[j] == before[b]);
                assert(new_places[i] == places@[a]);
                assert(new_places[j] == places@[b]);
            }
        }
    }
    Ghost(new_places)
}

proof fn lemma_listed_before_asymmetric(a: AdapterAddress, b: AdapterAddress)
    requires
        listed_before(a, b),
    ensures
        !listed_before(b, a),
{
    lemma_text_order_total(a.name@, b.name@);
}

/// The addresses of the interfaces, sorted for display.
pub fn list_adapters(interfaces: &Vec<Interface>) -> (output: Vec<AdapterAddress>)
    ensures
        exists|places: Seq<int>| sorted_stably(reported(interfaces@), output@, places),
{
    let mut output: Vec<AdapterAddress> = Vec::new();
    let mut places: Ghost<Seq<int>> = Ghost(Seq::empty());
    let mut i: usize = 0;
    assert(interfaces@.take(0) =~= Seq::empty());
    assert(sorted_stably(reported(interfaces@.take(0)), output@, places@));
    while i < interfaces.len()
        invariant
            i <= interfaces@.len(),
            sorted_stably(reported(interfaces@.take(i as int)), output@, places@),
        decreases interfaces@.len() - i,
    {
        let interface: &Interface = &interfaces[i];
        let ghost done = reported(interfaces@.take(i as int));
        let ghost all = interface.addresses@;
        let mut k: usize = 0;
        assert(all.take(0) =~= Seq::empty());
        assert(done + listed_of(*interface, all.take(0)) =~= done);
        while k < interface.addresses.len()
            invariant
                k <= interface.addresses@.len(),
                all == interface.addresses@,
                sorted_stably(
                    done + listed_of(*interface, all.take(k as int)),
                    output@,
                    places@,
                ),
            decreases interface.addresses@.len() - k,
        {
            let ip: IpAddr = interface.addresses[k];
            let ghost input = done + listed_of(*interface, all.take(k as int));
            proof {
                assert(all.take(k + 1).drop_last() =~= all.take(k as int));
                assert(all.take(k + 1).last() == ip);
            }
            if !ip.is_unspecified() {
                let item: AdapterAddress = AdapterAddress {
                    name: interface.name.clone(),
                    ip,
                    mac: match &interface.mac {
                        Some(mac) => Some(mac.clone()),
                        None => None,
                    },
                    index: Some(interface.index),
                    is_loopback: ip.is_loopback(),
                    is_private: is_private_ip(ip),
                    is_link_local: is_link_local_ip(ip),
                };
                assert(item == listed(*interface, ip));
                assert(done + listed_of(*interface, all.take(k + 1)) =~= input.push(item));
                places = insert_sorted(&mut output, item, Ghost(input), places);
            }
            k += 1;
        }
        assert(all.take(k as int) =~= all);
        proof {
            assert(interfaces@.take(i + 1).drop_last() =~= interfaces@.take(i as int));
            assert(interfaces@.take(i + 1).last() == *interface);
        }
        i += 1;
    }
    assert(interfaces@.take(i as int) =~= interfaces@);
    assert(sorted_stably(reported(interfaces@), output@, places@));
    output
}

/// In the list every address stands before the loopback addresses.
pub proof fn law_loopback_comes_last(
    input: Seq<AdapterAddress>,
    output: Seq<AdapterAddress>,
    places: Seq<int>,
    i: int,
    j: int,
)
    requires
        sorted_stably(input, output, places),
        0 <= i < j < output.len(),
        output[i].is_loopback,
    ensures
        output[j].is_loopback,
{
    assert(!listed_before(output[j], output[i]));
}

/// Every address that is reported is listed, and nothing else is.
pub proof fn law_every_address_is_listed(
    input: Seq<AdapterAddress>,
    output: Seq<AdapterAddress>,
    places: Seq<int>,
    item: AdapterAddress,
)
    requires
        sorted_stably(input, output, places),
    ensures
        output.contains(item) <==> input.contains(item),
{
    if output.contains(item) {
        let i = choose|i: int| 0 <= i < output.len() && output[i] == item;
        assert(0 <= places[i] < input.len());
        assert(input[places[i]] == item);
    }
    if input.contains(item) {
        let at = choose|at: int| 0 <= at < input.len() && input[at] == item;
        let all = vstd::set_lib::set_int_range(0, input.len() as int);
        assert(places.no_duplicates());
        places.unique_seq_to_set();
        vstd::set_lib::lemma_int_range(0, input.len() as int);
        assert(places.to_set().subset_of(all));
        vstd::set_lib::lemma_subset_equality(places.to_set(), all);
        assert(places.to_set().contains(at));
        let i = choose|i: int| 0 <= i < places.len() && places[i] == at;
        assert(output[i] == item);
    }
}

/// The private addresses are those of `10/8`, `172.16/12`, `192.168/16` and `fc00::/7`, and the
/// link-local ones those of `169.254/16` and `fe80::/10`.
pub proof fn law_prefixes(v4: Ipv4Addr, v6: Ipv6Addr)
    ensures
        private_ip(IpAddr::V4(v4)) <==> v4.a == 10 || (v4.a == 172 && v4.b & 0xf0 == 16) || (v4.a
            == 192 && v4.b == 168),
        private_ip(IpAddr::V6(v6)) <==> v6.s0 & 0xfe00 == 0xfc00,
        link_local_ip(IpAddr::V4(v4)) <==> v4.a == 169 && v4.b == 254,
        link_local_ip(IpAddr::V6(v6)) <==> v6.s0 & 0xffc0 == 0xfe80,
{
    let second: u8 = v4.b;
    let first: u16 = v6.s0;
    assert((second & 0xf0 == 16) == (16 <= second && second <= 31)) by (bit_vector);
    assert((first & 0xfe00 == 0xfc00) == (0xfc00 <= first && first <= 0xfdff)) by (bit_vector);
    assert((first & 0xffc0 == 0xfe80) == (0xfe80 <= first && first <= 0xfebf)) by (bit_vector);
}

/// An address is shown under the narrowest class that it is in.
pub proof fn law_scope(address: AdapterAddress)
    ensures
        address.is_loopback ==> address.scope() == "loopback"@,
        !address.is_loopback && address.is_link_local ==> address.scope() == "link-local"@,
        !address.is_loopback && !address.is_link_local && address.is_private ==> address.scope()
            == "private"@,
        !address.is_loopback && !address.is_link_local && !address.is_private ==> address.scope()
            == "public"@,
{
}

/// The identity is the name, a bar and the address.
pub proof fn law_identity(name: Seq<char>, ip: IpAddr)
    ensures
        identity(name, ip) == name.push('|') + ip_text(ip),
{
    reveal_strlit("|");
    assert(identity(name, ip) =~= name.push('|') + ip_text(ip));
}

/// Where an address of an interface is listed.
proof fn lemma_listed_of(interface: Interface, addresses: Seq<IpAddr>)
    ensures
        forall|at: int|
            0 <= at < addresses.len() && !(#[trigger] addresses[at]).unspecified() ==> listed_of(
                interface,
                addresses,
            ).contains(listed(interface, addresses[at])),
        forall|k: int|
            0 <= k < listed_of(interface, addresses).len() ==> exists|at: int|
                0 <= at < addresses.len() && !(#[trigger] addresses[at]).unspecified()
                    && #[trigger] listed_of(interface, addresses)[k] == listed(
                    interface,
                    addresses[at],
                ),
    decreases addresses.len(),
{
    if addresses.len() > 0 {
        let front = addresses.drop_last();
        let before = listed_of(interface, front);
        let all = listed_of(interface, addresses);
        lemma_listed_of(interface, front);
        assert forall|at: int|
            0 <= at < addresses.len() && !(#[trigger] addresses[at]).unspecified() implies
            all.contains(listed(interface, addresses[at])) by {
            if at < front.len() {
                assert(front[at] == addresses[at]);
                let k = choose|k: int|
                    0 <= k < before.len() && before[k] == listed(interface, addresses[at]);
                assert(all[k] == before[k]);
            } else {
                assert(all[all.len() - 1] == listed(interface, addresses[at]));
            }
        }
        assert forall|k: int| 0 <= k < all.len() implies exists|at: int|
            0 <= at < addresses.len() && !(#[trigger] addresses[at]).unspecified()
                && #[trigger] all[k] == listed(interface, addresses[at]) by {
            if k < before.len() {
                let at = choose|at: int|
                    0 <= at < front.len() && !(#[trigger] front[at]).unspecified() && before[k]
                        == listed(interface, front[at]);
                assert(addresses[at] == front[at]);
            } else {
                assert(!addresses[addresses.len() - 1].unspecified());
            }
        }
    }
}

/// Where an address of one of the interfaces is reported.
proof fn lemma_reported(interfaces: Seq<Interface>)
    ensures
        forall|i: int, at: int|
            0 <= i < interfaces.len() && 0 <= at < interfaces[i].addresses@.len()
                && !(#[trigger] interfaces[i].addresses@[at]).unspecified() ==> reported(
                interfaces,
            ).contains(listed(interfaces[i], interfaces[i].addresses@[at])),
        forall|k: int|
            0 <= k < reported(interfaces).len() ==> exists|i: int, at: int|
                0 <= i < interfaces.len() && 0 <= at < interfaces[i].addresses@.len()
                    && !(#[trigger] interfaces[i].addresses@[at]).unspecified()
                    && #[trigger] reported(interfaces)[k] == listed(
                    interfaces[i],
                    interfaces[i].addresses@[at],
                ),
    decreases interfaces.len(),
{
    if interfaces.len() > 0 {
        let front = interfaces.drop_last();
        let last = interfaces[interfaces.len() - 1];
        let before = reported(front);
        let own = listed_of(last, last.addresses@);
        let all = reported(interfaces);
        lemma_reported(front);
        lemma_listed_of(last, last.addresses@);
        assert(all == before + own);
        assert forall|i: int, at: int|
            0 <= i < interfaces.len() && 0 <= at < interfaces[i].addresses@.len()
                && !(#[trigger] interfaces[i].addresses@[at]).unspecified() implies all.contains(
            listed(interfaces[i], interfaces[i].addresses@[at]),
        ) by {
            if i < front.len() {
                assert(front[i] == interfaces[i]);
                assert(!front[i].addresses@[at].unspecified());
                let k = choose|k: int|
                    0 <= k < before.len() && before[k] == listed(
                        interfaces[i],
                        interfaces[i].addresses@[at],
                    );
                assert(all[k] == before[k]);
            } else {
                let k = choose|k: int|
                    0 <= k < own.len() && own[k] == listed(last, last.addresses@[at]);
                assert(all[before.len() + k] == own[k]);
            }
        }
        assert forall|k: int| 0 <= k < all.len() implies exists|i: int, at: int|
            0 <= i < interfaces.len() && 0 <= at < interfaces[i].addresses@.len()
                && !(#[trigger] interfaces[i].addresses@[at]).unspecified()
                && #[trigger] all[k] == listed(interfaces[i], interfaces[i].addresses@[at]) by {
            if k < before.len() {
                assert(all[k] == before[k]);
                let (i, at): (int, int) = choose|i: int, at: int|
                    0 <= i < front.len() && 0 <= at < front[i].addresses@.len()
                        && !(#[trigger] front[i].addresses@[at]).unspecified() && before[k]
                        == listed(front[i], front[i].addresses@[at]);
                assert(interfaces[i] == front[i]);
                assert(!interfaces[i].addresses@[at].unspecified());
            } else {
                assert(all[k] == own[k - before.len()]);
                let at = choose|at: int|
                    0 <= at < last.addresses@.len() && !(
                    #[trigger] last.addresses@[at]).unspecified() && own[k - before.len()]
                        == listed(last, last.addresses@[at]);
                assert(!interfaces[interfaces.len() - 1].addresses@[at].unspecified());
            }
        }
    }
}

/// Each address of each interface is listed with the name, the hardware address and the index of
/// its interface, unless it is the unspecified one.
pub proof fn law_addresses_are_listed(
    interfaces: Seq<Interface>,
    output: Seq<AdapterAddress>,
    places: Seq<int>,
    i: int,
    at: int,
) -> (k: int)
    requires
        sorted_stably(reported(interfaces), output, places),
        0 <= i < interfaces.len(),
        0 <= at < interfaces[i].addresses@.len(),
        !interfaces[i].addresses@[at].unspecified(),
    ensures
        0 <= k < output.len(),
        output[k].name == interfaces[i].name,
        output[k].ip == interfaces[i].addresses@[at],
        output[k].mac == interfaces[i].mac,
        output[k].index == Some(interfaces[i].index),
{
    let item = listed(interfaces[i], interfaces[i].addresses@[at]);
    lemma_reported(interfaces);
    law_every_address_is_listed(reported(interfaces), output, places, item);
    choose|k: int| 0 <= k < output.len() && output[k] == item
}

/// What is listed is an address of an interface, told with the name, the hardware address and the
/// index of that interface and with the classes that the address is in.
pub proof fn law_listed_address(
    interfaces: Seq<Interface>,
    output: Seq<AdapterAddress>,
    places: Seq<int>,
    k: int,
) -> (from: (int, int))
    requires
        sorted_stably(reported(interfaces), output, places),
        0 <= k < output.len(),
    ensures
        0 <= from.0 < interfaces.len(),
        0 <= from.1 < interfaces[from.0].addresses@.len(),
        output[k].name == interfaces[from.0].name,
        output[k].ip == interfaces[from.0].addresses@[from.1],
        output[k].mac == interfaces[from.0].mac,
        output[k].index == Some(interfaces[from.0].index),
        !output[k].ip.unspecified(),
        output[k].is_loopback == output[k].ip.loopback(),
        output[k].is_private == private_ip(output[k].ip),
        output[k].is_link_local == link_local_ip(output[k].ip),
{
    lemma_reported(interfaces);
    assert(output[k] == reported(interfaces)[places[k]]);
    let (i, at): (int, int) = choose|i: int, at: int|
        0 <= i < interfaces.len() && 0 <= at < interfaces[i].addresses@.len()
            && !(#[trigger] interfaces[i].addresses@[at]).unspecified() && reported(
            interfaces,
        )[places[k]] == listed(interfaces[i], interfaces[i].addresses@[at]);
    (i, at)
}

/// The list has as many entries as the interfaces have addresses that are listed.
pub proof fn law_length_of_the_list(
    interfaces: Seq<Interface>,
    output: Seq<AdapterAddress>,
    places: Seq<int>,
    interface: Interface,
    addresses: Seq<IpAddr>,
    ip: IpAddr,
)
    ensures
        sorted_stably(reported(interfaces), output, places) ==> output.len() == reported(
            interfaces,
        ).len(),
        reported(Seq::empty()).len() == 0,
        reported(interfaces.push(interface)).len() == reported(interfaces).len() + listed_of(
            interface,
            interface.addresses@,
        ).len(),
        listed_of(interface, Seq::empty()).len() == 0,
        listed_of(interface, addresses.push(ip)).len() == listed_of(interface, addresses).len() + (
        if ip.unspecified() {
            0int
        } else {
            1
        }),
{
    assert(interfaces.push(interface).drop_last() =~= interfaces);
    assert(addresses.push(ip).drop_last() =~= addresses);
}

/// In the list the addresses that are no loopback ones come first; among those of a kind, names
/// come in their order; and addresses of one name come in theirs.
pub proof fn law_order_of_the_list(
    input: Seq<AdapterAddress>,
    output: Seq<AdapterAddress>,
    places: Seq<int>,
    i: int,
    j: int,
)
    requires
        sorted_stably(input, output, places),
        0 <= i < j < output.len(),
    ensures
        output[i].is_loopback ==> output[j].is_loopback,
        output[i].is_loopback == output[j].is_loopback ==> output[i].name@ == output[j].name@
            || text_before(output[i].name@, output[j].name@),
        output[i].is_loopback == output[j].is_loopback && output[i].name@ == output[j].name@
            ==> !output[j].ip.before(output[i].ip),
        output[i].is_loopback == output[j].is_loopback && output[i].name@ == output[j].name@
            && output[i].ip == output[j].ip ==> places[i] < places[j],
{
    assert(!listed_before(output[j], output[i]));
    lemma_text_order_total(output[i].name@, output[j].name@);
    if output[i].ip == output[j].ip {
        assert(!output[i].ip.before(output[j].ip));
    }
}

} // verus!
