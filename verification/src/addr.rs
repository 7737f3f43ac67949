//! Internet addresses: their classes, their order, and how they are written and read as text.

use vstd::prelude::*;

use crate::text::{
    all_digits, all_hex_digits, char_texts, chars_of, copy_range, decimal, digits_value,
    hexadecimal, joined, parse_digits, push_decimal, push_hexadecimal, split_chars, split_on,
};

verus! {

#[derive(Debug, Clone, Copy, PartialEq, Eq, Hash, Structural)]
pub struct Ipv4Addr {
    pub a: u8,
    pub b: u8,
    pub c: u8,
    pub d: u8,
}

/// An address of eight 16-bit segments, the first one weighing most.
#[derive(Debug, Clone, Copy, PartialEq, Eq, Hash, Structural)]
pub struct Ipv6Addr {
    pub s0: u16,
    pub s1: u16,
    pub s2: u16,
    pub s3: u16,
    pub s4: u16,
    pub s5: u16,
    pub s6: u16,
    pub s7: u16,
}

#[derive(Debug, Clone, Copy, PartialEq, Eq, Hash, Structural)]
pub enum IpAddr {
    V4(Ipv4Addr),
    V6(Ipv6Addr),
}

#[derive(Debug, Clone, Copy, PartialEq, Eq, Hash, Structural)]
pub struct SocketAddrV4 {
    pub ip: Ipv4Addr,
    pub port: u16,
}

#[derive(Debug, Clone, Copy, PartialEq, Eq, Hash, Structural)]
pub struct SocketAddrV6 {
    pub ip: Ipv6Addr,
    pub port: u16,
    pub flowinfo: u32,
    pub scope_id: u32,
}

#[derive(Debug, Clone, Copy, PartialEq, Eq, Hash, Structural)]
pub enum SocketAddr {
    V4(SocketAddrV4),
    V6(SocketAddrV6),
}

/// The upper byte of a 16-bit number.
pub open spec fn high_byte(n: u16) -> u8 {
    (n / 256) as u8
}

/// The lower byte of a 16-bit number.
pub open spec fn low_byte(n: u16) -> u8 {
    (n % 256) as u8
}

/// The 16-bit number with the given upper and lower byte.
pub open spec fn from_bytes(high: u8, low: u8) -> u16 {
    (high * 256 + low) as u16
}

/// A 16-bit number as two bytes, the upper one first.
pub open spec fn be_bytes(n: u16) -> Seq<u8> {
    seq![high_byte(n), low_byte(n)]
}

pub fn join_bytes(high: u8, low: u8) -> (n: u16)
    ensures
        n == from_bytes(high, low),
        high_byte(n) == high,
        low_byte(n) == low,
{
    (high as u16) * 256 + low as u16
}

pub fn high_of(n: u16) -> (high: u8)
    ensures
        high == high_byte(n),
{
    (n / 256) as u8
}

pub fn low_of(n: u16) -> (low: u8)
    ensures
        low == low_byte(n),
{
    (n % 256) as u8
}

impl Ipv4Addr {
    /// The four bytes, the first one weighing most.
    pub open spec fn spec_octets(self) -> Seq<u8> {
        seq![self.a, self.b, self.c, self.d]
    }

    /// The address as a number, so that addresses are in order as their numbers are.
    pub open spec fn number(self) -> nat {
        ((self.a as nat * 256 + self.b as nat) * 256 + self.c as nat) * 256 + self.d as nat
    }

    pub fn new(a: u8, b: u8, c: u8, d: u8) -> (ip: Self)
        ensures
            ip == (Ipv4Addr { a, b, c, d }),
    {
        Ipv4Addr { a, b, c, d }
    }

    pub fn octets(self) -> (out: [u8; 4])
        ensures
            out@ == self.spec_octets(),
    {
        [self.a, self.b, self.c, self.d]
    }

    pub fn as_number(self) -> (n: u32)
        ensures
            n == self.number(),
    {
        ((self.a as u32 * 256 + self.b as u32) * 256 + self.c as u32) * 256 + self.d as u32
    }
}

impl Ipv6Addr {
    pub open spec fn spec_segments(self) -> Seq<u16> {
        seq![self.s0, self.s1, self.s2, self.s3, self.s4, self.s5, self.s6, self.s7]
    }

    /// The sixteen bytes, the first one weighing most.
    pub open spec fn spec_octets(self) -> Seq<u8> {
        be_bytes(self.s0) + be_bytes(self.s1) + be_bytes(self.s2) + be_bytes(self.s3) + be_bytes(
            self.s4,
        ) + be_bytes(self.s5) + be_bytes(self.s6) + be_bytes(self.s7)
    }

    /// The address with these eight segments.
    pub open spec fn of_segments(s: Seq<u16>) -> Ipv6Addr {
        Ipv6Addr {
            s0: s[0],
            s1: s[1],
            s2: s[2],
            s3: s[3],
            s4: s[4],
            s5: s[5],
            s6: s[6],
            s7: s[7],
        }
    }

    /// The address with these sixteen bytes.
    pub open spec fn of_octets(o: Seq<u8>) -> Ipv6Addr {
        Ipv6Addr {
            s0: from_bytes(o[0], o[1]),
            s1: from_bytes(o[2], o[3]),
            s2: from_bytes(o[4], o[5]),
            s3: from_bytes(o[6], o[7]),
            s4: from_bytes(o[8], o[9]),
            s5: from_bytes(o[10], o[11]),
            s6: from_bytes(o[12], o[13]),
            s7: from_bytes(o[14], o[15]),
        }
    }

    /// The address as a number, so that addresses are in order as their numbers are.
    pub open spec fn number(self) -> nat {
        ((((((self.s0 as nat * 0x1_0000 + self.s1 as nat) * 0x1_0000 + self.s2 as nat) * 0x1_0000
            + self.s3 as nat) * 0x1_0000 + self.s4 as nat) * 0x1_0000 + self.s5 as nat) * 0x1_0000
            + self.s6 as nat) * 0x1_0000 + self.s7 as nat
    }

    pub fn new(s0: u16, s1: u16, s2: u16, s3: u16, s4: u16, s5: u16, s6: u16, s7: u16) -> (ip: Self)
        ensures
            ip == (Ipv6Addr { s0, s1, s2, s3, s4, s5, s6, s7 }),
    {
        Ipv6Addr { s0, s1, s2, s3, s4, s5, s6, s7 }
    }

    pub fn segments(self) -> (out: [u16; 8])
        ensures
            out@ == self.spec_segments(),
    {
        [self.s0, self.s1, self.s2, self.s3, self.s4, self.s5, self.s6, self.s7]
    }

    pub fn octets(self) -> (out: [u8; 16])
        ensures
            out@ == self.spec_octets(),
    {
        let out: [u8; 16] = [
            high_of(self.s0),
            low_of(self.s0),
            high_of(self.s1),
            low_of(self.s1),
            high_of(self.s2),
            low_of(self.s2),
            high_of(self.s3),
            low_of(self.s3),
            high_of(self.s4),
            low_of(self.s4),
            high_of(self.s5),
            low_of(self.s5),
            high_of(self.s6),
            low_of(self.s6),
            high_of(self.s7),
            low_of(self.s7),
        ];
        assert(out@ =~= self.spec_octets());
        out
    }

    /// The address whose sixteen bytes start at `at`.
    pub fn from_octets(bytes: &[u8], at: usize) -> (ip: Self)
        requires
            at + 16 <= bytes@.len(),
        ensures
            ip == Ipv6Addr::of_octets(bytes@.subrange(at as int, at + 16)),
            ip.spec_octets() == bytes@.subrange(at as int, at + 16),
    {
        let ip = Ipv6Addr {
            s0: join_bytes(bytes[at], bytes[at + 1]),
            s1: join_bytes(bytes[at + 2], bytes[at + 3]),
            s2: join_bytes(bytes[at + 4], bytes[at + 5]),
            s3: join_bytes(bytes[at + 6], bytes[at + 7]),
            s4: join_bytes(bytes[at + 8], bytes[at + 9]),
            s5: join_bytes(bytes[at + 10], bytes[at + 11]),
            s6: join_bytes(bytes[at + 12], bytes[at + 13]),
            s7: join_bytes(bytes[at + 14], bytes[at + 15]),
        };
        assert(ip.spec_octets() =~= bytes@.subrange(at as int, at + 16));
        ip
    }

    fn from_segments(s: &Vec<u16>) -> (ip: Self)
        requires
            s@.len() == 8,
        ensures
            ip == Ipv6Addr::of_segments(s@),
    {
        Ipv6Addr {
            s0: s[0],
            s1: s[1],
            s2: s[2],
            s3: s[3],
            s4: s[4],
            s5: s[5],
            s6: s[6],
            s7: s[7],
        }
    }

    pub fn as_number(self) -> (n: u128)
        ensures
            n == self.number(),
    {
        ((((((self.s0 as u128 * 0x1_0000 + self.s1 as u128) * 0x1_0000 + self.s2 as u128) * 0x1_0000
            + self.s3 as u128) * 0x1_0000 + self.s4 as u128) * 0x1_0000 + self.s5 as u128)
            * 0x1_0000 + self.s6 as u128) * 0x1_0000 + self.s7 as u128
    }
}

impl IpAddr {
    /// The address family, as a rank: version 4 comes before version 6.
    pub open spec fn family(self) -> nat {
        match self {
            IpAddr::V4(_) => 4,
            IpAddr::V6(_) => 6,
        }
    }

    pub open spec fn number(self) -> nat {
        match self {
            IpAddr::V4(ip) => ip.number(),
            IpAddr::V6(ip) => ip.number(),
        }
    }

    /// The order of addresses: by family, then by number.
    pub open spec fn before(self, other: IpAddr) -> bool {
        self.family() < other.family() || (self.family() == other.family() && self.number()
            < other.number())
    }

    /// The bytes of the address, the first one weighing most.
    pub open spec fn spec_octets(self) -> Seq<u8> {
        match self {
            IpAddr::V4(ip) => ip.spec_octets(),
            IpAddr::V6(ip) => ip.spec_octets(),
        }
    }

    pub open spec fn unspecified(self) -> bool {
        match self {
            IpAddr::V4(ip) => ip == (Ipv4Addr { a: 0, b: 0, c: 0, d: 0 }),
            IpAddr::V6(ip) => forall|i: int| 0 <= i < 8 ==> #[trigger] ip.spec_segments()[i] == 0,
        }
    }

    /// `127.0.0.0/8` and `::1`.
    pub open spec fn loopback(self) -> bool {
        match self {
            IpAddr::V4(ip) => ip.a == 127,
            IpAddr::V6(ip) => ip == (Ipv6Addr {
                s0: 0,
                s1: 0,
                s2: 0,
                s3: 0,
                s4: 0,
                s5: 0,
                s6: 0,
                s7: 1,
            }),
        }
    }

    pub fn is_ipv4(&self) -> (v4: bool)
        ensures
            v4 == (*self is V4),
    {
        match self {
            IpAddr::V4(_) => true,
            IpAddr::V6(_) => false,
        }
    }

    pub fn is_unspecified(&self) -> (zero: bool)
        ensures
            zero == self.unspecified(),
    {
        match self {
            IpAddr::V4(ip) => ip.a == 0 && ip.b == 0 && ip.c == 0 && ip.d == 0,
            IpAddr::V6(ip) => {
                proof {
                    let s = ip.spec_segments();
                    assert(s[0] == ip.s0 && s[1] == ip.s1 && s[2] == ip.s2 && s[3] == ip.s3);
                    assert(s[4] == ip.s4 && s[5] == ip.s5 && s[6] == ip.s6 && s[7] == ip.s7);
                }
                ip.s0 == 0 && ip.s1 == 0 && ip.s2 == 0 && ip.s3 == 0 && ip.s4 == 0 && ip.s5 == 0
                    && ip.s6 == 0 && ip.s7 == 0
            },
        }
    }

    pub fn is_loopback(&self) -> (loopback: bool)
        ensures
            loopback == self.loopback(),
    {
        match self {
            IpAddr::V4(ip) => ip.a == 127,
            IpAddr::V6(ip) => ip.s0 == 0 && ip.s1 == 0 && ip.s2 == 0 && ip.s3 == 0 && ip.s4 == 0
                && ip.s5 == 0 && ip.s6 == 0 && ip.s7 == 1,
        }
    }

    /// Whether `self` stands before `other` in the order of addresses.
    pub fn is_before(&self, other: &IpAddr) -> (before: bool)
        ensures
            before == self.before(*other),
    {
        match (self, other) {
            (IpAddr::V4(x), IpAddr::V4(y)) => x.as_number() < y.as_number(),
            (IpAddr::V6(x), IpAddr::V6(y)) => x.as_number() < y.as_number(),
            (IpAddr::V4(_), IpAddr::V6(_)) => true,
            (IpAddr::V6(_), IpAddr::V4(_)) => false,
        }
    }
}

impl SocketAddr {
    /// The endpoint at `ip` and `port`, with no flow label and no scope.
    pub open spec fn at(ip: IpAddr, port: u16) -> SocketAddr {
        match ip {
            IpAddr::V4(ip) => SocketAddr::V4(SocketAddrV4 { ip, port }),
            IpAddr::V6(ip) => SocketAddr::V6(SocketAddrV6 { ip, port, flowinfo: 0, scope_id: 0 }),
        }
    }

    pub open spec fn spec_ip(self) -> IpAddr {
        match self {
            SocketAddr::V4(addr) => IpAddr::V4(addr.ip),
            SocketAddr::V6(addr) => IpAddr::V6(addr.ip),
        }
    }

    pub open spec fn spec_port(self) -> u16 {
        match self {
            SocketAddr::V4(addr) => addr.port,
            SocketAddr::V6(addr) => addr.port,
        }
    }

    pub fn new(ip: IpAddr, port: u16) -> (addr: Self)
        ensures
            addr == SocketAddr::at(ip, port),
    {
        match ip {
            IpAddr::V4(ip) => SocketAddr::V4(SocketAddrV4 { ip, port }),
            IpAddr::V6(ip) => SocketAddr::V6(SocketAddrV6 { ip, port, flowinfo: 0, scope_id: 0 }),
        }
    }

    pub fn ip(&self) -> (ip: IpAddr)
        ensures
            ip == self.spec_ip(),
    {
        match self {
            SocketAddr::V4(addr) => IpAddr::V4(addr.ip),
            SocketAddr::V6(addr) => IpAddr::V6(addr.ip),
        }
    }

    pub fn port(&self) -> (port: u16)
        ensures
            port == self.spec_port(),
    {
        match self {
            SocketAddr::V4(addr) => addr.port,
            SocketAddr::V6(addr) => addr.port,
        }
    }

    pub fn is_ipv4(&self) -> (v4: bool)
        ensures
            v4 == (self.spec_ip() is V4),
    {
        match self {
            SocketAddr::V4(_) => true,
            SocketAddr::V6(_) => false,
        }
    }
}

// ---------------------------------------------------------------------
// Writing addresses
// ---------------------------------------------------------------------

/// Four decimal bytes with dots between them.
pub open spec fn ipv4_text(ip: Ipv4Addr) -> Seq<char> {
    joined(
        seq![
            decimal(ip.a as nat),
            decimal(ip.b as nat),
            decimal(ip.c as nat),
            decimal(ip.d as nat),
        ],
        seq!['.'],
    )
}

/// Whether the address maps a version 4 address: `::ffff:0:0/96`.
pub open spec fn maps_ipv4(ip: Ipv6Addr) -> bool {
    ip.s0 == 0 && ip.s1 == 0 && ip.s2 == 0 && ip.s3 == 0 && ip.s4 == 0 && ip.s5 == 0xffff
}

/// The version 4 address that two segments hold.
pub open spec fn embedded_ipv4(upper: u16, lower: u16) -> Ipv4Addr {
    Ipv4Addr {
        a: high_byte(upper),
        b: low_byte(upper),
        c: high_byte(lower),
        d: low_byte(lower),
    }
}

/// How many segments from `at` on are zero without a break.
pub open spec fn zero_run(segments: Seq<u16>, at: int) -> nat
    decreases segments.len() - at,
{
    if 0 <= at < segments.len() && segments[at] == 0 {
        1 + zero_run(segments, at + 1)
    } else {
        0
    }
}

/// The first of the longest rows of zeros that start below `limit`.
pub open spec fn longest_zero_run(segments: Seq<u16>, limit: nat) -> int
    decreases limit,
{
    if limit == 0 {
        0
    } else {
        let best = longest_zero_run(segments, (limit - 1) as nat);
        if zero_run(segments, limit - 1) > zero_run(segments, best) {
            limit - 1
        } else {
            best
        }
    }
}

/// Segments in hexadecimal with colons between them.
pub open spec fn segments_text(segments: Seq<u16>) -> Seq<char> {
    joined(segments.map_values(|s: u16| hexadecimal(s as nat)), seq![':'])
}

/// The text of a version 6 address: the first longest row of two or more zero segments is
/// written `::`, and a mapped version 4 address is written in decimal.
pub open spec fn ipv6_text(ip: Ipv6Addr) -> Seq<char> {
    let segments = ip.spec_segments();
    let start = longest_zero_run(segments, 8);
    let len = zero_run(segments, start);
    if maps_ipv4(ip) {
        seq![':', ':', 'f', 'f', 'f', 'f', ':'] + ipv4_text(embedded_ipv4(ip.s6, ip.s7))
    } else if len > 1 {
        segments_text(segments.take(start)) + seq![':', ':'] + segments_text(
            segments.skip(start + len),
        )
    } else {
        segments_text(segments)
    }
}

/// The text of an address.
pub open spec fn ip_text(ip: IpAddr) -> Seq<char> {
    match ip {
        IpAddr::V4(ip) => ipv4_text(ip),
        IpAddr::V6(ip) => ipv6_text(ip),
    }
}

/// The text of an endpoint; a version 6 address stands in brackets.
pub open spec fn socket_text(addr: SocketAddr) -> Seq<char> {
    match addr {
        SocketAddr::V4(v4) => ipv4_text(v4.ip) + seq![':'] + decimal(v4.port as nat),
        SocketAddr::V6(v6) => if v6.scope_id == 0 {
            seq!['['] + ipv6_text(v6.ip) + seq![']', ':'] + decimal(v6.port as nat)
        } else {
            seq!['['] + ipv6_text(v6.ip) + seq!['%'] + decimal(v6.scope_id as nat) + seq![
                ']',
                ':',
            ] + decimal(v6.port as nat)
        },
    }
}

fn push_ipv4(out: &mut String, ip: Ipv4Addr)
    ensures
        final(out)@ == old(out)@ + ipv4_text(ip),
{
    let ghost before = out@;
    push_decimal(out, ip.a as u64);
    out.push('.');
    push_decimal(out, ip.b as u64);
    out.push('.');
    push_decimal(out, ip.c as u64);
    out.push('.');
    push_decimal(out, ip.d as u64);
    proof {
        lemma_join_four(
            decimal(ip.a as nat),
            decimal(ip.b as nat),
            decimal(ip.c as nat),
            decimal(ip.d as nat),
            seq!['.'],
        );
        assert(out@ =~= before + ipv4_text(ip));
    }
}

proof fn lemma_join_four(
    a: Seq<char>,
    b: Seq<char>,
    c: Seq<char>,
    d: Seq<char>,
    sep: Seq<char>,
)
    ensures
        joined(seq![a, b, c, d], sep) == a + sep + b + sep + c + sep + d,
{
    assert(seq![a, b, c, d].drop_last() =~= seq![a, b, c]);
    assert(seq![a, b, c].drop_last() =~= seq![a, b]);
    assert(seq![a, b].drop_last() =~= seq![a]);
    assert(joined(seq![a], sep) == a);
    assert(joined(seq![a, b], sep) == a + sep + b);
    assert(joined(seq![a, b, c], sep) == a + sep + b + sep + c);
}

fn push_segments(out: &mut String, segments: &[u16; 8], from: usize, to: usize)
    requires
        from <= to <= 8,
    ensures
        final(out)@ == old(out)@ + segments_text(segments@.subrange(from as int, to as int)),
{
    let ghost before = out@;
    let ghost hex = |s: u16| hexadecimal(s as nat);
    let mut i: usize = from;
    assert(segments@.subrange(from as int, from as int).map_values(hex) =~= Seq::empty());
    while i < to
        invariant
            from <= i <= to <= 8,
            hex == (|s: u16| hexadecimal(s as nat)),
            out@ == before + joined(
                segments@.subrange(from as int, i as int).map_values(hex),
                seq![':'],
            ),
        decreases to - i,
    {
        proof {
            let longer = segments@.subrange(from as int, i + 1).map_values(hex);
            assert(longer.drop_last() =~= segments@.subrange(from as int, i as int).map_values(
                hex,
            ));
            assert(longer.last() == hexadecimal(segments@[i as int] as nat));
        }
        if i > from {
            out.push(':');
        }
        push_hexadecimal(out, segments[i]);
        i += 1;
        assert(out@ =~= before + joined(
            segments@.subrange(from as int, i as int).map_values(hex),
            seq![':'],
        ));
    }
}

fn zero_run_at(segments: &[u16; 8], at: usize) -> (len: usize)
    requires
        at <= 8,
    ensures
        len == zero_run(segments@, at as int),
        at + len <= 8,
    decreases 8 - at,
{
    if at < 8 && segments[at] == 0 {
        1 + zero_run_at(segments, at + 1)
    } else {
        0
    }
}

fn push_ipv6(out: &mut String, ip: Ipv6Addr)
    ensures
        final(out)@ == old(out)@ + ipv6_text(ip),
{
    let ghost before = out@;
    if ip.s0 == 0 && ip.s1 == 0 && ip.s2 == 0 && ip.s3 == 0 && ip.s4 == 0 && ip.s5 == 0xffff {
        out.push(':');
        out.push(':');
        out.push('f');
        out.push('f');
        out.push('f');
        out.push('f');
        out.push(':');
        push_ipv4(
            out,
            Ipv4Addr {
                a: high_of(ip.s6),
                b: low_of(ip.s6),
                c: high_of(ip.s7),
                d: low_of(ip.s7),
            },
        );
        assert(out@ =~= before + ipv6_text(ip));
        return;
    }
    let segments: [u16; 8] = ip.segments();
    let mut best: usize = 0;
    let mut best_len: usize = zero_run_at(&segments, 0);
    let mut i: usize = 0;
    while i < 8
        invariant
            i <= 8,
            best < 8,
            best == longest_zero_run(segments@, i as nat),
            best_len == zero_run(segments@, best as int),
            best + best_len <= 8,
        decreases 8 - i,
    {
        let len: usize = zero_run_at(&segments, i);
        if len > best_len {
            best = i;
            best_len = len;
        }
        i += 1;
    }
    if best_len > 1 {
        push_segments(out, &segments, 0, best);
        out.push(':');
        out.push(':');
        push_segments(out, &segments, best + best_len, 8);
        assert(segments@.subrange(0, best as int) =~= segments@.take(best as int));
        assert(segments@.subrange(best + best_len, 8) =~= segments@.skip(best + best_len));
    } else {
        push_segments(out, &segments, 0, 8);
        assert(segments@.subrange(0, 8) =~= segments@);
    }
    assert(out@ =~= before + ipv6_text(ip));
}

/// Appends the text of an address.
pub fn push_ip(out: &mut String, ip: IpAddr)
    ensures
        final(out)@ == old(out)@ + ip_text(ip),
{
    match ip {
        IpAddr::V4(ip) => push_ipv4(out, ip),
        IpAddr::V6(ip) => push_ipv6(out, ip),
    }
}

/// Appends the text of an endpoint.
pub fn push_socket(out: &mut String, addr: SocketAddr)
    ensures
        final(out)@ == old(out)@ + socket_text(addr),
{
    let ghost before = out@;
    match addr {
        SocketAddr::V4(v4) => {
            push_ipv4(out, v4.ip);
            out.push(':');
            push_decimal(out, v4.port as u64);
        },
        SocketAddr::V6(v6) => {
            out.push('[');
            push_ipv6(out, v6.ip);
            if v6.scope_id != 0 {
                out.push('%');
                push_decimal(out, v6.scope_id as u64);
            }
            out.push(']');
            out.push(':');
            push_decimal(out, v6.port as u64);
        },
    }
    assert(out@ =~= before + socket_text(addr));
}

impl IpAddr {
    /// The text of the address.
    pub fn to_text(&self) -> (out: String)
        ensures
            out@ == ip_text(*self),
    {
        let mut out: String = String::new();
        push_ip(&mut out, *self);
        out
    }
}

impl SocketAddr {
    /// The text of the endpoint.
    pub fn to_text(&self) -> (out: String)
        ensures
            out@ == socket_text(*self),
    {
        let mut out: String = String::new();
        push_socket(&mut out, *self);
        out
    }
}

// ---------------------------------------------------------------------
// Reading addresses
// ---------------------------------------------------------------------

/// Whether `part` writes a byte: one to three digits, no needless zero in front, at most 255.
pub open spec fn is_octet(part: Seq<char>) -> bool {
    &&& 1 <= part.len() <= 3
    &&& all_digits(part)
    &&& part.len() > 1 ==> part[0] != '0'
    &&& digits_value(part, 10) <= 255
}

/// Whether `part` writes a segment: one to four hexadecimal digits.
pub open spec fn is_group(part: Seq<char>) -> bool {
    1 <= part.len() <= 4 && all_hex_digits(part)
}

/// The version 4 address that `text` writes.
pub open spec fn parsed_ipv4(text: Seq<char>) -> Option<Ipv4Addr> {
    let parts = split_on(text, '.');
    if parts.len() == 4 && is_octet(parts[0]) && is_octet(parts[1]) && is_octet(parts[2])
        && is_octet(parts[3]) {
        Some(
            Ipv4Addr {
                a: digits_value(parts[0], 10) as u8,
                b: digits_value(parts[1], 10) as u8,
                c: digits_value(parts[2], 10) as u8,
                d: digits_value(parts[3], 10) as u8,
            },
        )
    } else {
        None
    }
}

/// The segments that a list of parts writes. Each part is a hexadecimal segment; the last one
/// may be a version 4 address, which fills two segments, where `mixed` allows it.
pub open spec fn parsed_groups(parts: Seq<Seq<char>>, mixed: bool) -> Option<Seq<u16>>
    decreases parts.len(),
{
    if parts.len() == 0 {
        Some(Seq::empty())
    } else {
        match parsed_groups(parts.drop_last(), false) {
            None => None,
            Some(before) => if is_group(parts.last()) {
                Some(before.push(digits_value(parts.last(), 16) as u16))
            } else if mixed {
                match parsed_ipv4(parts.last()) {
                    Some(v4) => Some(before.push(from_bytes(v4.a, v4.b)).push(
                        from_bytes(v4.c, v4.d),
                    )),
                    None => None,
                }
            } else {
                None
            },
        }
    }
}

/// The segments that a text writes; none where the text is empty.
pub open spec fn parsed_segments(text: Seq<char>, mixed: bool) -> Option<Seq<u16>> {
    if text.len() == 0 {
        Some(Seq::empty())
    } else {
        parsed_groups(split_on(text, ':'), mixed)
    }
}

/// Whether two colons follow each other at `at`.
pub open spec fn colons_at(text: Seq<char>, at: int) -> bool {
    0 <= at && at + 1 < text.len() && text[at] == ':' && text[at + 1] == ':'
}

/// Where the first pair of colons from `at` on stands; the length of the text if there is none.
pub open spec fn first_colons(text: Seq<char>, at: int) -> int
    decreases text.len() - at,
{
    if at >= text.len() {
        text.len() as int
    } else if colons_at(text, at) {
        at
    } else {
        first_colons(text, at + 1)
    }
}

/// `count` zero segments.
pub open spec fn zero_segments(count: nat) -> Seq<u16> {
    Seq::new(count, |i: int| 0u16)
}

/// The version 6 address that `text` writes. A pair of colons stands for one or more zero
/// segments, and without it all eight segments are written.
pub open spec fn parsed_ipv6(text: Seq<char>) -> Option<Ipv6Addr> {
    let at = first_colons(text, 0);
    if at == text.len() {
        match parsed_segments(text, true) {
            Some(all) => if all.len() == 8 {
                Some(Ipv6Addr::of_segments(all))
            } else {
                None
            },
            None => None,
        }
    } else {
        match (parsed_segments(text.take(at), false), parsed_segments(text.skip(at + 2), true)) {
            (Some(head), Some(tail)) => if head.len() + tail.len() <= 7 {
                Some(
                    Ipv6Addr::of_segments(
                        head + zero_segments((8 - head.len() - tail.len()) as nat) + tail,
                    ),
                )
            } else {
                None
            },
            _ => None,
        }
    }
}

/// The address that `text` writes.
pub open spec fn parsed_ip(text: Seq<char>) -> Option<IpAddr> {
    match parsed_ipv4(text) {
        Some(ip) => Some(IpAddr::V4(ip)),
        None => match parsed_ipv6(text) {
            Some(ip) => Some(IpAddr::V6(ip)),
            None => None,
        },
    }
}

fn read_octet(part: &Vec<char>) -> (value: Option<u8>)
    ensures
        value is Some <==> is_octet(part@),
        value is Some ==> value->0 == digits_value(part@, 10),
{
    if part.len() < 1 || part.len() > 3 || (part.len() > 1 && part[0] == '0') {
        return None;
    }
    match parse_digits(part.as_slice(), 10) {
        Some(value) => if value <= 255 {
            Some(value as u8)
        } else {
            None
        },
        None => None,
    }
}

fn read_group(part: &Vec<char>) -> (value: Option<u16>)
    ensures
        value is Some <==> is_group(part@),
        value is Some ==> value->0 == digits_value(part@, 16) as u16,
{
    if part.len() < 1 || part.len() > 4 {
        return None;
    }
    match parse_digits(part.as_slice(), 16) {
        Some(value) => Some(value as u16),
        None => None,
    }
}

fn read_ipv4(chars: &[char]) -> (ip: Option<Ipv4Addr>)
    ensures
        ip == parsed_ipv4(chars@),
{
    let parts: Vec<Vec<char>> = split_chars(chars, '.');
    assert(char_texts(parts@).len() == parts@.len());
    if parts.len() != 4 {
        return None;
    }
    assert(char_texts(parts@)[0] == parts@[0]@);
    assert(char_texts(parts@)[1] == parts@[1]@);
    assert(char_texts(parts@)[2] == parts@[2]@);
    assert(char_texts(parts@)[3] == parts@[3]@);
    match (read_octet(&parts[0]), read_octet(&parts[1]), read_octet(&parts[2]), read_octet(
        &parts[3],
    )) {
        (Some(a), Some(b), Some(c), Some(d)) => Some(Ipv4Addr { a, b, c, d }),
        _ => None,
    }
}

fn read_segments(chars: &[char], mixed: bool) -> (out: Option<Vec<u16>>)
    ensures
        out is Some <==> parsed_segments(chars@, mixed) is Some,
        out is Some ==> out->0@ == parsed_segments(chars@, mixed)->0,
{
    let mut out: Vec<u16> = Vec::new();
    if chars.len() == 0 {
        return Some(out);
    }
    let parts: Vec<Vec<char>> = split_chars(chars, ':');
    let ghost all = char_texts(parts@);
    let last: usize = parts.len() - 1;
    let mut i: usize = 0;
    assert(all.take(0) =~= Seq::empty());
    while i < last
        invariant
            i <= last,
            last == parts@.len() - 1,
            all == char_texts(parts@),
            all == split_on(chars@, ':'),
            chars@.len() > 0,
            parsed_groups(all.take(i as int), false) == Some(out@),
        decreases last - i,
    {
        proof {
            assert(all.take(i + 1).drop_last() =~= all.take(i as int));
            assert(all.take(i + 1).last() == parts@[i as int]@);
        }
        match read_group(&parts[i]) {
            Some(value) => out.push(value),
            None => {
                proof {
                    lemma_groups_prefix(all, i + 1, mixed);
                }
                return None;
            },
        }
        i += 1;
    }
    proof {
        assert(all.drop_last() =~= all.take(i as int));
        assert(all.last() == parts@[last as int]@);
    }
    match read_group(&parts[last]) {
        Some(value) => {
            out.push(value);
            Some(out)
        },
        None => {
            if !mixed {
                return None;
            }
            match read_ipv4(parts[last].as_slice()) {
                Some(v4) => {
                    out.push(join_bytes(v4.a, v4.b));
                    out.push(join_bytes(v4.c, v4.d));
                    Some(out)
                },
                None => None,
            }
        },
    }
}

/// A list of parts cannot be read where a proper prefix of it cannot.
proof fn lemma_groups_prefix(parts: Seq<Seq<char>>, count: int, mixed: bool)
    requires
        0 <= count < parts.len(),
        parsed_groups(parts.take(count), false) is None,
    ensures
        parsed_groups(parts, mixed) is None,
    decreases parts.len(),
{
    if count == parts.len() - 1 {
        assert(parts.drop_last() =~= parts.take(count));
    } else {
        assert(parts.drop_last().take(count) =~= parts.take(count));
        lemma_groups_prefix(parts.drop_last(), count, false);
    }
}

fn read_ipv6(chars: &[char]) -> (ip: Option<Ipv6Addr>)
    ensures
        ip == parsed_ipv6(chars@),
{
    let mut at: usize = 0;
    while at < chars.len() && !(chars.len() - at > 1 && chars[at] == ':' && chars[at + 1] == ':')
        invariant
            at <= chars@.len(),
            first_colons(chars@, 0) == first_colons(chars@, at as int),
        decreases chars@.len() - at,
    {
        at += 1;
    }
    if at == chars.len() {
        match read_segments(chars, true) {
            Some(all) => if all.len() == 8 {
                Some(Ipv6Addr::from_segments(&all))
            } else {
                None
            },
            None => None,
        }
    } else {
        let head_text: Vec<char> = copy_range(chars, 0, at);
        let tail_text: Vec<char> = copy_range(chars, at + 2, chars.len());
        assert(head_text@ =~= chars@.take(at as int));
        assert(tail_text@ =~= chars@.skip(at + 2));
        match (read_segments(head_text.as_slice(), false), read_segments(
            tail_text.as_slice(),
            true,
        )) {
            (Some(head), Some(tail)) => {
                if head.len() > 7 || tail.len() > 7 || head.len() + tail.len() > 7 {
                    return None;
                }
                let mut all: Vec<u16> = head;
                let ghost front = all@;
                let ghost gap = (8 - front.len() - tail@.len()) as nat;
                while all.len() < 8 - tail.len()
                    invariant
                        tail@.len() <= 7,
                        front.len() <= all@.len() <= 8 - tail@.len(),
                        all@ == front + zero_segments((all@.len() - front.len()) as nat),
                    decreases 8 - all@.len(),
                {
                    all.push(0);
                }
                let mut i: usize = 0;
                while i < tail.len()
                    invariant
                        i <= tail@.len(),
                        all@ == front + zero_segments(gap) + tail@.take(i as int),
                    decreases tail@.len() - i,
                {
                    all.push(tail[i]);
                    i += 1;
                }
                assert(tail@.take(i as int) =~= tail@);
                Some(Ipv6Addr::from_segments(&all))
            },
            _ => None,
        }
    }
}

/// Reads the address that `text` writes.
pub fn parse_ip(text: &str) -> (ip: Option<IpAddr>)
    ensures
        ip == parsed_ip(text@),
{
    let chars: Vec<char> = chars_of(text);
    match read_ipv4(chars.as_slice()) {
        Some(ip) => Some(IpAddr::V4(ip)),
        None => match read_ipv6(chars.as_slice()) {
            Some(ip) => Some(IpAddr::V6(ip)),
            None => None,
        },
    }
}

// ---------------------------------------------------------------------
// What holds of addresses
// ---------------------------------------------------------------------

/// The unspecified address has only zeros; a loopback address starts with 127, or is the number
/// one of version 6.
pub proof fn law_special_addresses(ip: IpAddr)
    ensures
        ip matches IpAddr::V4(v4) ==> (ip.unspecified() <==> v4.a == 0 && v4.b == 0 && v4.c == 0
            && v4.d == 0),
        ip matches IpAddr::V6(v6) ==> (ip.unspecified() <==> v6.s0 == 0 && v6.s1 == 0 && v6.s2 == 0
            && v6.s3 == 0 && v6.s4 == 0 && v6.s5 == 0 && v6.s6 == 0 && v6.s7 == 0),
        ip matches IpAddr::V4(v4) ==> (ip.loopback() <==> v4.a == 127),
        ip matches IpAddr::V6(v6) ==> (ip.loopback() <==> v6.s0 == 0 && v6.s1 == 0 && v6.s2 == 0
            && v6.s3 == 0 && v6.s4 == 0 && v6.s5 == 0 && v6.s6 == 0 && v6.s7 == 1),
{
    match ip {
        IpAddr::V4(_) => {},
        IpAddr::V6(v6) => {
            let s = v6.spec_segments();
            assert(s[0] == v6.s0 && s[1] == v6.s1 && s[2] == v6.s2 && s[3] == v6.s3);
            assert(s[4] == v6.s4 && s[5] == v6.s5 && s[6] == v6.s6 && s[7] == v6.s7);
        },
    }
}

/// An address of version 4 stands before every one of version 6.
pub proof fn law_order_of_families(v4: Ipv4Addr, v6: Ipv6Addr)
    ensures
        IpAddr::V4(v4).before(IpAddr::V6(v6)),
        !IpAddr::V6(v6).before(IpAddr::V4(v4)),
{
}

/// Of two addresses of version 4 the first byte in which they differ decides.
pub proof fn law_order_of_ipv4(x: Ipv4Addr, y: Ipv4Addr)
    ensures
        IpAddr::V4(x).before(IpAddr::V4(y)) <==> x.a < y.a || (x.a == y.a && (x.b < y.b || (x.b
            == y.b && (x.c < y.c || (x.c == y.c && x.d < y.d))))),
{
}

/// Of two addresses of version 6 the first segment in which they differ decides.
pub proof fn law_order_of_ipv6(x: Ipv6Addr, y: Ipv6Addr)
    ensures
        IpAddr::V6(x).before(IpAddr::V6(y)) <==> x.s0 < y.s0 || (x.s0 == y.s0 && (x.s1 < y.s1 || (
        x.s1 == y.s1 && (x.s2 < y.s2 || (x.s2 == y.s2 && (x.s3 < y.s3 || (x.s3 == y.s3 && (x.s4
            < y.s4 || (x.s4 == y.s4 && (x.s5 < y.s5 || (x.s5 == y.s5 && (x.s6 < y.s6 || (x.s6
            == y.s6 && x.s7 < y.s7))))))))))))),
{
}

/// An endpoint has the address and the port that it was made of, and neither a flow label nor a
/// scope.
pub proof fn law_endpoint(v4: Ipv4Addr, v6: Ipv6Addr, port: u16)
    ensures
        SocketAddr::at(IpAddr::V4(v4), port) == SocketAddr::V4(SocketAddrV4 { ip: v4, port }),
        SocketAddr::at(IpAddr::V6(v6), port) == SocketAddr::V6(
            SocketAddrV6 { ip: v6, port, flowinfo: 0, scope_id: 0 },
        ),
{
}

/// What an endpoint says of itself is what it holds.
pub proof fn law_parts_of_an_endpoint(v4: SocketAddrV4, v6: SocketAddrV6)
    ensures
        SocketAddr::V4(v4).spec_ip() == IpAddr::V4(v4.ip),
        SocketAddr::V4(v4).spec_port() == v4.port,
        SocketAddr::V6(v6).spec_ip() == IpAddr::V6(v6.ip),
        SocketAddr::V6(v6).spec_port() == v6.port,
{
}

} // verus!
