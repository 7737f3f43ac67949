//! How addresses are written, digit by digit, and which texts are read as addresses.

use vstd::prelude::*;

use crate::addr::{
    colons_at, first_colons, ip_text, ipv4_text, ipv6_text, is_group, is_octet, longest_zero_run,
    parsed_groups, parsed_ip, parsed_ipv4, parsed_ipv6, parsed_segments, segments_text, socket_text,
    zero_run, zero_segments, IpAddr, Ipv4Addr, Ipv6Addr, SocketAddr, SocketAddrV4, SocketAddrV6,
};
use crate::round_trip::{
    law_address_round_trip, lemma_colon_is_not_ipv4, lemma_first_colons, lemma_longest_in_range,
    lemma_zero_run,
};
use crate::spelling::{law_cutting, law_one_part_more};
use crate::text::{
    all_digits, all_hex_digits, decimal, digit_value, digits_value, hexadecimal, is_digit,
    is_hex_digit, joined, split_on,
};

verus! {

// ---------------------------------------------------------------------
// Writing
// ---------------------------------------------------------------------

/// A number in hexadecimal is written with the digits of its parts, in lower case: what stands
/// before the last digit writes a sixteenth of it.
pub proof fn law_hexadecimal(n: nat, d: nat)
    requires
        d < 16,
    ensures
        hexadecimal(d) == seq!["0123456789abcdef"@[d as int]],
        n > 0 ==> hexadecimal(n * 16 + d) == hexadecimal(n).push("0123456789abcdef"@[d as int]),
{
    reveal_strlit("0123456789abcdef");
    if n > 0 {
        assert((n * 16 + d) / 16 == n);
        assert((n * 16 + d) % 16 == d);
    }
}

/// An address of version 4 is written with its four bytes in decimal and dots between them.
pub proof fn law_text_of_ipv4(ip: Ipv4Addr)
    ensures
        ip_text(IpAddr::V4(ip)) == decimal(ip.a as nat).push('.') + decimal(ip.b as nat).push('.')
            + decimal(ip.c as nat).push('.') + decimal(ip.d as nat),
{
    let (a, b, c, d) = (
        decimal(ip.a as nat),
        decimal(ip.b as nat),
        decimal(ip.c as nat),
        decimal(ip.d as nat),
    );
    let dot = seq!['.'];
    assert(seq![a, b, c, d].drop_last() =~= seq![a, b, c]);
    assert(seq![a, b, c].drop_last() =~= seq![a, b]);
    assert(seq![a, b].drop_last() =~= seq![a]);
    assert(joined(seq![a], dot) == a);
    assert(joined(seq![a, b], dot) == a + dot + b);
    assert(joined(seq![a, b, c], dot) == a + dot + b + dot + c);
    assert(ipv4_text(ip) == a + dot + b + dot + c + dot + d);
    assert(ipv4_text(ip) =~= a.push('.') + b.push('.') + c.push('.') + d);
}

/// Segments are written in hexadecimal with colons between them.
pub proof fn law_text_of_segments(segments: Seq<u16>, segment: u16)
    ensures
        segments_text(Seq::empty()).len() == 0,
        segments_text(seq![segment]) == hexadecimal(segment as nat),
        segments.len() > 0 ==> segments_text(segments.push(segment)) == segments_text(
            segments,
        ).push(':') + hexadecimal(segment as nat),
{
    let text = |s: u16| hexadecimal(s as nat);
    let more = segments.push(segment).map_values(text);
    assert(more.drop_last() =~= segments.map_values(text));
    if segments.len() > 0 {
        assert(segments_text(segments.push(segment)) =~= segments_text(segments).push(':')
            + hexadecimal(segment as nat));
    }
}

/// How long a row of zeros is: as far as zeros go.
proof fn lemma_row(segments: Seq<u16>, from: int, count: int)
    requires
        0 <= from,
        0 <= count,
        from + count <= segments.len(),
        forall|i: int| from <= i < from + count ==> #[trigger] segments[i] == 0,
    ensures
        zero_run(segments, from) >= count,
    decreases count,
{
    if count > 0 {
        assert(segments[from] == 0);
        lemma_row(segments, from + 1, count - 1);
    }
}

/// No row of zeros is longer than the longest, and none before it is as long.
proof fn lemma_longest(segments: Seq<u16>, limit: nat, at: int)
    requires
        0 <= at < limit,
    ensures
        zero_run(segments, at) <= zero_run(segments, longest_zero_run(segments, limit)),
        zero_run(segments, at) == zero_run(segments, longest_zero_run(segments, limit))
            ==> longest_zero_run(segments, limit) <= at,
    decreases limit,
{
    lemma_longest_in_range(segments, (limit - 1) as nat);
    if at < limit - 1 {
        lemma_longest(segments, (limit - 1) as nat, at);
    }
}

/// An address that maps one of version 4 is written `::ffff:` and that one in decimal.
pub proof fn law_text_of_a_mapped_address(upper: u16, lower: u16)
    ensures
        ip_text(
            IpAddr::V6(
                Ipv6Addr { s0: 0, s1: 0, s2: 0, s3: 0, s4: 0, s5: 0xffff, s6: upper, s7: lower },
            ),
        ) == "::ffff:"@ + decimal((upper / 256) as nat).push('.') + decimal(
            (upper % 256) as nat,
        ).push('.') + decimal((lower / 256) as nat).push('.') + decimal((lower % 256) as nat),
{
    reveal_strlit("::ffff:");
    let ip = Ipv4Addr {
        a: (upper / 256) as u8,
        b: (upper % 256) as u8,
        c: (lower / 256) as u8,
        d: (lower % 256) as u8,
    };
    law_text_of_ipv4(ip);
    let mapped = Ipv6Addr {
        s0: 0,
        s1: 0,
        s2: 0,
        s3: 0,
        s4: 0,
        s5: 0xffff,
        s6: upper,
        s7: lower,
    };
    assert("::ffff:"@ =~= seq![':', ':', 'f', 'f', 'f', 'f', ':']);
    assert(ipv6_text(mapped) == "::ffff:"@ + ipv4_text(ip));
    assert(ipv6_text(mapped) =~= "::ffff:"@ + decimal((upper / 256) as nat).push('.') + decimal(
        (upper % 256) as nat,
    ).push('.') + decimal((lower / 256) as nat).push('.') + decimal((lower % 256) as nat));
}

/// Any other address of version 6 is written in full, or, where zeros stand side by side, without
/// the first of its longest rows of zeros, for which two colons stand.
pub proof fn law_text_of_ipv6(ip: Ipv6Addr, segments: Seq<u16>, from: int, count: int) -> (row: (
    int,
    int,
))
    requires
        segments == seq![ip.s0, ip.s1, ip.s2, ip.s3, ip.s4, ip.s5, ip.s6, ip.s7],
        !(ip.s0 == 0 && ip.s1 == 0 && ip.s2 == 0 && ip.s3 == 0 && ip.s4 == 0 && ip.s5 == 0xffff),
    ensures
        row.1 == 0 ==> {
            &&& ip_text(IpAddr::V6(ip)) == segments_text(segments)
            &&& forall|i: int|
                0 <= i < 7 ==> (#[trigger] segments[i] != 0 || segments[i + 1] != 0)
        },
        row.1 != 0 ==> {
            &&& 0 <= row.0 < row.0 + row.1 <= 8
            &&& 2 <= row.1
            &&& forall|i: int| row.0 <= i < row.0 + row.1 ==> #[trigger] segments[i] == 0
            &&& ip_text(IpAddr::V6(ip)) == segments_text(segments.subrange(0, row.0)) + "::"@
                + segments_text(segments.subrange(row.0 + row.1, 8))
            &&& 0 <= from && 0 < count && from + count <= 8 && (forall|i: int|
                from <= i < from + count ==> #[trigger] segments[i] == 0) ==> count < row.1 || (count
                == row.1 && row.0 <= from)
        },
{
    reveal_strlit("::");
    assert(segments =~= ip.spec_segments());
    let start = longest_zero_run(segments, 8);
    let len = zero_run(segments, start) as int;
    lemma_longest_in_range(segments, 8);
    lemma_zero_run(segments, start);
    if 0 <= from && 0 < count && from + count <= 8 && (forall|i: int|
        from <= i < from + count ==> #[trigger] segments[i] == 0) {
        lemma_row(segments, from, count);
        lemma_longest(segments, 8, from);
    }
    if len > 1 {
        assert(segments.take(start) =~= segments.subrange(0, start));
        assert(segments.skip(start + len) =~= segments.subrange(start + len, 8));
        assert("::"@ =~= seq![':', ':']);
        assert(ip_text(IpAddr::V6(ip)) == segments_text(segments.take(start)) + seq![':', ':']
            + segments_text(segments.skip(start + len)));
        (start, len)
    } else {
        assert forall|i: int| 0 <= i < 7 implies (#[trigger] segments[i] != 0 || segments[i + 1]
            != 0) by {
            if segments[i] == 0 && segments[i + 1] == 0 {
                lemma_row(segments, i, 2);
                lemma_longest(segments, 8, i);
            }
        }
        (0, 0)
    }
}

/// An endpoint is its address, a colon and its port; an address of version 6 stands in brackets,
/// and behind a percent sign its scope where it has one.
pub proof fn law_text_of_an_endpoint(v4: SocketAddrV4, v6: SocketAddrV6)
    ensures
        socket_text(SocketAddr::V4(v4)) == ip_text(IpAddr::V4(v4.ip)).push(':') + decimal(
            v4.port as nat,
        ),
        v6.scope_id == 0 ==> socket_text(SocketAddr::V6(v6)) == seq!['['] + ip_text(
            IpAddr::V6(v6.ip),
        ) + seq![']', ':'] + decimal(v6.port as nat),
        v6.scope_id != 0 ==> socket_text(SocketAddr::V6(v6)) == seq!['['] + ip_text(
            IpAddr::V6(v6.ip),
        ) + seq!['%'] + decimal(v6.scope_id as nat) + seq![']', ':'] + decimal(v6.port as nat),
{
    assert(socket_text(SocketAddr::V4(v4)) =~= ip_text(IpAddr::V4(v4.ip)).push(':') + decimal(
        v4.port as nat,
    ));
}

// ---------------------------------------------------------------------
// Reading
// ---------------------------------------------------------------------

/// A part that is taken for a byte is that byte in decimal.
proof fn lemma_only_octets(part: Seq<char>)
    requires
        is_octet(part),
    ensures
        part == decimal(digits_value(part, 10)),
{
    reveal_with_fuel(decimal, 4);
    reveal_with_fuel(digits_value, 4);
    assert(is_digit(part[0]));
    if part.len() == 1 {
        assert(part.drop_last() =~= Seq::empty());
        assert(part =~= decimal(digits_value(part, 10)));
    } else if part.len() == 2 {
        assert(is_digit(part[1]));
        assert(part.drop_last() =~= seq![part[0]]);
        assert(part.drop_last().drop_last() =~= Seq::empty());
        assert(part =~= decimal(digits_value(part, 10)));
    } else {
        assert(is_digit(part[1]));
        assert(is_digit(part[2]));
        assert(part.drop_last() =~= seq![part[0], part[1]]);
        assert(part.drop_last().drop_last() =~= seq![part[0]]);
        assert(part.drop_last().drop_last().drop_last() =~= Seq::empty());
        assert(part =~= decimal(digits_value(part, 10)));
    }
}

/// The only text that is read as an address of version 4 is the one that it is written with.
pub proof fn law_reading_ipv4(text: Seq<char>, ip: Ipv4Addr)
    ensures
        parsed_ip(text) == Some(IpAddr::V4(ip)) <==> text == ip_text(IpAddr::V4(ip)),
{
    law_address_round_trip(IpAddr::V4(ip));
    if parsed_ip(text) == Some(IpAddr::V4(ip)) {
        let parts = split_on(text, '.');
        law_cutting(text, '.');
        assert(parsed_ipv4(text) == Some(ip));
        lemma_only_octets(parts[0]);
        lemma_only_octets(parts[1]);
        lemma_only_octets(parts[2]);
        lemma_only_octets(parts[3]);
        assert(parts =~= seq![
            decimal(ip.a as nat),
            decimal(ip.b as nat),
            decimal(ip.c as nat),
            decimal(ip.d as nat),
        ]);
    }
}

/// A digit more makes a number in hexadecimal sixteen times as large and adds the digit, whose
/// case does not matter.
pub proof fn law_hexadecimal_digits(text: Seq<char>, ch: char)
    ensures
        digits_value(Seq::empty(), 16) == 0,
        '0' <= ch <= '9' ==> digits_value(text.push(ch), 16) == digits_value(text, 16) * 16 + (
        ch as u32 - 48),
        'a' <= ch <= 'f' ==> digits_value(text.push(ch), 16) == digits_value(text, 16) * 16 + (
        ch as u32 - 87),
        'A' <= ch <= 'F' ==> digits_value(text.push(ch), 16) == digits_value(text, 16) * 16 + (
        ch as u32 - 55),
{
    assert(text.push(ch).drop_last() =~= text);
}

/// Whether each part is made of one to four hexadecimal digits.
pub open spec fn groups(parts: Seq<Seq<char>>) -> bool {
    forall|k: int|
        0 <= k < parts.len() ==> 1 <= (#[trigger] parts[k]).len() <= 4 && forall|i: int|
            0 <= i < parts[k].len() ==> ('0' <= #[trigger] parts[k][i] <= '9' || 'a' <= parts[k][i]
                <= 'f' || 'A' <= parts[k][i] <= 'F')
}

/// Up to four hexadecimal digits write a number of 16 bits.
proof fn lemma_group_fits(part: Seq<char>)
    requires
        is_group(part),
    ensures
        digits_value(part, 16) <= 0xffff,
{
    reveal_with_fuel(digits_value, 5);
    assert forall|i: int| 0 <= i < part.len() implies digit_value(#[trigger] part[i]) <= 15 by {
        assert(is_hex_digit(part[i]));
    }
    let p = part;
    assert(digits_value(Seq::<char>::empty(), 16) == 0);
    if p.len() == 1 {
        assert(p.drop_last() =~= Seq::empty());
        assert(digit_value(p[0]) <= 15);
    } else if p.len() == 2 {
        assert(p.drop_last() =~= seq![p[0]]);
        assert(seq![p[0]].drop_last() =~= Seq::empty());
        assert(digit_value(p[0]) <= 15 && digit_value(p[1]) <= 15);
    } else if p.len() == 3 {
        assert(p.drop_last() =~= seq![p[0], p[1]]);
        assert(seq![p[0], p[1]].drop_last() =~= seq![p[0]]);
        assert(seq![p[0]].drop_last() =~= Seq::empty());
        assert(digit_value(p[0]) <= 15 && digit_value(p[1]) <= 15 && digit_value(p[2]) <= 15);
    } else {
        assert(p.drop_last() =~= seq![p[0], p[1], p[2]]);
        assert(seq![p[0], p[1], p[2]].drop_last() =~= seq![p[0], p[1]]);
        assert(seq![p[0], p[1]].drop_last() =~= seq![p[0]]);
        assert(seq![p[0]].drop_last() =~= Seq::empty());
        assert(digit_value(p[0]) <= 15 && digit_value(p[1]) <= 15 && digit_value(p[2]) <= 15);
        assert(digit_value(p[3]) <= 15);
    }
}

/// Parts joined with colons are read one by one, and the text has no two colons side by side and
/// none at its ends.
proof fn lemma_groups_read(parts: Seq<Seq<char>>, mixed: bool) -> (values: Seq<u16>)
    requires
        groups(parts),
    ensures
        parsed_segments(joined(parts, seq![':']), mixed) == Some(values),
        parsed_groups(parts, mixed) == Some(values),
        values.len() == parts.len(),
        forall|k: int| 0 <= k < parts.len() ==> #[trigger] values[k] == digits_value(parts[k], 16),
        parts.len() > 0 ==> split_on(joined(parts, seq![':']), ':') == parts,
        ({
            let text = joined(parts, seq![':']);
            &&& forall|i: int| #![trigger colons_at(text, i)] !colons_at(text, i)
            &&& parts.len() == 0 <==> text.len() == 0
            &&& parts.len() > 0 ==> text[0] != ':' && text[text.len() - 1] != ':'
            &&& parts.len() > 1 ==> exists|i: int| 0 <= i < text.len() && #[trigger] text[i] == ':'
        }),
    decreases parts.len(),
{
    let text = joined(parts, seq![':']);
    if parts.len() == 0 {
        Seq::empty()
    } else {
        let front = parts.drop_last();
        let last = parts[parts.len() - 1];
        let head = joined(front, seq![':']);
        assert forall|k: int| 0 <= k < front.len() implies 1 <= (#[trigger] front[k]).len() <= 4
            && forall|i: int|
            0 <= i < front[k].len() ==> ('0' <= #[trigger] front[k][i] <= '9' || 'a' <= front[k][i]
                <= 'f' || 'A' <= front[k][i] <= 'F') by {
            assert(front[k] == parts[k]);
        }
        let before = lemma_groups_read(front, false);
        assert(is_group(last));
        lemma_group_fits(last);
        assert forall|i: int| 0 <= i < last.len() implies #[trigger] last[i] != ':' by {
            assert(is_hex_digit(last[i]));
        }
        assert(front.push(last) =~= parts);
        if parts.len() == 1 {
            assert(text == last);
            law_one_part_more(Seq::empty(), ':', last);
            assert(seq![last] =~= parts);
            assert(last[0] != ':' && last[last.len() - 1] != ':');
            assert forall|i: int| #![trigger colons_at(text, i)] !colons_at(text, i) by {
                if colons_at(text, i) {
                    assert(last[i] != ':');
                }
            }
        } else {
            assert(text == head + seq![':'] + last);
            assert(text =~= head.push(':') + last);
            law_one_part_more(head, ':', last);
            assert(text[head.len() as int] == ':');
            assert(text[0] == head[0]);
            assert(text[text.len() - 1] == last[last.len() - 1]);
            assert forall|i: int| #![trigger colons_at(text, i)] !colons_at(text, i) by {
                if colons_at(text, i) {
                    if i + 1 < head.len() {
                        assert(colons_at(head, i));
                    } else if i + 1 == head.len() {
                        assert(text[i] == head[head.len() - 1]);
                    } else if i == head.len() {
                        assert(text[i + 1] == last[0]);
                    } else {
                        assert(text[i] == last[i - head.len() - 1]);
                    }
                }
            }
        }
        before.push(digits_value(last, 16) as u16)
    }
}

/// Eight groups of digits with colons between them are read as the eight segments of an address.
pub proof fn law_reading_eight_groups(parts: Seq<Seq<char>>) -> (ip: Ipv6Addr)
    requires
        groups(parts),
        parts.len() == 8,
    ensures
        parsed_ip(joined(parts, seq![':'])) == Some(IpAddr::V6(ip)),
        ip.s0 == digits_value(parts[0], 16),
        ip.s1 == digits_value(parts[1], 16),
        ip.s2 == digits_value(parts[2], 16),
        ip.s3 == digits_value(parts[3], 16),
        ip.s4 == digits_value(parts[4], 16),
        ip.s5 == digits_value(parts[5], 16),
        ip.s6 == digits_value(parts[6], 16),
        ip.s7 == digits_value(parts[7], 16),
{
    let text = joined(parts, seq![':']);
    let values = lemma_groups_read(parts, true);
    let at = choose|i: int| 0 <= i < text.len() && #[trigger] text[i] == ':';
    lemma_colon_is_not_ipv4(text, at);
    lemma_first_colons(text, 0, text.len() as int);
    assert(values[0] == digits_value(parts[0], 16) && values[1] == digits_value(parts[1], 16));
    assert(values[2] == digits_value(parts[2], 16) && values[3] == digits_value(parts[3], 16));
    assert(values[4] == digits_value(parts[4], 16) && values[5] == digits_value(parts[5], 16));
    assert(values[6] == digits_value(parts[6], 16) && values[7] == digits_value(parts[7], 16));
    Ipv6Addr::of_segments(values)
}

/// Any other number of groups without two colons side by side is no address.
pub proof fn law_other_numbers_of_groups(parts: Seq<Seq<char>>)
    requires
        groups(parts),
        parts.len() > 1,
        parts.len() != 8,
    ensures
        parsed_ip(joined(parts, seq![':'])) is None,
{
    let text = joined(parts, seq![':']);
    let values = lemma_groups_read(parts, true);
    let at = choose|i: int| 0 <= i < text.len() && #[trigger] text[i] == ':';
    lemma_colon_is_not_ipv4(text, at);
    lemma_first_colons(text, 0, text.len() as int);
}

/// Two colons between at most seven groups stand for as many zeros as make up eight segments; with
/// more groups the text is no address.
pub proof fn law_reading_two_colons(head: Seq<Seq<char>>, tail: Seq<Seq<char>>) -> (segments: Seq<
    u16,
>)
    requires
        groups(head),
        groups(tail),
    ensures
        head.len() + tail.len() > 7 ==> parsed_ip(
            joined(head, seq![':']) + seq![':', ':'] + joined(tail, seq![':']),
        ) is None,
        head.len() + tail.len() <= 7 ==> {
            &&& segments.len() == 8
            &&& parsed_ip(joined(head, seq![':']) + seq![':', ':'] + joined(tail, seq![':']))
                == Some(
                IpAddr::V6(
                    Ipv6Addr {
                        s0: segments[0],
                        s1: segments[1],
                        s2: segments[2],
                        s3: segments[3],
                        s4: segments[4],
                        s5: segments[5],
                        s6: segments[6],
                        s7: segments[7],
                    },
                ),
            )
            &&& forall|k: int|
                0 <= k < head.len() ==> #[trigger] segments[k] == digits_value(head[k], 16)
            &&& forall|k: int|
                head.len() <= k < 8 - tail.len() ==> #[trigger] segments[k] == 0
            &&& forall|k: int|
                8 - tail.len() <= k < 8 ==> #[trigger] segments[k] == digits_value(
                    tail[k - (8 - tail.len())],
                    16,
                )
        },
{
    let front = joined(head, seq![':']);
    let back = joined(tail, seq![':']);
    let text = front + seq![':', ':'] + back;
    let at = front.len() as int;
    let first = lemma_groups_read(head, false);
    let last = lemma_groups_read(tail, true);
    assert(text[at] == ':' && text[at + 1] == ':');
    lemma_colon_is_not_ipv4(text, at);
    assert forall|i: int| #![trigger colons_at(text, i)] 0 <= i < at implies !colons_at(
        text,
        i,
    ) by {
        if colons_at(text, i) {
            if i + 1 < at {
                assert(front[i] == ':' && front[i + 1] == ':');
                assert(colons_at(front, i));
            } else {
                assert(text[i] == front[front.len() - 1]);
            }
        }
    }
    assert(colons_at(text, at));
    lemma_first_colons(text, 0, at);
    assert(text.take(at) =~= front);
    assert(text.skip(at + 2) =~= back);
    let segments = first + zero_segments((8 - first.len() - last.len()) as nat) + last;
    if head.len() + tail.len() <= 7 {
        assert forall|k: int| 8 - tail.len() <= k < 8 implies #[trigger] segments[k]
            == digits_value(tail[k - (8 - tail.len())], 16) by {
            assert(segments[k] == last[k - (8 - tail.len())]);
        }
        assert forall|k: int| 0 <= k < head.len() implies #[trigger] segments[k] == digits_value(
            head[k],
            16,
        ) by {
            assert(segments[k] == first[k]);
        }
    }
    segments
}

} // verus!
