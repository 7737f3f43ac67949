//! Addresses are read back as they are written, and identities tell apart what they stand for.

use vstd::prelude::*;

use crate::adapter::identity;
use crate::cli::{last_place, parsed_egress, EgressFault};
use crate::addr::{
    colons_at, embedded_ipv4, first_colons, from_bytes, ip_text, ipv4_text, ipv6_text, is_group,
    is_octet, longest_zero_run, maps_ipv4, parsed_groups, parsed_ip, parsed_ipv4, parsed_ipv6,
    parsed_segments, segments_text, socket_text, zero_run, zero_segments, IpAddr, Ipv4Addr,
    Ipv6Addr, SocketAddr,
};
use crate::socks::flow_id;
use crate::text::{
    all_digits, all_hex_digits, decimal, digits_value, hexadecimal, is_digit, is_hex_digit, joined,
    parsed_u16, split_on,
};

verus! {

// ---------------------------------------------------------------------
// Numbers
// ---------------------------------------------------------------------

/// A byte in decimal is read as that byte.
proof fn lemma_octet(n: nat)
    requires
        n <= 255,
    ensures
        is_octet(decimal(n)),
        digits_value(decimal(n), 10) == n,
{
    reveal_with_fuel(decimal, 4);
    reveal_with_fuel(digits_value, 4);
    let text = decimal(n);
    if n < 10 {
        assert(text.drop_last() =~= Seq::empty());
    } else if n < 100 {
        assert(text.drop_last() =~= decimal(n / 10));
        assert(text.drop_last().drop_last() =~= Seq::empty());
    } else {
        assert(text.drop_last() =~= decimal(n / 10));
        assert(text.drop_last().drop_last() =~= decimal(n / 10 / 10));
        assert(text.drop_last().drop_last().drop_last() =~= Seq::empty());
    }
}

/// A 16-bit number in hexadecimal is read as that number.
proof fn lemma_group(n: nat)
    requires
        n <= 0xffff,
    ensures
        is_group(hexadecimal(n)),
        digits_value(hexadecimal(n), 16) == n,
    decreases n,
{
    if n < 16 {
        let text = hexadecimal(n);
        assert(text.drop_last() =~= Seq::empty());
        assert(digits_value(text.drop_last(), 16) == 0);
    } else {
        lemma_hex_len(n / 16);
        lemma_group(n / 16);
        let text = hexadecimal(n);
        assert(text.drop_last() =~= hexadecimal(n / 16));
        assert(all_hex_digits(text)) by {
            assert forall|i: int| 0 <= i < text.len() implies is_hex_digit(#[trigger] text[i]) by {
                if i < text.len() - 1 {
                    assert(text[i] == hexadecimal(n / 16)[i]);
                }
            }
        }
        lemma_hex_len(n);
    }
}

/// How many digits a 16-bit number takes in hexadecimal.
proof fn lemma_hex_len(n: nat)
    requires
        n <= 0xffff,
    ensures
        1 <= hexadecimal(n).len() <= 4,
{
    reveal_with_fuel(hexadecimal, 5);
}

// ---------------------------------------------------------------------
// Splitting what was joined
// ---------------------------------------------------------------------

/// Whether `ch` does not stand in `text`.
spec fn lacks(text: Seq<char>, ch: char) -> bool {
    forall|i: int| 0 <= i < text.len() ==> #[trigger] text[i] != ch
}

/// A text without the separator is one piece.
proof fn lemma_split_one(text: Seq<char>, sep: char)
    requires
        lacks(text, sep),
    ensures
        split_on(text, sep) == seq![text],
    decreases text.len(),
{
    if text.len() == 0 {
        assert(text =~= Seq::empty());
    } else {
        let front = text.drop_last();
        assert(lacks(front, sep)) by {
            assert forall|i: int| 0 <= i < front.len() implies #[trigger] front[i] != sep by {
                assert(text[i] != sep);
            }
        }
        lemma_split_one(front, sep);
        assert(text[text.len() - 1] != sep);
        assert(split_on(front, sep).drop_last() =~= Seq::empty());
        assert(front.push(text.last()) =~= text);
        assert(split_on(text, sep) =~= seq![text]);
    }
}

/// A separator and a text without one add a piece.
proof fn lemma_split_append(front: Seq<char>, part: Seq<char>, sep: char)
    requires
        lacks(part, sep),
    ensures
        split_on(front + seq![sep] + part, sep) == split_on(front, sep).push(part),
    decreases part.len(),
{
    let text = front + seq![sep] + part;
    if part.len() == 0 {
        assert(text.drop_last() =~= front);
        assert(text.last() == sep);
        assert(part =~= Seq::empty());
    } else {
        let shorter = part.drop_last();
        assert(lacks(shorter, sep)) by {
            assert forall|i: int| 0 <= i < shorter.len() implies #[trigger] shorter[i] != sep by {
                assert(part[i] != sep);
            }
        }
        lemma_split_append(front, shorter, sep);
        assert(text.drop_last() =~= front + seq![sep] + shorter);
        assert(part[part.len() - 1] != sep);
        let before = split_on(front, sep).push(shorter);
        assert(before.drop_last() =~= split_on(front, sep));
        assert(shorter.push(part.last()) =~= part);
    }
}

/// What was joined with a separator is split into what it was joined from.
proof fn lemma_split_joined(parts: Seq<Seq<char>>, sep: char)
    requires
        parts.len() > 0,
        forall|i: int| 0 <= i < parts.len() ==> lacks(#[trigger] parts[i], sep),
    ensures
        split_on(joined(parts, seq![sep]), sep) == parts,
    decreases parts.len(),
{
    if parts.len() == 1 {
        lemma_split_one(parts[0], sep);
        assert(seq![parts[0]] =~= parts);
    } else {
        let front = parts.drop_last();
        assert forall|i: int| 0 <= i < front.len() implies lacks(#[trigger] front[i], sep) by {
            assert(lacks(parts[i], sep));
        }
        lemma_split_joined(front, sep);
        assert(lacks(parts[parts.len() - 1], sep));
        lemma_split_append(joined(front, seq![sep]), parts.last(), sep);
        assert(front.push(parts.last()) =~= parts);
    }
}

/// A character that stands in a text, and is no separator, stands in one of the pieces.
proof fn lemma_piece_holds(text: Seq<char>, sep: char, at: int)
    requires
        0 <= at < text.len(),
        text[at] != sep,
    ensures
        exists|k: int, i: int|
            0 <= k < split_on(text, sep).len() && 0 <= i < split_on(text, sep)[k].len()
                && #[trigger] split_on(text, sep)[k][i] == text[at],
    decreases text.len(),
{
    let front = text.drop_last();
    let before = split_on(front, sep);
    let parts = split_on(text, sep);
    crate::text::lemma_split_nonempty(front, sep);
    if at == text.len() - 1 {
        let k = before.len() - 1;
        assert(parts[k] == before.last().push(text[at]));
        assert(parts[k][before.last().len() as int] == text[at]);
    } else {
        lemma_piece_holds(front, sep, at);
        let (k, i): (int, int) = choose|k: int, i: int|
            0 <= k < before.len() && 0 <= i < before[k].len() && #[trigger] before[k][i]
                == front[at];
        if text.last() == sep {
            assert(parts[k][i] == text[at]);
        } else if k < before.len() - 1 {
            assert(parts[k] == before[k]);
            assert(parts[k][i] == text[at]);
        } else {
            assert(parts[k] == before.last().push(text.last()));
            assert(parts[k][i] == text[at]);
        }
    }
}

// ---------------------------------------------------------------------
// Version 4
// ---------------------------------------------------------------------

/// Digits hold neither dots nor colons.
proof fn lemma_digits_lack(text: Seq<char>)
    ensures
        all_digits(text) ==> lacks(text, '.') && lacks(text, ':'),
        all_hex_digits(text) ==> lacks(text, '.') && lacks(text, ':'),
{
    if all_digits(text) {
        assert forall|i: int| 0 <= i < text.len() implies #[trigger] text[i] != '.' && text[i]
            != ':' by {
            assert(is_digit(text[i]));
        }
    }
    if all_hex_digits(text) {
        assert forall|i: int| 0 <= i < text.len() implies #[trigger] text[i] != '.' && text[i]
            != ':' by {
            assert(is_hex_digit(text[i]));
        }
    }
}

/// A version 4 address is read back as it is written.
proof fn lemma_ipv4_round_trip(ip: Ipv4Addr)
    ensures
        parsed_ipv4(ipv4_text(ip)) == Some(ip),
{
    let parts = seq![
        decimal(ip.a as nat),
        decimal(ip.b as nat),
        decimal(ip.c as nat),
        decimal(ip.d as nat),
    ];
    lemma_octet(ip.a as nat);
    lemma_octet(ip.b as nat);
    lemma_octet(ip.c as nat);
    lemma_octet(ip.d as nat);
    assert forall|i: int| 0 <= i < parts.len() implies lacks(#[trigger] parts[i], '.') by {
        lemma_digits_lack(parts[i]);
    }
    lemma_split_joined(parts, '.');
}

/// Whether `text` holds nothing but hexadecimal digits, colons and dots.
spec fn plain(text: Seq<char>) -> bool {
    forall|i: int|
        0 <= i < text.len() ==> is_hex_digit(#[trigger] text[i]) || text[i] == ':' || text[i] == '.'
}

/// Whether every character of `text` passes.
spec fn only(text: Seq<char>, passes: spec_fn(char) -> bool) -> bool {
    forall|i: int| 0 <= i < text.len() ==> passes(#[trigger] text[i])
}

/// What was joined holds what its parts and the separator hold.
proof fn lemma_joined_only(parts: Seq<Seq<char>>, sep: char, passes: spec_fn(char) -> bool)
    requires
        passes(sep),
        forall|i: int| 0 <= i < parts.len() ==> only(#[trigger] parts[i], passes),
    ensures
        only(joined(parts, seq![sep]), passes),
    decreases parts.len(),
{
    if parts.len() == 1 {
        assert(only(parts[0], passes));
    } else if parts.len() > 1 {
        let front = parts.drop_last();
        assert forall|i: int| 0 <= i < front.len() implies only(#[trigger] front[i], passes) by {
            assert(only(parts[i], passes));
        }
        lemma_joined_only(front, sep, passes);
        assert(only(parts[parts.len() - 1], passes));
        let text = joined(parts, seq![sep]);
        let head = joined(front, seq![sep]);
        assert forall|i: int| 0 <= i < text.len() implies passes(#[trigger] text[i]) by {
            if i < head.len() {
                assert(passes(head[i]));
            } else if i > head.len() {
                assert(passes(parts.last()[i - head.len() - 1]));
            }
        }
    }
}

/// The text of a version 4 address holds no colon, and it is no segment.
proof fn lemma_ipv4_text(ip: Ipv4Addr)
    ensures
        lacks(ipv4_text(ip), ':'),
        plain(ipv4_text(ip)),
        !is_group(ipv4_text(ip)),
{
    let parts = seq![
        decimal(ip.a as nat),
        decimal(ip.b as nat),
        decimal(ip.c as nat),
        decimal(ip.d as nat),
    ];
    let passes = |ch: char| is_digit(ch) || ch == '.';
    lemma_octet(ip.a as nat);
    lemma_octet(ip.b as nat);
    lemma_octet(ip.c as nat);
    lemma_octet(ip.d as nat);
    assert forall|i: int| 0 <= i < parts.len() implies only(#[trigger] parts[i], passes) by {
        assert(all_digits(parts[i]));
    }
    lemma_joined_only(parts, '.', passes);
    let text = ipv4_text(ip);
    assert forall|i: int| 0 <= i < text.len() implies #[trigger] text[i] != ':' && (is_hex_digit(
        text[i],
    ) || text[i] == '.') by {
        assert(passes(text[i]));
    }
    let front = parts.drop_last();
    let head = joined(front, seq!['.']);
    assert(text == head + seq!['.'] + parts.last());
    assert(text[head.len() as int] == '.');
}

/// A text with a colon is no version 4 address.
pub proof fn lemma_colon_is_not_ipv4(text: Seq<char>, at: int)
    requires
        0 <= at < text.len(),
        text[at] == ':',
    ensures
        parsed_ipv4(text) is None,
{
    lemma_piece_holds(text, '.', at);
    let parts = split_on(text, '.');
    let (k, i): (int, int) = choose|k: int, i: int|
        0 <= k < parts.len() && 0 <= i < parts[k].len() && #[trigger] parts[k][i] == text[at];
    if parts.len() == 4 {
        assert(!is_digit(parts[k][i]));
        assert(!is_octet(parts[k]));
    }
}

// ---------------------------------------------------------------------
// Version 6
// ---------------------------------------------------------------------

/// The segments in hexadecimal.
spec fn groups_of(segments: Seq<u16>) -> Seq<Seq<char>> {
    segments.map_values(|s: u16| hexadecimal(s as nat))
}

proof fn lemma_groups(segments: Seq<u16>)
    ensures
        forall|i: int|
            0 <= i < segments.len() ==> {
                &&& is_group(#[trigger] groups_of(segments)[i])
                &&& digits_value(groups_of(segments)[i], 16) == segments[i]
                &&& lacks(groups_of(segments)[i], ':')
                &&& groups_of(segments)[i].len() > 0
            },
{
    assert forall|i: int| 0 <= i < segments.len() implies {
        &&& is_group(#[trigger] groups_of(segments)[i])
        &&& digits_value(groups_of(segments)[i], 16) == segments[i]
        &&& lacks(groups_of(segments)[i], ':')
        &&& groups_of(segments)[i].len() > 0
    } by {
        lemma_group(segments[i] as nat);
        lemma_digits_lack(groups_of(segments)[i]);
    }
}

/// Hexadecimal segments are read as what they write.
proof fn lemma_parsed_groups(segments: Seq<u16>, mixed: bool)
    ensures
        parsed_groups(groups_of(segments), mixed) == Some(segments),
    decreases segments.len(),
{
    let groups = groups_of(segments);
    if segments.len() == 0 {
        assert(segments =~= Seq::empty());
    } else {
        lemma_groups(segments);
        let front = segments.drop_last();
        lemma_parsed_groups(front, false);
        assert(groups.drop_last() =~= groups_of(front));
        assert(is_group(groups[segments.len() - 1]));
        assert(front.push(segments.last()) =~= segments);
    }
}

/// The text of segments is read as the segments; no segments write no text.
proof fn lemma_parsed_segments(segments: Seq<u16>, mixed: bool)
    ensures
        parsed_segments(segments_text(segments), mixed) == Some(segments),
        segments.len() == 0 <==> segments_text(segments).len() == 0,
{
    let groups = groups_of(segments);
    lemma_groups(segments);
    if segments.len() == 0 {
        assert(segments =~= Seq::empty());
        assert(segments_text(segments) =~= Seq::empty());
    } else {
        assert forall|i: int| 0 <= i < groups.len() implies lacks(#[trigger] groups[i], ':') by {
            assert(is_group(groups[i]));
        }
        lemma_split_joined(groups, ':');
        lemma_parsed_groups(segments, mixed);
        lemma_segments_text(segments);
    }
}

/// The text of segments holds hexadecimal digits and single colons, the latter not at its ends.
proof fn lemma_segments_text(segments: Seq<u16>)
    ensures
        ({
            let text = segments_text(segments);
            &&& only(text, |ch: char| is_hex_digit(ch) || ch == ':')
            &&& forall|i: int| #![trigger colons_at(text, i)] !colons_at(text, i)
            &&& segments.len() > 0 ==> text.len() > 0 && text[0] != ':' && text.last() != ':'
            &&& segments.len() > 1 ==> !lacks(text, ':')
        }),
    decreases segments.len(),
{
    let text = segments_text(segments);
    let groups = groups_of(segments);
    let passes = |ch: char| is_hex_digit(ch) || ch == ':';
    lemma_groups(segments);
    if segments.len() == 1 {
        assert(is_group(groups[0]));
        assert(text == groups[0]);
        assert(text[0] != ':');
        assert(text[text.len() - 1] != ':');
    } else if segments.len() > 1 {
        let front = segments.drop_last();
        lemma_segments_text(front);
        assert(groups.drop_last() =~= groups_of(front));
        let head = segments_text(front);
        let last = groups.last();
        assert(is_group(groups[segments.len() - 1]));
        assert(text == head + seq![':'] + last);
        assert(text[head.len() as int] == ':');
        assert(last[0] != ':' && last[last.len() - 1] != ':');
        assert(text[0] == head[0]);
        assert(text[text.len() - 1] == last[last.len() - 1]);
        assert forall|i: int| 0 <= i < text.len() implies passes(#[trigger] text[i]) by {
            if i < head.len() {
                assert(passes(head[i]));
            } else if i > head.len() {
                assert(is_hex_digit(last[i - head.len() - 1]));
            }
        }
        assert forall|i: int| #![trigger colons_at(text, i)] !colons_at(text, i) by {
            if colons_at(text, i) {
                if i + 1 < head.len() {
                    assert(colons_at(head, i));
                } else if i + 1 == head.len() {
                    assert(text[i] == head[head.len() - 1]);
                } else if i == head.len() {
                    assert(text[i + 1] == last[0]);
                } else {
                    assert(text[i] == last[i - head.len() - 1]);
                }
            }
        }
    }
}

/// The first pair of colons stands where one stands and none stood before.
pub proof fn lemma_first_colons(text: Seq<char>, from: int, at: int)
    requires
        0 <= from <= at <= text.len(),
        at < text.len() ==> colons_at(text, at),
        forall|i: int| #![trigger colons_at(text, i)] from <= i < at ==> !colons_at(text, i),
    ensures
        first_colons(text, from) == at,
    decreases at - from,
{
    if from < at {
        assert(!colons_at(text, from));
        lemma_first_colons(text, from + 1, at);
    }
}

/// A row of zeros is made of zeros and ends within the segments.
pub proof fn lemma_zero_run(segments: Seq<u16>, at: int)
    requires
        0 <= at <= segments.len(),
    ensures
        at + zero_run(segments, at) <= segments.len(),
        forall|i: int| at <= i < at + zero_run(segments, at) ==> #[trigger] segments[i] == 0,
    decreases segments.len() - at,
{
    if at < segments.len() && segments[at] == 0 {
        lemma_zero_run(segments, at + 1);
    }
}

pub proof fn lemma_longest_in_range(segments: Seq<u16>, limit: nat)
    ensures
        0 <= longest_zero_run(segments, limit) <= limit,
        limit > 0 ==> longest_zero_run(segments, limit) < limit,
    decreases limit,
{
    if limit > 0 {
        lemma_longest_in_range(segments, (limit - 1) as nat);
    }
}

/// An address whose longest row of zeros is left out is read back as it is written.
proof fn lemma_shortened(ip: Ipv6Addr, start: int, len: int)
    requires
        0 <= start,
        len >= 2,
        start + len <= 8,
        forall|i: int| start <= i < start + len ==> #[trigger] ip.spec_segments()[i] == 0,
    ensures
        ({
            let segments = ip.spec_segments();
            let text = segments_text(segments.take(start)) + seq![':', ':'] + segments_text(
                segments.skip(start + len),
            );
            &&& parsed_ipv6(text) == Some(ip)
            &&& !lacks(text, ':')
            &&& plain(text)
        }),
{
    let segments = ip.spec_segments();
    let head = segments.take(start);
    let tail = segments.skip(start + len);
    let front = segments_text(head);
    let back = segments_text(tail);
    let text = front + seq![':', ':'] + back;
    let at = front.len() as int;
    lemma_segments_text(head);
    lemma_segments_text(tail);
    lemma_parsed_segments(head, false);
    lemma_parsed_segments(tail, true);
    assert(text[at] == ':' && text[at + 1] == ':');
    assert forall|i: int| #![trigger colons_at(text, i)] 0 <= i < at implies !colons_at(
        text,
        i,
    ) by {
        if colons_at(text, i) {
            if i + 1 < at {
                assert(front[i] == ':' && front[i + 1] == ':');
                assert(colons_at(front, i));
            } else {
                assert(text[i] == front[front.len() - 1]);
            }
        }
    }
    assert(colons_at(text, at));
    lemma_first_colons(text, 0, at);
    assert(text.take(at) =~= front);
    assert(text.skip(at + 2) =~= back);
    let whole = head + zero_segments((8 - head.len() - tail.len()) as nat) + tail;
    assert(whole =~= segments);
    assert(Ipv6Addr::of_segments(segments) == ip);
    let passes = |ch: char| is_hex_digit(ch) || ch == ':';
    assert forall|i: int| 0 <= i < text.len() implies is_hex_digit(#[trigger] text[i])
        || text[i] == ':' || text[i] == '.' by {
        if i < at {
            assert(passes(front[i]));
        } else if i >= at + 2 {
            assert(passes(back[i - at - 2]));
        }
    }
}

/// An address without a row of zeros is read back as it is written.
proof fn lemma_in_full(ip: Ipv6Addr)
    ensures
        parsed_ipv6(segments_text(ip.spec_segments())) == Some(ip),
        !lacks(segments_text(ip.spec_segments()), ':'),
        plain(segments_text(ip.spec_segments())),
{
    let segments = ip.spec_segments();
    let text = segments_text(segments);
    lemma_segments_text(segments);
    lemma_parsed_segments(segments, true);
    lemma_first_colons(text, 0, text.len() as int);
    assert(Ipv6Addr::of_segments(segments) == ip);
    let passes = |ch: char| is_hex_digit(ch) || ch == ':';
    assert forall|i: int| 0 <= i < text.len() implies is_hex_digit(#[trigger] text[i])
        || text[i] == ':' || text[i] == '.' by {
        assert(passes(text[i]));
    }
}

/// The segment of ones in hexadecimal.
spec fn ones() -> Seq<char> {
    seq!['f', 'f', 'f', 'f']
}

proof fn lemma_ones()
    ensures
        is_group(ones()),
        lacks(ones(), ':'),
        parsed_groups(seq![ones()], false) == Some(seq![0xffffu16]),
{
    let word = ones();
    assert(is_group(word));
    assert(digits_value(word, 16) == 0xffff) by {
        reveal_with_fuel(digits_value, 5);
        assert(word.drop_last() =~= seq!['f', 'f', 'f']);
        assert(word.drop_last().drop_last() =~= seq!['f', 'f']);
        assert(word.drop_last().drop_last().drop_last() =~= seq!['f']);
        assert(word.drop_last().drop_last().drop_last().drop_last() =~= Seq::empty());
    }
    assert(seq![word].drop_last() =~= Seq::empty());
    assert(parsed_groups(Seq::<Seq<char>>::empty(), false) == Some(Seq::<u16>::empty()));
    assert(Seq::<u16>::empty().push(0xffff) =~= seq![0xffffu16]);
}

/// What follows the colons of a mapped address is read as three segments.
proof fn lemma_mapped_tail(v4: Ipv4Addr)
    ensures
        parsed_segments(ones() + seq![':'] + ipv4_text(v4), true) == Some(
            seq![0xffffu16, from_bytes(v4.a, v4.b), from_bytes(v4.c, v4.d)],
        ),
{
    let tail = ipv4_text(v4);
    let parts = seq![ones(), tail];
    let text = ones() + seq![':'] + tail;
    lemma_ipv4_text(v4);
    lemma_ipv4_round_trip(v4);
    lemma_ones();
    assert(parts.drop_last() =~= seq![ones()]);
    assert(joined(seq![ones()], seq![':']) == ones());
    assert(text =~= joined(parts, seq![':']));
    lemma_split_joined(parts, ':');
    assert(seq![0xffffu16].push(from_bytes(v4.a, v4.b)).push(from_bytes(v4.c, v4.d)) =~= seq![
        0xffffu16,
        from_bytes(v4.a, v4.b),
        from_bytes(v4.c, v4.d),
    ]);
}

/// An address that maps one of version 4 is read back as it is written.
proof fn lemma_mapped(ip: Ipv6Addr)
    requires
        maps_ipv4(ip),
    ensures
        parsed_ipv6(ipv6_text(ip)) == Some(ip),
        !lacks(ipv6_text(ip), ':'),
        plain(ipv6_text(ip)),
{
    let v4 = embedded_ipv4(ip.s6, ip.s7);
    let tail = ipv4_text(v4);
    let text = ipv6_text(ip);
    assert(text == seq![':', ':', 'f', 'f', 'f', 'f', ':'] + tail);
    lemma_ipv4_text(v4);
    lemma_mapped_tail(v4);
    assert(colons_at(text, 0));
    lemma_first_colons(text, 0, 0);
    assert(text.take(0) =~= Seq::empty());
    assert(text.skip(2) =~= ones() + seq![':'] + tail);
    assert(from_bytes(v4.a, v4.b) == ip.s6);
    assert(from_bytes(v4.c, v4.d) == ip.s7);
    let whole = Seq::<u16>::empty() + zero_segments(5) + seq![0xffffu16, ip.s6, ip.s7];
    assert(whole =~= ip.spec_segments());
    assert(Ipv6Addr::of_segments(ip.spec_segments()) == ip);
    assert(text[0] == ':');
    assert forall|i: int| 0 <= i < text.len() implies is_hex_digit(#[trigger] text[i])
        || text[i] == ':' || text[i] == '.' by {
        if i >= 7 {
            assert(text[i] == tail[i - 7]);
        }
    }
}

proof fn lemma_ipv6_round_trip(ip: Ipv6Addr)
    ensures
        parsed_ipv6(ipv6_text(ip)) == Some(ip),
        !lacks(ipv6_text(ip), ':'),
        plain(ipv6_text(ip)),
{
    let segments = ip.spec_segments();
    let start = longest_zero_run(segments, 8);
    let len = zero_run(segments, start) as int;
    lemma_longest_in_range(segments, 8);
    lemma_zero_run(segments, start);
    if maps_ipv4(ip) {
        lemma_mapped(ip);
    } else if len > 1 {
        lemma_shortened(ip, start, len);
    } else {
        lemma_in_full(ip);
    }
}

// ---------------------------------------------------------------------
// Laws
// ---------------------------------------------------------------------

/// Every address is read back as it is written.
pub proof fn law_address_round_trip(ip: IpAddr)
    ensures
        parsed_ip(ip_text(ip)) == Some(ip),
{
    match ip {
        IpAddr::V4(v4) => lemma_ipv4_round_trip(v4),
        IpAddr::V6(v6) => {
            lemma_ipv6_round_trip(v6);
            let text = ipv6_text(v6);
            let at = choose|i: int| 0 <= i < text.len() && text[i] == ':';
            lemma_colon_is_not_ipv4(text, at);
        },
    }
}

/// Different addresses are written differently.
pub proof fn law_address_text_is_unambiguous(left: IpAddr, right: IpAddr)
    requires
        ip_text(left) == ip_text(right),
    ensures
        left == right,
{
    law_address_round_trip(left);
    law_address_round_trip(right);
}

/// Two adapter addresses have the same identity only if they have the same name and the same
/// address.
pub proof fn law_identity_is_unambiguous(
    name: Seq<char>,
    ip: IpAddr,
    other_name: Seq<char>,
    other_ip: IpAddr,
)
    requires
        identity(name, ip) == identity(other_name, other_ip),
    ensures
        name == other_name,
        ip == other_ip,
{
    reveal_strlit("|");
    lemma_address_text(ip);
    lemma_address_text(other_ip);
    let text = identity(name, ip);
    let (a, b) = (ip_text(ip), ip_text(other_ip));
    assert("|"@ =~= seq!['|']);
    assert(text =~= name + seq!['|'] + a);
    assert(text =~= other_name + seq!['|'] + b);
    assert(text[name.len() as int] == '|');
    assert(text[other_name.len() as int] == '|');
    if name.len() < other_name.len() {
        assert(text[other_name.len() as int] == a[other_name.len() - name.len() - 1]);
    }
    if other_name.len() < name.len() {
        assert(text[name.len() as int] == b[name.len() - other_name.len() - 1]);
    }
    assert(name =~= text.take(name.len() as int));
    assert(other_name =~= text.take(name.len() as int));
    assert(a =~= text.skip(name.len() as int + 1));
    assert(b =~= text.skip(name.len() as int + 1));
    law_address_text_is_unambiguous(ip, other_ip);
}

proof fn lemma_address_text(ip: IpAddr)
    ensures
        lacks(ip_text(ip), '|'),
        lacks(ip_text(ip), '/'),
{
    match ip {
        IpAddr::V4(v4) => lemma_ipv4_text(v4),
        IpAddr::V6(v6) => lemma_ipv6_round_trip(v6),
    }
    let text = ip_text(ip);
    assert(plain(text));
    assert forall|i: int| 0 <= i < text.len() implies #[trigger] text[i] != '|' && text[i]
        != '/' by {
        assert(is_hex_digit(text[i]) || text[i] == ':' || text[i] == '.');
    }
}

/// A number in decimal is read as that number.
proof fn lemma_decimal(n: nat)
    ensures
        all_digits(decimal(n)),
        decimal(n).len() > 0,
        digits_value(decimal(n), 10) == n,
    decreases n,
{
    let text = decimal(n);
    if n < 10 {
        assert(text.drop_last() =~= Seq::empty());
        assert(digits_value(text.drop_last(), 10) == 0);
    } else {
        lemma_decimal(n / 10);
        assert(text.drop_last() =~= decimal(n / 10));
        assert forall|i: int| 0 <= i < text.len() implies is_digit(#[trigger] text[i]) by {
            if i < text.len() - 1 {
                assert(text[i] == decimal(n / 10)[i]);
            }
        }
    }
}

/// A character stands last where it does not stand behind.
proof fn lemma_last_place(front: Seq<char>, ch: char, back: Seq<char>)
    requires
        lacks(back, ch),
    ensures
        last_place(front + seq![ch] + back, ch) == Some(front.len() as int),
    decreases back.len(),
{
    let text = front + seq![ch] + back;
    if back.len() == 0 {
        assert(text.last() == ch);
    } else {
        assert(back[back.len() - 1] != ch);
        assert(text.drop_last() =~= front + seq![ch] + back.drop_last());
        assert(lacks(back.drop_last(), ch)) by {
            assert forall|i: int| 0 <= i < back.len() - 1 implies #[trigger] back.drop_last()[i]
                != ch by {
                assert(back[i] != ch);
            }
        }
        lemma_last_place(front, ch, back.drop_last());
    }
}

proof fn lemma_no_place(text: Seq<char>, ch: char)
    requires
        lacks(text, ch),
    ensures
        last_place(text, ch) is None,
    decreases text.len(),
{
    if text.len() > 0 {
        assert(text[text.len() - 1] != ch);
        assert(lacks(text.drop_last(), ch)) by {
            assert forall|i: int| 0 <= i < text.len() - 1 implies #[trigger] text.drop_last()[i]
                != ch by {
                assert(text[i] != ch);
            }
        }
        lemma_no_place(text.drop_last(), ch);
    }
}

/// An egress argument names the address and the weight that it is made of: an address alone has
/// the weight one, and so has one with the weight zero.
pub proof fn law_egress_argument(ip: IpAddr, weight: u16)
    ensures
        parsed_egress(ip_text(ip)) == Ok::<(IpAddr, u16), EgressFault>((ip, 1)),
        parsed_egress(ip_text(ip) + seq!['/'] + decimal(weight as nat)) == Ok::<
            (IpAddr, u16),
            EgressFault,
        >(
            (
                ip,
                if weight == 0 {
                    1
                } else {
                    weight
                },
            ),
        ),
{
    let address = ip_text(ip);
    let number = decimal(weight as nat);
    let text = address + seq!['/'] + number;
    law_address_round_trip(ip);
    lemma_address_text(ip);
    lemma_no_place(address, '/');
    lemma_decimal(weight as nat);
    assert(lacks(number, '/')) by {
        assert forall|i: int| 0 <= i < number.len() implies #[trigger] number[i] != '/' by {
            assert(is_digit(number[i]));
        }
    }
    lemma_last_place(address, '/', number);
    assert(text.take(address.len() as int) =~= address);
    assert(text.skip(address.len() as int + 1) =~= number);
    assert(is_digit(number[0]));
    assert(parsed_u16(number) == Some(weight));
}

/// Where a text is cut at the first occurrence of a character does not depend on how it was made.
proof fn lemma_cut(
    front: Seq<char>,
    back: Seq<char>,
    other_front: Seq<char>,
    other_back: Seq<char>,
    ch: char,
)
    requires
        front + seq![ch] + back == other_front + seq![ch] + other_back,
        lacks(front, ch),
        lacks(other_front, ch),
    ensures
        front == other_front,
        back == other_back,
{
    let text = front + seq![ch] + back;
    assert(text[front.len() as int] == ch);
    assert(text[other_front.len() as int] == ch);
    if front.len() < other_front.len() {
        assert(text[front.len() as int] == other_front[front.len() as int]);
    }
    if other_front.len() < front.len() {
        assert(text[other_front.len() as int] == front[other_front.len() as int]);
    }
    assert(front =~= text.take(front.len() as int));
    assert(other_front =~= text.take(front.len() as int));
    assert(back =~= text.skip(front.len() as int + 1));
    assert(other_back =~= text.skip(front.len() as int + 1));
}

/// A number in decimal holds nothing but digits, and different numbers are written differently.
proof fn lemma_decimal_is_unambiguous(n: nat, other: nat)
    ensures
        lacks(decimal(n), '/'),
        lacks(decimal(n), ':'),
        lacks(decimal(n), ']'),
        decimal(n) == decimal(other) ==> n == other,
{
    lemma_decimal(n);
    lemma_decimal(other);
    let text = decimal(n);
    assert forall|i: int| 0 <= i < text.len() implies #[trigger] text[i] != '/' && text[i] != ':'
        && text[i] != ']' by {
        assert(is_digit(text[i]));
    }
}

/// What stands in the brackets of an endpoint of version 6: the address, and the scope if there
/// is one.
spec fn bracketed(ip: Ipv6Addr, scope_id: u32) -> Seq<char> {
    if scope_id == 0 {
        ipv6_text(ip)
    } else {
        ipv6_text(ip) + seq!['%'] + decimal(scope_id as nat)
    }
}

proof fn lemma_bracketed(ip: Ipv6Addr, scope_id: u32, other_ip: Ipv6Addr, other_scope_id: u32)
    ensures
        lacks(bracketed(ip, scope_id), ']'),
        bracketed(ip, scope_id) == bracketed(other_ip, other_scope_id) ==> ip == other_ip
            && scope_id == other_scope_id,
{
    let (a, b) = (ipv6_text(ip), ipv6_text(other_ip));
    lemma_ipv6_round_trip(ip);
    lemma_ipv6_round_trip(other_ip);
    lemma_decimal_is_unambiguous(scope_id as nat, other_scope_id as nat);
    assert(plain(a) && plain(b));
    let text = bracketed(ip, scope_id);
    assert forall|i: int| 0 <= i < text.len() implies #[trigger] text[i] != ']' by {
        if i < a.len() {
            assert(text[i] == a[i]);
        } else if i > a.len() {
            assert(text[i] == decimal(scope_id as nat)[i - a.len() - 1]);
        }
    }
    assert(lacks(a, '%')) by {
        assert forall|i: int| 0 <= i < a.len() implies #[trigger] a[i] != '%' by {
            assert(is_hex_digit(a[i]) || a[i] == ':' || a[i] == '.');
        }
    }
    assert(lacks(b, '%')) by {
        assert forall|i: int| 0 <= i < b.len() implies #[trigger] b[i] != '%' by {
            assert(is_hex_digit(b[i]) || b[i] == ':' || b[i] == '.');
        }
    }
    if text == bracketed(other_ip, other_scope_id) {
        if scope_id != 0 && other_scope_id != 0 {
            lemma_cut(a, decimal(scope_id as nat), b, decimal(other_scope_id as nat), '%');
        } else if scope_id != 0 {
            assert(text[a.len() as int] == '%');
            assert(b[a.len() as int] == '%');
        } else if other_scope_id != 0 {
            assert(text[b.len() as int] == '%');
            assert(a[b.len() as int] == '%');
        }
    }
}

/// Whether two endpoints have the same family, address, port and scope.
pub open spec fn same_endpoint(left: SocketAddr, right: SocketAddr) -> bool {
    match (left, right) {
        (SocketAddr::V4(a), SocketAddr::V4(b)) => a == b,
        (SocketAddr::V6(a), SocketAddr::V6(b)) => a.ip == b.ip && a.port == b.port && a.scope_id
            == b.scope_id,
        _ => false,
    }
}

/// Endpoints are written the same only if they have the same address, port and scope; the flow
/// label is not written.
pub proof fn law_endpoint_text_is_unambiguous(left: SocketAddr, right: SocketAddr)
    requires
        socket_text(left) == socket_text(right),
    ensures
        same_endpoint(left, right),
{
    let text = socket_text(left);
    match (left, right) {
        (SocketAddr::V4(a), SocketAddr::V4(b)) => {
            lemma_ipv4_text(a.ip);
            lemma_ipv4_text(b.ip);
            lemma_cut(
                ipv4_text(a.ip),
                decimal(a.port as nat),
                ipv4_text(b.ip),
                decimal(b.port as nat),
                ':',
            );
            law_address_text_is_unambiguous(IpAddr::V4(a.ip), IpAddr::V4(b.ip));
            lemma_decimal_is_unambiguous(a.port as nat, b.port as nat);
        },
        (SocketAddr::V6(a), SocketAddr::V6(b)) => {
            let (inner, other) = (bracketed(a.ip, a.scope_id), bracketed(b.ip, b.scope_id));
            let (port, other_port) = (decimal(a.port as nat), decimal(b.port as nat));
            lemma_bracketed(a.ip, a.scope_id, b.ip, b.scope_id);
            lemma_bracketed(b.ip, b.scope_id, a.ip, a.scope_id);
            assert(text =~= seq!['['] + (inner + seq![']'] + (seq![':'] + port)));
            assert(text =~= seq!['['] + (other + seq![']'] + (seq![':'] + other_port)));
            assert(text.skip(1) =~= inner + seq![']'] + (seq![':'] + port));
            assert(text.skip(1) =~= other + seq![']'] + (seq![':'] + other_port));
            lemma_cut(inner, seq![':'] + port, other, seq![':'] + other_port, ']');
            assert((seq![':'] + port).skip(1) =~= port);
            assert((seq![':'] + other_port).skip(1) =~= other_port);
            lemma_decimal_is_unambiguous(a.port as nat, b.port as nat);
        },
        (SocketAddr::V4(a), SocketAddr::V6(_)) => lemma_first_character(a.ip, a.port),
        (SocketAddr::V6(_), SocketAddr::V4(b)) => lemma_first_character(b.ip, b.port),
    }
}

/// The text of an endpoint of version 4 does not start with a bracket.
proof fn lemma_first_character(ip: Ipv4Addr, port: u16)
    ensures
        (ipv4_text(ip) + seq![':'] + decimal(port as nat)).len() > 0,
        (ipv4_text(ip) + seq![':'] + decimal(port as nat))[0] != '[',
{
    lemma_ipv4_text(ip);
    let text = ipv4_text(ip);
    if text.len() > 0 {
        assert(is_hex_digit(text[0]) || text[0] == ':' || text[0] == '.');
    }
}

/// Connections are told apart by their identities: flows of datagrams have the same identity only
/// if they belong to the same client and lead to the same endpoint, and no flow has the identity
/// of a connection that a client made.
pub proof fn law_connection_identity_is_unambiguous(
    id: u64,
    remote: SocketAddr,
    other_id: u64,
    other_remote: SocketAddr,
)
    ensures
        flow_id(id, remote) == flow_id(other_id, other_remote) ==> id == other_id
            && same_endpoint(remote, other_remote),
        decimal(id as nat) == decimal(other_id as nat) ==> id == other_id,
        decimal(id as nat) != flow_id(other_id, other_remote),
{
    reveal_strlit("/udp/");
    let slash = "/udp/"@.skip(1);
    let (a, b) = (decimal(id as nat), decimal(other_id as nat));
    let (left, right) = (flow_id(id, remote), flow_id(other_id, other_remote));
    lemma_decimal_is_unambiguous(id as nat, other_id as nat);
    lemma_decimal_is_unambiguous(other_id as nat, id as nat);
    assert("/udp/"@ =~= seq!['/'] + slash);
    assert(left =~= a + seq!['/'] + (slash + socket_text(remote)));
    assert(right =~= b + seq!['/'] + (slash + socket_text(other_remote)));
    if left == right {
        lemma_cut(a, slash + socket_text(remote), b, slash + socket_text(other_remote), '/');
        assert((slash + socket_text(remote)).skip(4) =~= socket_text(remote));
        assert((slash + socket_text(other_remote)).skip(4) =~= socket_text(other_remote));
        law_endpoint_text_is_unambiguous(remote, other_remote);
    }
    if a == right {
        assert(right[b.len() as int] == '/');
        assert(a[b.len() as int] == '/');
    }
}

} // verus!
