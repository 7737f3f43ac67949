//! How durations, amounts of data, names and moments are written.

use vstd::prelude::*;
use vstd::arithmetic::power2::pow2;

use crate::text::{
    chars_of, copy_range, decimal, padded_decimal, push_chars, push_decimal, push_padded, string_of,
};

verus! {

// ---------------------------------------------------------------------
// Durations
// ---------------------------------------------------------------------

/// A duration in its two largest parts; below a minute in seconds.
pub open spec fn duration_text(seconds: nat) -> Seq<char> {
    if seconds < 60 {
        decimal(seconds) + "s"@
    } else if seconds < 3_600 {
        decimal(seconds / 60) + "m "@ + decimal(seconds % 60) + "s"@
    } else {
        decimal(seconds / 3_600) + "h "@ + decimal((seconds % 3_600) / 60) + "m"@
    }
}

pub fn format_duration(seconds: u64) -> (text: String)
    ensures
        text@ == duration_text(seconds as nat),
{
    let mut text: String = String::new();
    if seconds < 60 {
        push_decimal(&mut text, seconds);
        text.append("s");
    } else if seconds < 3_600 {
        push_decimal(&mut text, seconds / 60);
        text.append("m ");
        push_decimal(&mut text, seconds % 60);
        text.append("s");
    } else {
        push_decimal(&mut text, seconds / 3_600);
        text.append("h ");
        push_decimal(&mut text, (seconds % 3_600) / 60);
        text.append("m");
    }
    assert(text@ =~= duration_text(seconds as nat));
    text
}

// ---------------------------------------------------------------------
// Amounts of data
// ---------------------------------------------------------------------

/// `n / d` rounded to the nearest integer, and to the even one of two that are equally near.
pub open spec fn rounded(n: nat, d: nat) -> nat {
    let q = n / d;
    let r = n % d;
    if 2 * r < d || (2 * r == d && q % 2 == 0) {
        q
    } else {
        q + 1
    }
}

/// The distance between neighbouring numbers of 53 binary digits around `n`.
pub open spec fn grain(n: nat) -> nat
    decreases n,
{
    if n < 0x20_0000_0000_0000 {
        1
    } else {
        2 * grain(n / 2)
    }
}

/// The number of 53 binary digits that is nearest to `n`: how a double-precision number holds it.
pub open spec fn nearest_double(n: nat) -> nat {
    rounded(n, grain(n)) * grain(n)
}

/// The unit for an amount: its size and its name.
pub open spec fn unit_of(bytes: nat) -> (nat, Seq<char>) {
    if bytes < 0x400 {
        (1, "B"@)
    } else if bytes < 0x10_0000 {
        (0x400, "KiB"@)
    } else if bytes < 0x4000_0000 {
        (0x10_0000, "MiB"@)
    } else {
        (0x4000_0000, "GiB"@)
    }
}

/// An amount in its unit: whole bytes, or with one decimal place.
pub open spec fn bytes_text(bytes: nat) -> Seq<char> {
    let (size, name) = unit_of(bytes);
    if size == 1 {
        decimal(bytes) + " "@ + name
    } else {
        let tenths = rounded(nearest_double(bytes) * 10, size);
        decimal(tenths / 10) + "."@ + decimal(tenths % 10) + " "@ + name
    }
}

fn round_half_even(n: u128, d: u128) -> (q: u128)
    requires
        d > 0,
        n <= 0xffff_ffff_ffff_ffff_ffff_ffff,
        d <= 0xffff_ffff_ffff,
    ensures
        q == rounded(n as nat, d as nat),
        q <= n + 1,
{
    let q: u128 = n / d;
    let r: u128 = n % d;
    assert(q <= n) by (nonlinear_arith)
        requires
            d > 0,
            q == n / d,
    ;
    if 2 * r < d || (2 * r == d && q % 2 == 0) {
        q
    } else {
        q + 1
    }
}

/// The grain of a number that takes at most 64 binary digits.
fn grain_of(n: u64) -> (step: u64)
    ensures
        step == grain(n as nat),
        1 <= step <= 2048,
        n < 0x20_0000_0000_0000 ==> step == 1,
{
    proof {
        reveal_with_fuel(grain, 13);
    }
    if n < 0x20_0000_0000_0000 {
        1
    } else if n < 0x40_0000_0000_0000 {
        2
    } else if n < 0x80_0000_0000_0000 {
        4
    } else if n < 0x100_0000_0000_0000 {
        8
    } else if n < 0x200_0000_0000_0000 {
        16
    } else if n < 0x400_0000_0000_0000 {
        32
    } else if n < 0x800_0000_0000_0000 {
        64
    } else if n < 0x1000_0000_0000_0000 {
        128
    } else if n < 0x2000_0000_0000_0000 {
        256
    } else if n < 0x4000_0000_0000_0000 {
        512
    } else if n < 0x8000_0000_0000_0000 {
        1024
    } else {
        2048
    }
}

pub fn format_bytes(bytes: u64) -> (text: String)
    ensures
        text@ == bytes_text(bytes as nat),
{
    let mut text: String = String::new();
    if bytes < 0x400 {
        push_decimal(&mut text, bytes);
        text.append(" ");
        text.append("B");
        assert(text@ =~= bytes_text(bytes as nat));
        return text;
    }
    let (size, name): (u64, &str) = if bytes < 0x10_0000 {
        (0x400, "KiB")
    } else if bytes < 0x4000_0000 {
        (0x10_0000, "MiB")
    } else {
        (0x4000_0000, "GiB")
    };
    let step: u128 = grain_of(bytes) as u128;
    let count: u128 = round_half_even(bytes as u128, step);
    proof {
        law_rounding_is_nearest(bytes as nat, step as nat);
    }
    let held: u128 = count * step;
    let tenths: u128 = round_half_even(held * 10, size as u128);
    proof {
        lemma_tenths_fit(held as nat, size as nat);
    }
    let tenths: u64 = tenths as u64;
    push_decimal(&mut text, tenths / 10);
    text.append(".");
    push_decimal(&mut text, tenths % 10);
    text.append(" ");
    text.append(name);
    assert(text@ =~= bytes_text(bytes as nat));
    text
}

proof fn lemma_tenths_fit(held: nat, size: nat)
    requires
        held <= 0x1_0000_0000_0000_0000 + 2048,
        size >= 0x400,
    ensures
        rounded(held * 10, size) <= u64::MAX,
{
    let n = held * 10;
    assert(n / size <= n / 0x400) by (nonlinear_arith)
        requires
            size >= 0x400,
            n >= 0,
    ;
}

// ---------------------------------------------------------------------
// Names
// ---------------------------------------------------------------------

/// `text` with its middle left out where it is longer than `max_chars`: its two ends with dots
/// between them.
pub open spec fn middle_trimmed(text: Seq<char>, max_chars: nat) -> Seq<char> {
    if text.len() <= max_chars || max_chars < 5 {
        text
    } else {
        let left = (max_chars - 1) / 2;
        let right = max_chars - 1 - left;
        text.take(left) + "..."@ + text.skip(text.len() - right)
    }
}

pub fn trim_middle(value: &str, max_chars: usize) -> (out: String)
    ensures
        out@ == middle_trimmed(value@, max_chars as nat),
{
    let chars: Vec<char> = chars_of(value);
    let len: usize = chars.len();
    if len <= max_chars || max_chars < 5 {
        return value.to_owned();
    }
    let left_count: usize = (max_chars - 1) / 2;
    let right_count: usize = max_chars - 1 - left_count;
    let left: Vec<char> = copy_range(chars.as_slice(), 0, left_count);
    let right: Vec<char> = copy_range(chars.as_slice(), len - right_count, len);
    assert(left@ =~= chars@.take(left_count as int));
    assert(right@ =~= chars@.skip(len - right_count));
    let mut out: String = string_of(left.as_slice());
    out.append("...");
    push_chars(&mut out, right.as_slice());
    out
}

// ---------------------------------------------------------------------
// Moments
// ---------------------------------------------------------------------

/// A local time as the system gives it.
#[derive(Debug, Clone, Copy, PartialEq, Eq, Structural)]
pub struct LocalTime {
    pub year: u16,
    pub month: u16,
    pub day: u16,
    pub hour: u16,
    pub minute: u16,
    pub second: u16,
    pub milliseconds: u16,
}

/// A local time with its parts filled up with zeros.
pub open spec fn local_time_text(time: LocalTime) -> Seq<char> {
    padded_decimal(time.year as nat, 4) + "-"@ + padded_decimal(time.month as nat, 2) + "-"@
        + padded_decimal(time.day as nat, 2) + " "@ + padded_decimal(time.hour as nat, 2) + ":"@
        + padded_decimal(time.minute as nat, 2) + ":"@ + padded_decimal(time.second as nat, 2)
        + "."@ + padded_decimal(time.milliseconds as nat, 3)
}

pub fn local_timestamp(time: LocalTime) -> (text: String)
    ensures
        text@ == local_time_text(time),
{
    let mut text: String = String::new();
    push_padded(&mut text, time.year as u64, 4);
    text.append("-");
    push_padded(&mut text, time.month as u64, 2);
    text.append("-");
    push_padded(&mut text, time.day as u64, 2);
    text.append(" ");
    push_padded(&mut text, time.hour as u64, 2);
    text.append(":");
    push_padded(&mut text, time.minute as u64, 2);
    text.append(":");
    push_padded(&mut text, time.second as u64, 2);
    text.append(".");
    push_padded(&mut text, time.milliseconds as u64, 3);
    assert(text@ =~= local_time_text(time));
    text
}

/// A time since the epoch in seconds and milliseconds; a time before it is written as zero.
pub open spec fn epoch_text(since: Option<(u64, u32)>) -> Seq<char> {
    match since {
        Some((seconds, millis)) => decimal(seconds as nat) + "."@ + padded_decimal(
            millis as nat,
            3,
        ),
        None => "0.000"@,
    }
}

pub fn epoch_timestamp(since: Option<(u64, u32)>) -> (text: String)
    ensures
        text@ == epoch_text(since),
{
    match since {
        Some((seconds, millis)) => {
            let mut text: String = String::new();
            push_decimal(&mut text, seconds);
            text.append(".");
            push_padded(&mut text, millis as u64, 3);
            assert(text@ =~= epoch_text(since));
            text
        },
        None => "0.000".to_owned(),
    }
}

// ---------------------------------------------------------------------
// Laws
// ---------------------------------------------------------------------

/// Numbers below 2^53 are held exactly, so that only the one decimal place is rounded.
pub proof fn law_small_amounts_are_exact(bytes: nat)
    requires
        bytes < 0x20_0000_0000_0000,
    ensures
        nearest_double(bytes) == bytes,
{
    assert(grain(bytes) == 1);
    assert(bytes % 1 == 0);
    assert(bytes / 1 == bytes);
}

/// A rounded quotient is off by at most one half.
pub proof fn law_rounding_is_nearest(n: nat, d: nat)
    requires
        d > 0,
    ensures
        2 * n <= 2 * (rounded(n, d) * d) + d,
        2 * (rounded(n, d) * d) <= 2 * n + d,
{
    vstd::arithmetic::div_mod::lemma_fundamental_div_mod(n as int, d as int);
    let q = n / d;
    assert(d * q == q * d) by (nonlinear_arith);
    assert((q + 1) * d == q * d + d) by (nonlinear_arith);
}

/// A duration is written in seconds below a minute, in minutes and seconds below an hour, and
/// otherwise in hours and minutes; the parts make up the duration, but for the seconds that hours
/// leave out.
pub proof fn law_parts_of_a_duration(hours: nat, minutes: nat, seconds: nat)
    requires
        minutes < 60,
        seconds < 60,
    ensures
        hours == 0 && minutes == 0 ==> duration_text(seconds) == decimal(seconds) + "s"@,
        hours == 0 && minutes > 0 ==> duration_text(minutes * 60 + seconds) == decimal(minutes)
            + "m "@ + decimal(seconds) + "s"@,
        hours > 0 ==> duration_text(hours * 3600 + minutes * 60 + seconds) == decimal(hours)
            + "h "@ + decimal(minutes) + "m"@,
{
    let total = hours * 3600 + minutes * 60 + seconds;
    assert(total / 3600 == hours);
    assert(total % 3600 == minutes * 60 + seconds);
    assert((minutes * 60 + seconds) / 60 == minutes);
    assert((minutes * 60 + seconds) % 60 == seconds);
}

/// An amount is written in the largest of bytes, KiB, MiB and GiB that it reaches, whole in bytes
/// and otherwise to the nearest tenth.
pub proof fn law_amounts(bytes: nat) -> (tenths: nat)
    requires
        bytes < 0x20_0000_0000_0000,
    ensures
        bytes < 1024 ==> bytes_text(bytes) == decimal(bytes) + " "@ + "B"@,
        1024 <= bytes < 1_048_576 ==> {
            &&& bytes_text(bytes) == decimal(tenths / 10) + "."@ + decimal(tenths % 10) + " "@
                + "KiB"@
            &&& -512 <= tenths * 1024 - bytes * 10 <= 512
        },
        1_048_576 <= bytes < 1_073_741_824 ==> {
            &&& bytes_text(bytes) == decimal(tenths / 10) + "."@ + decimal(tenths % 10) + " "@
                + "MiB"@
            &&& -524_288 <= tenths * 1_048_576 - bytes * 10 <= 524_288
        },
        1_073_741_824 <= bytes ==> {
            &&& bytes_text(bytes) == decimal(tenths / 10) + "."@ + decimal(tenths % 10) + " "@
                + "GiB"@
            &&& -536_870_912 <= tenths * 1_073_741_824 - bytes * 10 <= 536_870_912
        },
{
    law_small_amounts_are_exact(bytes);
    let size = unit_of(bytes).0;
    let tenths = rounded(nearest_double(bytes) * 10, size);
    law_rounding_is_nearest(bytes * 10, 1024);
    law_rounding_is_nearest(bytes * 10, 1_048_576);
    law_rounding_is_nearest(bytes * 10, 1_073_741_824);
    assert(nearest_double(bytes) * 10 == bytes * 10);
    tenths
}

/// A text that is not too long stays as it is; of a longer one both ends stay, with three dots
/// between them, and they are as long as each other or differ by one.
pub proof fn law_ends_stay(text: Seq<char>, max_chars: nat) -> (left: nat)
    ensures
        text.len() <= max_chars || max_chars < 5 ==> middle_trimmed(text, max_chars) == text,
        text.len() > max_chars && max_chars >= 5 ==> {
            let out = middle_trimmed(text, max_chars);
            let right = max_chars - 1 - left;
            &&& left <= right <= left + 1
            &&& out.len() == max_chars + 2
            &&& out.take(left as int) == text.take(left as int)
            &&& out.subrange(left as int, left as int + 3) == seq!['.', '.', '.']
            &&& out.skip(left as int + 3) == text.skip(text.len() - right)
        },
{
    reveal_strlit("...");
    if text.len() > max_chars && max_chars >= 5 {
        let left = ((max_chars - 1) / 2) as nat;
        let right = max_chars - 1 - left;
        let out = middle_trimmed(text, max_chars);
        assert(out.take(left as int) =~= text.take(left as int));
        assert(out.subrange(left as int, left as int + 3) =~= seq!['.', '.', '.']);
        assert(out.skip(left as int + 3) =~= text.skip(text.len() - right));
        left
    } else {
        0
    }
}

/// A local time is written as year, month and day, and then hour, minute, second and millisecond;
/// each part stands at its place.
pub proof fn law_places_of_a_time(time: LocalTime)
    requires
        padded_decimal(time.year as nat, 4).len() == 4,
        padded_decimal(time.month as nat, 2).len() == 2,
        padded_decimal(time.day as nat, 2).len() == 2,
        padded_decimal(time.hour as nat, 2).len() == 2,
        padded_decimal(time.minute as nat, 2).len() == 2,
        padded_decimal(time.second as nat, 2).len() == 2,
        padded_decimal(time.milliseconds as nat, 3).len() == 3,
    ensures
        ({
            let text = local_time_text(time);
            &&& text.len() == 23
            &&& text.subrange(0, 4) == padded_decimal(time.year as nat, 4)
            &&& text[4] == '-'
            &&& text.subrange(5, 7) == padded_decimal(time.month as nat, 2)
            &&& text[7] == '-'
            &&& text.subrange(8, 10) == padded_decimal(time.day as nat, 2)
            &&& text[10] == ' '
            &&& text.subrange(11, 13) == padded_decimal(time.hour as nat, 2)
            &&& text[13] == ':'
            &&& text.subrange(14, 16) == padded_decimal(time.minute as nat, 2)
            &&& text[16] == ':'
            &&& text.subrange(17, 19) == padded_decimal(time.second as nat, 2)
            &&& text[19] == '.'
            &&& text.subrange(20, 23) == padded_decimal(time.milliseconds as nat, 3)
        }),
{
    reveal_strlit("-");
    reveal_strlit(" ");
    reveal_strlit(":");
    reveal_strlit(".");
    let text = local_time_text(time);
    assert(text.subrange(0, 4) =~= padded_decimal(time.year as nat, 4));
    assert(text.subrange(5, 7) =~= padded_decimal(time.month as nat, 2));
    assert(text.subrange(8, 10) =~= padded_decimal(time.day as nat, 2));
    assert(text.subrange(11, 13) =~= padded_decimal(time.hour as nat, 2));
    assert(text.subrange(14, 16) =~= padded_decimal(time.minute as nat, 2));
    assert(text.subrange(17, 19) =~= padded_decimal(time.second as nat, 2));
    assert(text.subrange(20, 23) =~= padded_decimal(time.milliseconds as nat, 3));
}

/// A time since the epoch is written in seconds with the milliseconds behind the point, and a time
/// before it as zero.
pub proof fn law_time_since_the_epoch(seconds: u64, millis: u32)
    ensures
        epoch_text(None) == "0.000"@,
        epoch_text(Some((seconds, millis))).take(decimal(seconds as nat).len() as int) == decimal(
            seconds as nat,
        ),
        epoch_text(Some((seconds, millis)))[decimal(seconds as nat).len() as int] == '.',
        epoch_text(Some((seconds, millis))).skip(decimal(seconds as nat).len() as int + 1)
            == padded_decimal(millis as nat, 3),
{
    reveal_strlit(".");
    let text = epoch_text(Some((seconds, millis)));
    let whole = decimal(seconds as nat);
    assert(text.take(whole.len() as int) =~= whole);
    assert(text.skip(whole.len() as int + 1) =~= padded_decimal(millis as nat, 3));
}

/// A quotient that lies halfway between two integers is rounded to the even one.
pub proof fn law_halves_go_to_the_even_number(q: nat, half: nat)
    requires
        half > 0,
    ensures
        q % 2 == 0 ==> rounded(q * (2 * half) + half, 2 * half) == q,
        q % 2 == 1 ==> rounded(q * (2 * half) + half, 2 * half) == q + 1,
{
    let d = (2 * half) as int;
    let n = q * d + half;
    assert(q * d == d * q) by (nonlinear_arith);
    vstd::arithmetic::div_mod::lemma_fundamental_div_mod_converse(n, d, q as int, half as int);
}

/// The distance between neighbours doubles with each binary digit that a number has too many.
proof fn lemma_grain(n: nat, digits: nat)
    requires
        0x10_0000_0000_0000 * pow2(digits) <= n < 0x20_0000_0000_0000 * pow2(digits),
    ensures
        grain(n) == pow2(digits),
    decreases digits,
{
    vstd::arithmetic::power2::lemma2_to64();
    if digits > 0 {
        let before = (digits - 1) as nat;
        vstd::arithmetic::power2::lemma_pow2_unfold(digits);
        vstd::arithmetic::power2::lemma_pow2_pos(before);
        lemma_grain(n / 2, before);
    }
}

/// An amount that takes more than 53 binary digits is held with so many of them: what is held ends
/// in zeros, as many as the amount has digits too many, and is off by at most half of the place
/// before them.
pub proof fn law_large_amounts_are_held_nearly(n: nat, digits: nat)
    requires
        0x10_0000_0000_0000 * pow2(digits) <= n < 0x20_0000_0000_0000 * pow2(digits),
    ensures
        nearest_double(n) % pow2(digits) == 0,
        2 * n <= 2 * nearest_double(n) + pow2(digits),
        2 * nearest_double(n) <= 2 * n + pow2(digits),
{
    vstd::arithmetic::power2::lemma_pow2_pos(digits);
    lemma_grain(n, digits);
    law_rounding_is_nearest(n, pow2(digits));
    vstd::arithmetic::div_mod::lemma_mod_multiples_basic(
        rounded(n, pow2(digits)) as int,
        pow2(digits) as int,
    );
}

} // verus!
