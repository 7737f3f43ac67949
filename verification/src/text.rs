//! Text helpers: characters, decimal and hexadecimal numbers, trimming, splitting and joining.

use vstd::prelude::*;

verus! {

/// `String::push`: the character is appended to the text.
pub assume_specification[ String::push ](text: &mut String, ch: char)
    ensures
        final(text)@ == old(text)@.push(ch),
;

/// The characters of `text`, in order.
pub fn chars_of(text: &str) -> (out: Vec<char>)
    ensures
        out@ == text@,
{
    let mut out: Vec<char> = Vec::new();
    for ch in it: text.chars()
        invariant
            out@ == it.seq().take(it.index()),
            it.seq() == text@,
    {
        out.push(ch);
    }
    out
}

/// The text made of `chars`, in order.
pub fn string_of(chars: &[char]) -> (out: String)
    ensures
        out@ == chars@,
{
    let mut out: String = String::new();
    push_chars(&mut out, chars);
    out
}

/// Appends `chars` to `out`.
pub fn push_chars(out: &mut String, chars: &[char])
    ensures
        final(out)@ == old(out)@ + chars@,
{
    let ghost before = out@;
    let mut i: usize = 0;
    while i < chars.len()
        invariant
            i <= chars@.len(),
            out@ == before + chars@.take(i as int),
        decreases chars@.len() - i,
    {
        out.push(chars[i]);
        i += 1;
    }
    assert(chars@.take(i as int) =~= chars@);
}

/// A copy of `source[from..to]`.
pub fn copy_range(source: &[char], from: usize, to: usize) -> (out: Vec<char>)
    requires
        from <= to <= source@.len(),
    ensures
        out@ == source@.subrange(from as int, to as int),
{
    let mut out: Vec<char> = Vec::new();
    let mut i: usize = from;
    while i < to
        invariant
            from <= i <= to <= source@.len(),
            out@ == source@.subrange(from as int, i as int),
        decreases to - i,
    {
        out.push(source[i]);
        i += 1;
    }
    out
}

/// The texts of a list of strings.
pub open spec fn texts(list: Seq<String>) -> Seq<Seq<char>> {
    list.map_values(|item: String| item@)
}

/// Appending to a list of strings appends to its texts.
pub proof fn lemma_texts_push(list: Seq<String>, item: String)
    ensures
        texts(list.push(item)) == texts(list).push(item@),
{
    assert(texts(list.push(item)) =~= texts(list).push(item@));
}

/// The texts of a list of character vectors.
pub open spec fn char_texts(list: Seq<Vec<char>>) -> Seq<Seq<char>> {
    list.map_values(|item: Vec<char>| item@)
}

/// The texts of a list of string slices.
pub open spec fn str_texts(list: Seq<&'static str>) -> Seq<Seq<char>> {
    list.map_values(|item: &'static str| item@)
}

// ---------------------------------------------------------------------
// Numbers
// ---------------------------------------------------------------------

/// The decimal digit for `d`, for `d` below ten.
pub open spec fn digit_char(d: int) -> char {
    (('0' as u32) + d) as char
}

/// `n` in decimal, without leading zeros.
pub open spec fn decimal(n: nat) -> Seq<char>
    decreases n,
{
    if n < 10 {
        seq![digit_char(n as int)]
    } else {
        decimal(n / 10).push(digit_char((n % 10) as int))
    }
}

/// `count` zeros.
pub open spec fn zeros(count: nat) -> Seq<char> {
    Seq::new(count, |i: int| '0')
}

/// `n` in decimal, filled with zeros on the left up to `width` characters.
pub open spec fn padded_decimal(n: nat, width: nat) -> Seq<char> {
    let digits = decimal(n);
    if digits.len() < width {
        zeros((width - digits.len()) as nat) + digits
    } else {
        digits
    }
}

/// The lower-case hexadecimal digit for `d`, for `d` below sixteen.
pub open spec fn hex_char(d: int) -> char {
    if d < 10 {
        (('0' as u32) + d) as char
    } else {
        (('a' as u32) + (d - 10)) as char
    }
}

/// `n` in lower-case hexadecimal, without leading zeros.
pub open spec fn hexadecimal(n: nat) -> Seq<char>
    decreases n,
{
    if n < 16 {
        seq![hex_char(n as int)]
    } else {
        hexadecimal(n / 16).push(hex_char((n % 16) as int))
    }
}

fn digit(d: u8) -> (ch: char)
    requires
        d < 10,
    ensures
        ch == digit_char(d as int),
{
    (48u8 + d) as char
}

fn hex_digit(d: u8) -> (ch: char)
    requires
        d < 16,
    ensures
        ch == hex_char(d as int),
{
    if d < 10 {
        (48u8 + d) as char
    } else {
        (87u8 + d) as char
    }
}

/// Appends `n` in decimal.
pub fn push_decimal(out: &mut String, n: u64)
    ensures
        final(out)@ == old(out)@ + decimal(n as nat),
    decreases n,
{
    if n < 10 {
        out.push(digit(n as u8));
    } else {
        push_decimal(out, n / 10);
        out.push(digit((n % 10) as u8));
    }
}

/// `n` in decimal.
pub fn decimal_text(n: u64) -> (out: String)
    ensures
        out@ == decimal(n as nat),
{
    let mut out: String = String::new();
    push_decimal(&mut out, n);
    out
}

/// Appends `n` in decimal, filled with zeros on the left up to `width` characters.
pub fn push_padded(out: &mut String, n: u64, width: usize)
    ensures
        final(out)@ == old(out)@ + padded_decimal(n as nat, width as nat),
{
    let digits: Vec<char> = chars_of(decimal_text(n).as_str());
    let ghost before = out@;
    let mut filled: usize = digits.len();
    while filled < width
        invariant
            digits@.len() <= filled,
            filled <= width || filled == digits@.len(),
            out@ == before + zeros((filled - digits@.len()) as nat),
        decreases width - filled,
    {
        out.push('0');
        filled += 1;
    }
    push_chars(out, digits.as_slice());
}

/// Appends `n` in lower-case hexadecimal.
pub fn push_hexadecimal(out: &mut String, n: u16)
    ensures
        final(out)@ == old(out)@ + hexadecimal(n as nat),
    decreases n,
{
    if n < 16 {
        out.push(hex_digit(n as u8));
    } else {
        push_hexadecimal(out, n / 16);
        out.push(hex_digit((n % 16) as u8));
    }
}

/// Whether `ch` is one of the ten decimal digits.
pub open spec fn is_digit(ch: char) -> bool {
    '0' <= ch <= '9'
}

/// Whether `ch` is a hexadecimal digit, in either case.
pub open spec fn is_hex_digit(ch: char) -> bool {
    '0' <= ch <= '9' || 'a' <= ch <= 'f' || 'A' <= ch <= 'F'
}

/// What a digit in base ten or sixteen stands for.
pub open spec fn digit_value(ch: char) -> nat {
    if '0' <= ch <= '9' {
        (ch as u32 - '0' as u32) as nat
    } else if 'a' <= ch <= 'f' {
        (ch as u32 - 'a' as u32 + 10) as nat
    } else {
        (ch as u32 - 'A' as u32 + 10) as nat
    }
}

/// The number that a row of digits in `base` stands for, the first digit weighing most.
pub open spec fn digits_value(digits: Seq<char>, base: nat) -> nat
    decreases digits.len(),
{
    if digits.len() == 0 {
        0
    } else {
        digits_value(digits.drop_last(), base) * base + digit_value(digits.last())
    }
}

pub open spec fn all_digits(text: Seq<char>) -> bool {
    forall|i: int| 0 <= i < text.len() ==> is_digit(#[trigger] text[i])
}

pub open spec fn all_hex_digits(text: Seq<char>) -> bool {
    forall|i: int| 0 <= i < text.len() ==> is_hex_digit(#[trigger] text[i])
}

/// The 16-bit number that `text` writes: an optional plus sign and at least one digit.
pub open spec fn parsed_u16(text: Seq<char>) -> Option<u16> {
    let body = if text.len() > 0 && text[0] == '+' {
        text.drop_first()
    } else {
        text
    };
    if body.len() > 0 && all_digits(body) && digits_value(body, 10) <= 0xffff {
        Some(digits_value(body, 10) as u16)
    } else {
        None
    }
}

fn digit_of(ch: char) -> (value: u8)
    requires
        is_hex_digit(ch),
    ensures
        value == digit_value(ch),
        value < 16,
{
    if ch <= '9' {
        (ch as u32 - 48) as u8
    } else if ch >= 'a' {
        (ch as u32 - 87) as u8
    } else {
        (ch as u32 - 55) as u8
    }
}

/// Reads a 16-bit number: an optional plus sign and at least one digit.
pub fn parse_u16(text: &str) -> (value: Option<u16>)
    ensures
        value == parsed_u16(text@),
{
    let chars: Vec<char> = chars_of(text);
    let start: usize = if chars.len() > 0 && chars[0] == '+' {
        1
    } else {
        0
    };
    let ghost body = chars@.subrange(start as int, chars@.len() as int);
    assert(start == 0 ==> body =~= text@);
    assert(start == 1 ==> body =~= text@.drop_first());
    if start == chars.len() {
        return None;
    }
    let mut acc: u32 = 0;
    let mut i: usize = start;
    while i < chars.len()
        invariant
            start <= i <= chars@.len(),
            body == chars@.subrange(start as int, chars@.len() as int),
            body == (if text@.len() > 0 && text@[0] == '+' {
                text@.drop_first()
            } else {
                text@
            }),
            all_digits(body.take(i - start)),
            acc <= 0x1_0000,
            acc < 0x1_0000 ==> acc == digits_value(body.take(i - start), 10),
            acc == 0x1_0000 ==> digits_value(body.take(i - start), 10) >= 0x1_0000,
        decreases chars@.len() - i,
    {
        let ch = chars[i];
        assert(body[i - start] == ch);
        if !('0' <= ch && ch <= '9') {
            return None;
        }
        let next: u32 = acc * 10 + digit_of(ch) as u32;
        proof {
            let longer = body.take(i + 1 - start);
            assert(longer.drop_last() =~= body.take(i - start));
            assert(longer.last() == ch);
        }
        acc = if next > 0xffff {
            0x1_0000
        } else {
            next
        };
        i += 1;
    }
    assert(body.take(i - start) =~= body);
    if acc > 0xffff {
        None
    } else {
        Some(acc as u16)
    }
}

/// Why a text is not a 16-bit number.
#[derive(Debug, Clone, Copy, PartialEq, Eq, Structural)]
pub enum NumberFault {
    Empty,
    InvalidDigit,
    TooLarge,
}

impl NumberFault {
    pub open spec fn words(self) -> Seq<char> {
        match self {
            NumberFault::Empty => "cannot parse integer from empty string"@,
            NumberFault::InvalidDigit => "invalid digit found in string"@,
            NumberFault::TooLarge => "number too large to fit in target type"@,
        }
    }

    pub fn message(self) -> (message: &'static str)
        ensures
            message@ == self.words(),
    {
        match self {
            NumberFault::Empty => "cannot parse integer from empty string",
            NumberFault::InvalidDigit => "invalid digit found in string",
            NumberFault::TooLarge => "number too large to fit in target type",
        }
    }
}

/// The first fault from `at` on in a row of digits, the number before it being `value`: a
/// character that is no digit, or a digit that makes the number too large.
pub open spec fn first_fault(body: Seq<char>, at: int, value: nat) -> Option<NumberFault>
    decreases body.len() - at,
{
    if at < 0 || at >= body.len() {
        None
    } else if !is_digit(body[at]) {
        Some(NumberFault::InvalidDigit)
    } else if value * 10 + digit_value(body[at]) > 0xffff {
        Some(NumberFault::TooLarge)
    } else {
        first_fault(body, at + 1, value * 10 + digit_value(body[at]))
    }
}

/// Why `text` is not a 16-bit number, if it is none. A plus sign may stand in front.
pub open spec fn number_fault(text: Seq<char>) -> Option<NumberFault> {
    if text.len() == 0 {
        Some(NumberFault::Empty)
    } else if text[0] == '+' && text.len() > 1 {
        first_fault(text.drop_first(), 0, 0)
    } else {
        first_fault(text, 0, 0)
    }
}

/// A number is at least as large as what its first digits write.
proof fn lemma_value_grows(digits: Seq<char>, count: int)
    requires
        0 <= count <= digits.len(),
    ensures
        digits_value(digits.take(count), 10) <= digits_value(digits, 10),
    decreases digits.len(),
{
    if count == digits.len() {
        assert(digits.take(count) =~= digits);
    } else {
        lemma_value_grows(digits.drop_last(), count);
        assert(digits.drop_last().take(count) =~= digits.take(count));
    }
}

/// A row of digits has no fault exactly where it writes a number that is not too large.
proof fn lemma_first_fault(body: Seq<char>, at: int, value: nat)
    requires
        0 <= at <= body.len(),
        value == digits_value(body.take(at), 10),
        value <= 0xffff,
        all_digits(body.take(at)),
    ensures
        first_fault(body, at, value) is None <==> all_digits(body) && digits_value(body, 10)
            <= 0xffff,
    decreases body.len() - at,
{
    if at == body.len() {
        assert(body.take(at) =~= body);
    } else if is_digit(body[at]) {
        let longer = body.take(at + 1);
        let next = value * 10 + digit_value(body[at]);
        assert(longer.drop_last() =~= body.take(at));
        assert(longer.last() == body[at]);
        assert(digits_value(longer, 10) == next);
        if next > 0xffff {
            lemma_value_grows(body, at + 1);
        } else {
            assert(all_digits(longer)) by {
                assert forall|i: int| 0 <= i < longer.len() implies is_digit(
                    #[trigger] longer[i],
                ) by {
                    if i < at {
                        assert(body.take(at)[i] == longer[i]);
                    }
                }
            }
            lemma_first_fault(body, at + 1, next as nat);
        }
    }
}

/// A text has a fault exactly where it does not write a 16-bit number.
pub proof fn law_fault_or_number(text: Seq<char>)
    ensures
        number_fault(text) is None <==> parsed_u16(text) is Some,
{
    if text.len() > 0 {
        let body = if text[0] == '+' && text.len() > 1 {
            text.drop_first()
        } else {
            text
        };
        assert(body.take(0) =~= Seq::empty());
        lemma_first_fault(body, 0, 0);
        if text[0] == '+' && text.len() == 1 {
            assert(!is_digit(body[0]));
        }
    }
}

/// Why `text` is not a 16-bit number, if it is none.
pub fn u16_fault(text: &str) -> (fault: Option<NumberFault>)
    ensures
        fault == number_fault(text@),
        fault is None <==> parsed_u16(text@) is Some,
{
    proof {
        law_fault_or_number(text@);
    }
    let chars: Vec<char> = chars_of(text);
    if chars.len() == 0 {
        return Some(NumberFault::Empty);
    }
    let start: usize = if chars[0] == '+' && chars.len() > 1 {
        1
    } else {
        0
    };
    let ghost body = chars@.skip(start as int);
    assert(start == 0 ==> body =~= text@);
    assert(start == 1 ==> body =~= text@.drop_first());
    let mut value: u32 = 0;
    let mut i: usize = start;
    while i < chars.len()
        invariant
            start <= i <= chars@.len(),
            body == chars@.skip(start as int),
            value <= 0xffff,
            number_fault(text@) == first_fault(body, i - start, value as nat),
            number_fault(text@) is None <==> parsed_u16(text@) is Some,
        decreases chars@.len() - i,
    {
        let ch = chars[i];
        assert(body[i - start] == ch);
        if !('0' <= ch && ch <= '9') {
            return Some(NumberFault::InvalidDigit);
        }
        let next: u32 = value * 10 + digit_of(ch) as u32;
        if next > 0xffff {
            return Some(NumberFault::TooLarge);
        }
        value = next;
        i += 1;
    }
    None
}

/// The number that up to four digits in base ten or sixteen write.
pub fn parse_digits(chars: &[char], base: u32) -> (value: Option<u32>)
    requires
        chars@.len() <= 4,
        base == 10 || base == 16,
    ensures
        value is Some <==> (if base == 10 {
            all_digits(chars@)
        } else {
            all_hex_digits(chars@)
        }),
        value is Some ==> value->0 == digits_value(chars@, base as nat) && value->0 <= 0xffff,
{
    let mut acc: u32 = 0;
    let mut i: usize = 0;
    while i < chars.len()
        invariant
            i <= chars@.len() <= 4,
            base == 10 || base == 16,
            base == 10 ==> all_digits(chars@.take(i as int)),
            base == 16 ==> all_hex_digits(chars@.take(i as int)),
            acc == digits_value(chars@.take(i as int), base as nat),
            i == 0 ==> acc == 0,
            i == 1 ==> acc < 0x10,
            i == 2 ==> acc < 0x100,
            i == 3 ==> acc < 0x1000,
            i == 4 ==> acc < 0x1_0000,
        decreases chars@.len() - i,
    {
        let ch = chars[i];
        let decimal_digit: bool = '0' <= ch && ch <= '9';
        let letter: bool = ('a' <= ch && ch <= 'f') || ('A' <= ch && ch <= 'F');
        if !(decimal_digit || (base == 16 && letter)) {
            return None;
        }
        proof {
            let longer = chars@.take(i + 1);
            assert(longer.drop_last() =~= chars@.take(i as int));
            assert(longer.last() == ch);
        }
        acc = if base == 10 {
            acc * 10 + digit_of(ch) as u32
        } else {
            acc * 16 + digit_of(ch) as u32
        };
        i += 1;
    }
    assert(chars@.take(i as int) =~= chars@);
    Some(acc)
}

// ---------------------------------------------------------------------
// White space
// ---------------------------------------------------------------------

/// Whether `ch` has the Unicode property `White_Space`.
pub open spec fn is_space(ch: char) -> bool {
    let code = ch as u32;
    ||| 0x9 <= code <= 0xd
    ||| code == 0x20
    ||| code == 0x85
    ||| code == 0xa0
    ||| code == 0x1680
    ||| 0x2000 <= code <= 0x200a
    ||| code == 0x2028
    ||| code == 0x2029
    ||| code == 0x202f
    ||| code == 0x205f
    ||| code == 0x3000
}

/// Whether `ch` is white space.
pub fn is_whitespace(ch: char) -> (space: bool)
    ensures
        space == is_space(ch),
{
    let code: u32 = ch as u32;
    (0x9 <= code && code <= 0xd) || code == 0x20 || code == 0x85 || code == 0xa0 || code == 0x1680
        || (0x2000 <= code && code <= 0x200a) || code == 0x2028 || code == 0x2029 || code == 0x202f
        || code == 0x205f || code == 0x3000
}

/// `text` without the white space it starts with.
pub open spec fn trimmed_start(text: Seq<char>) -> Seq<char>
    decreases text.len(),
{
    if text.len() > 0 && is_space(text[0]) {
        trimmed_start(text.drop_first())
    } else {
        text
    }
}

/// `text` without the white space it ends with.
pub open spec fn trimmed_end(text: Seq<char>) -> Seq<char>
    decreases text.len(),
{
    if text.len() > 0 && is_space(text.last()) {
        trimmed_end(text.drop_last())
    } else {
        text
    }
}

/// `text` without the white space around it.
pub open spec fn trimmed(text: Seq<char>) -> Seq<char> {
    trimmed_end(trimmed_start(text))
}

/// Removes the white space around `chars`.
pub fn trim_chars(chars: &[char]) -> (out: Vec<char>)
    ensures
        out@ == trimmed(chars@),
{
    let mut from: usize = 0;
    assert(chars@.skip(0) =~= chars@);
    while from < chars.len() && is_whitespace(chars[from])
        invariant
            from <= chars@.len(),
            trimmed_start(chars@) == trimmed_start(chars@.skip(from as int)),
        decreases chars@.len() - from,
    {
        assert(chars@.skip(from as int).drop_first() =~= chars@.skip(from + 1));
        from += 1;
    }
    let ghost rest = chars@.skip(from as int);
    assert(trimmed_start(chars@) == rest);
    let mut to: usize = chars.len();
    assert(chars@.subrange(from as int, to as int) =~= rest);
    while to > from && is_whitespace(chars[to - 1])
        invariant
            from <= to <= chars@.len(),
            trimmed_end(rest) == trimmed_end(chars@.subrange(from as int, to as int)),
        decreases to,
    {
        assert(chars@.subrange(from as int, to as int).drop_last() =~= chars@.subrange(
            from as int,
            to - 1,
        ));
        to -= 1;
    }
    copy_range(chars, from, to)
}

/// Removes the white space around `text`.
pub fn trim(text: &str) -> (out: String)
    ensures
        out@ == trimmed(text@),
{
    let chars: Vec<char> = chars_of(text);
    string_of(trim_chars(chars.as_slice()).as_slice())
}

// ---------------------------------------------------------------------
// Splitting and joining
// ---------------------------------------------------------------------

/// The pieces of `text` between the occurrences of `sep`; one piece where there is none.
pub open spec fn split_on(text: Seq<char>, sep: char) -> Seq<Seq<char>>
    decreases text.len(),
{
    if text.len() == 0 {
        seq![Seq::empty()]
    } else {
        let before = split_on(text.drop_last(), sep);
        if text.last() == sep {
            before.push(Seq::empty())
        } else {
            before.drop_last().push(before.last().push(text.last()))
        }
    }
}

/// `parts` one after the other, with `sep` between neighbours.
pub open spec fn joined(parts: Seq<Seq<char>>, sep: Seq<char>) -> Seq<char>
    decreases parts.len(),
{
    if parts.len() == 0 {
        Seq::empty()
    } else if parts.len() == 1 {
        parts[0]
    } else {
        joined(parts.drop_last(), sep) + sep + parts.last()
    }
}

pub proof fn lemma_split_nonempty(text: Seq<char>, sep: char)
    ensures
        split_on(text, sep).len() >= 1,
    decreases text.len(),
{
    if text.len() > 0 {
        lemma_split_nonempty(text.drop_last(), sep);
    }
}

/// Cuts `chars` at each `sep`.
pub fn split_chars(chars: &[char], sep: char) -> (parts: Vec<Vec<char>>)
    ensures
        char_texts(parts@) == split_on(chars@, sep),
        parts@.len() >= 1,
{
    let mut parts: Vec<Vec<char>> = Vec::new();
    let mut part: Vec<char> = Vec::new();
    let mut i: usize = 0;
    assert(chars@.take(0) =~= Seq::<char>::empty());
    assert(char_texts(parts@).push(part@) =~= split_on(chars@.take(0), sep));
    while i < chars.len()
        invariant
            i <= chars@.len(),
            char_texts(parts@).push(part@) == split_on(chars@.take(i as int), sep),
        decreases chars@.len() - i,
    {
        let ch = chars[i];
        let ghost cut = char_texts(parts@);
        let ghost piece = part@;
        proof {
            let longer = chars@.take(i + 1);
            assert(longer.drop_last() =~= chars@.take(i as int));
            assert(longer.last() == ch);
            assert(cut.push(piece).drop_last() =~= cut);
            assert(cut.push(piece).last() == piece);
        }
        if ch == sep {
            parts.push(part);
            part = Vec::new();
            assert(char_texts(parts@) =~= cut.push(piece));
        } else {
            part.push(ch);
        }
        i += 1;
    }
    let ghost cut = char_texts(parts@);
    let ghost piece = part@;
    parts.push(part);
    assert(char_texts(parts@) =~= cut.push(piece));
    assert(chars@.take(i as int) =~= chars@);
    parts
}

/// Joins `parts` with `sep` between neighbours.
pub fn join(parts: &Vec<String>, sep: &str) -> (out: String)
    ensures
        out@ == joined(texts(parts@), sep@),
{
    let mut out: String = String::new();
    let mut i: usize = 0;
    assert(texts(parts@).take(0) =~= Seq::empty());
    while i < parts.len()
        invariant
            i <= parts@.len(),
            out@ == joined(texts(parts@).take(i as int), sep@),
        decreases parts@.len() - i,
    {
        proof {
            let longer = texts(parts@).take(i + 1);
            assert(longer.drop_last() =~= texts(parts@).take(i as int));
            assert(longer.last() == parts@[i as int]@);
        }
        if i > 0 {
            out.append(sep);
        }
        out.append(parts[i].as_str());
        i += 1;
    }
    assert(texts(parts@).take(i as int) =~= texts(parts@));
    out
}

// ---------------------------------------------------------------------
// Quoting
// ---------------------------------------------------------------------

/// `text` with a backslash before each quotation mark.
pub open spec fn escaped(text: Seq<char>) -> Seq<char>
    decreases text.len(),
{
    if text.len() == 0 {
        Seq::empty()
    } else if text.last() == '"' {
        escaped(text.drop_last()) + seq!['\\', '"']
    } else {
        escaped(text.drop_last()).push(text.last())
    }
}

/// Whether `text` holds a character that is white space.
pub open spec fn has_space(text: Seq<char>) -> bool {
    exists|i: int| 0 <= i < text.len() && is_space(#[trigger] text[i])
}

/// `text` as it is written where arguments stand in a row.
pub open spec fn quoted(text: Seq<char>) -> Seq<char> {
    seq!['"'] + escaped(text) + seq!['"']
}

/// `value` in quotation marks, with those inside it escaped.
pub fn quote(value: &str) -> (out: String)
    ensures
        out@ == quoted(value@),
{
    let chars: Vec<char> = chars_of(value);
    let mut out: String = String::new();
    out.push('"');
    let mut i: usize = 0;
    assert(chars@.take(0) =~= Seq::empty());
    assert(out@ =~= seq!['"'] + escaped(chars@.take(0)));
    while i < chars.len()
        invariant
            i <= chars@.len(),
            out@ == seq!['"'] + escaped(chars@.take(i as int)),
        decreases chars@.len() - i,
    {
        proof {
            assert(chars@.take(i + 1).drop_last() =~= chars@.take(i as int));
            assert(chars@.take(i + 1).last() == chars@[i as int]);
        }
        if chars[i] == '"' {
            out.push('\\');
        }
        out.push(chars[i]);
        i += 1;
        assert(out@ =~= seq!['"'] + escaped(chars@.take(i as int)));
    }
    assert(chars@.take(i as int) =~= chars@);
    out.push('"');
    assert(out@ =~= quoted(value@));
    out
}

/// Whether the two texts hold the same characters.
pub fn same_text(left: &str, right: &str) -> (same: bool)
    ensures
        same == (left@ == right@),
{
    let a: Vec<char> = chars_of(left);
    let b: Vec<char> = chars_of(right);
    if a.len() != b.len() {
        return false;
    }
    let mut i: usize = 0;
    while i < a.len()
        invariant
            i <= a@.len(),
            a@ == left@,
            b@ == right@,
            a@.len() == b@.len(),
            forall|j: int| 0 <= j < i ==> a@[j] == b@[j],
        decreases a@.len() - i,
    {
        if a[i] != b[i] {
            assert(a@[i as int] != b@[i as int]);
            return false;
        }
        i += 1;
    }
    assert(a@ =~= b@);
    true
}

// ---------------------------------------------------------------------
// Order
// ---------------------------------------------------------------------

/// Whether `left` stands before `right` in the order of texts: the first character in which they
/// differ decides, and a text stands before its continuations.
pub open spec fn text_before(left: Seq<char>, right: Seq<char>) -> bool
    decreases left.len(),
{
    if right.len() == 0 {
        false
    } else if left.len() == 0 {
        true
    } else if left[0] != right[0] {
        left[0] < right[0]
    } else {
        text_before(left.drop_first(), right.drop_first())
    }
}

/// The order of texts is total: two texts of which neither stands before the other are the same.
pub proof fn lemma_text_order_total(left: Seq<char>, right: Seq<char>)
    ensures
        text_before(left, right) ==> !text_before(right, left) && left != right,
        !text_before(left, right) && !text_before(right, left) ==> left == right,
    decreases left.len(),
{
    if left.len() > 0 && right.len() > 0 {
        lemma_text_order_total(left.drop_first(), right.drop_first());
        if left[0] == right[0] && left.drop_first() == right.drop_first() {
            assert(left =~= seq![left[0]] + left.drop_first());
            assert(right =~= seq![right[0]] + right.drop_first());
        }
    } else if left.len() == 0 && right.len() == 0 {
        assert(left =~= right);
    }
}

/// The order of texts is transitive.
pub proof fn lemma_text_order_transitive(a: Seq<char>, b: Seq<char>, c: Seq<char>)
    requires
        text_before(a, b),
        text_before(b, c),
    ensures
        text_before(a, c),
    decreases a.len(),
{
    if a.len() > 0 && a[0] == b[0] && b[0] == c[0] {
        lemma_text_order_transitive(a.drop_first(), b.drop_first(), c.drop_first());
    }
}

/// Whether `left` stands before `right` in the order of texts.
pub fn is_text_before(left: &str, right: &str) -> (before: bool)
    ensures
        before == text_before(left@, right@),
{
    let a: Vec<char> = chars_of(left);
    let b: Vec<char> = chars_of(right);
    let mut i: usize = 0;
    assert(a@.skip(0) =~= a@);
    assert(b@.skip(0) =~= b@);
    while i < a.len() && i < b.len() && a[i] == b[i]
        invariant
            i <= a@.len(),
            i <= b@.len(),
            text_before(a@, b@) == text_before(a@.skip(i as int), b@.skip(i as int)),
        decreases a@.len() - i,
    {
        assert(a@.skip(i as int).drop_first() =~= a@.skip(i + 1));
        assert(b@.skip(i as int).drop_first() =~= b@.skip(i + 1));
        i += 1;
    }
    if i == b.len() {
        false
    } else if i == a.len() {
        true
    } else {
        a[i] < b[i]
    }
}

} // verus!
