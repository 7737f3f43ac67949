//! What the helpers for texts do, in terms of the characters alone.

use vstd::prelude::*;

use crate::text::{
    all_digits, decimal, digit_char, digit_value, digits_value, escaped, first_fault, is_digit,
    is_space, joined, law_fault_or_number, number_fault, padded_decimal, parsed_u16, quoted,
    split_on, text_before, trimmed, trimmed_end, trimmed_start, NumberFault,
};

verus! {

// ---------------------------------------------------------------------
// White space
// ---------------------------------------------------------------------

proof fn lemma_start(text: Seq<char>) -> (count: int)
    ensures
        0 <= count <= text.len(),
        trimmed_start(text) == text.skip(count),
        forall|i: int| 0 <= i < count ==> is_space(#[trigger] text[i]),
        count < text.len() ==> !is_space(text[count]),
    decreases text.len(),
{
    if text.len() > 0 && is_space(text[0]) {
        let rest = text.drop_first();
        let count = lemma_start(rest);
        assert(rest.skip(count) =~= text.skip(count + 1));
        assert forall|i: int| 0 <= i < count + 1 implies is_space(#[trigger] text[i]) by {
            if i > 0 {
                assert(rest[i - 1] == text[i]);
            }
        }
        if count < rest.len() {
            assert(rest[count] == text[count + 1]);
        }
        count + 1
    } else {
        assert(text.skip(0) =~= text);
        0
    }
}

proof fn lemma_end(text: Seq<char>) -> (count: int)
    ensures
        0 <= count <= text.len(),
        trimmed_end(text) == text.take(count),
        forall|i: int| count <= i < text.len() ==> is_space(#[trigger] text[i]),
        count > 0 ==> !is_space(text[count - 1]),
    decreases text.len(),
{
    if text.len() > 0 && is_space(text.last()) {
        let rest = text.drop_last();
        let count = lemma_end(rest);
        assert(rest.take(count) =~= text.take(count));
        assert forall|i: int| count <= i < text.len() implies is_space(#[trigger] text[i]) by {
            if i < text.len() - 1 {
                assert(rest[i] == text[i]);
            }
        }
        count
    } else {
        assert(text.take(text.len() as int) =~= text);
        text.len() as int
    }
}

/// Trimming takes off white space at both ends, all of it and nothing else.
pub proof fn law_trimming(text: Seq<char>) -> (cut: (int, int))
    ensures
        0 <= cut.0 <= cut.1 <= text.len(),
        trimmed(text) == text.subrange(cut.0, cut.1),
        forall|i: int| 0 <= i < cut.0 ==> is_space(#[trigger] text[i]),
        forall|i: int| cut.1 <= i < text.len() ==> is_space(#[trigger] text[i]),
        cut.0 < cut.1 ==> !is_space(text[cut.0]) && !is_space(text[cut.1 - 1]),
{
    let from = lemma_start(text);
    let rest = text.skip(from);
    let count = lemma_end(rest);
    let to = from + count;
    assert(rest.take(count) =~= text.subrange(from, to));
    assert forall|i: int| to <= i < text.len() implies is_space(#[trigger] text[i]) by {
        assert(rest[i - from] == text[i]);
    }
    if from < to {
        assert(rest[count - 1] == text[to - 1]);
        assert(rest[0] == text[from]);
    }
    (from, to)
}

/// Blanks, tabs and the ends of lines are white space; letters, digits and the marks that
/// addresses, versions and names are written with are not.
pub proof fn law_white_space(ch: char)
    ensures
        ch == ' ' || ch == '\t' || ch == '\n' || ch == '\r' ==> is_space(ch),
        '!' <= ch <= '~' ==> !is_space(ch),
{
}

// ---------------------------------------------------------------------
// Cutting and joining
// ---------------------------------------------------------------------

/// The parts that a text is cut into make up the text again, and none of them holds the mark at
/// which it was cut.
pub proof fn law_cutting(text: Seq<char>, sep: char)
    ensures
        joined(split_on(text, sep), seq![sep]) == text,
        forall|k: int, i: int|
            0 <= k < split_on(text, sep).len() && 0 <= i < split_on(text, sep)[k].len()
                ==> #[trigger] split_on(text, sep)[k][i] != sep,
        split_on(text, sep).len() >= 1,
    decreases text.len(),
{
    if text.len() > 0 {
        let front = text.drop_last();
        let last = text[text.len() - 1];
        let before = split_on(front, sep);
        let after = split_on(text, sep);
        law_cutting(front, sep);
        assert(text =~= front.push(last));
        if last == sep {
            assert(after.drop_last() =~= before);
            assert(joined(after, seq![sep]) =~= front + seq![sep]);
            assert forall|k: int, i: int|
                0 <= k < after.len() && 0 <= i < after[k].len() implies #[trigger] after[k][i]
                != sep by {
                if k < before.len() {
                    assert(before[k][i] != sep);
                }
            }
        } else {
            assert(after.drop_last() =~= before.drop_last());
            if after.len() == 1 {
                assert(joined(after, seq![sep]) =~= front.push(last));
            } else {
                assert(joined(after, seq![sep]) =~= joined(before, seq![sep]).push(last));
            }
            assert forall|k: int, i: int|
                0 <= k < after.len() && 0 <= i < after[k].len() implies #[trigger] after[k][i]
                != sep by {
                if k < before.len() - 1 {
                    assert(after[k] == before[k]);
                    assert(before[k][i] != sep);
                } else if i < before[k].len() {
                    assert(before[k][i] != sep);
                }
            }
        }
    } else {
        assert(joined(split_on(text, sep), seq![sep]) =~= text);
    }
}

/// A line more behind a text is a part more, if it does not hold the mark itself.
pub proof fn law_one_part_more(text: Seq<char>, sep: char, line: Seq<char>)
    requires
        forall|i: int| 0 <= i < line.len() ==> #[trigger] line[i] != sep,
    ensures
        split_on(text.push(sep) + line, sep) == split_on(text, sep).push(line),
        split_on(line, sep) == seq![line],
    decreases line.len(),
{
    let all = text.push(sep) + line;
    if line.len() == 0 {
        assert(line =~= Seq::empty());
        assert(all =~= text.push(sep));
        assert(all.last() == sep);
        assert(all.drop_last() =~= text);
        assert(split_on(all, sep) =~= split_on(text, sep).push(line));
        assert(split_on(line, sep) =~= seq![line]);
    } else {
        let front = line.drop_last();
        law_one_part_more(text, sep, front);
        assert(all.drop_last() =~= text.push(sep) + front);
        assert(line.last() != sep);
        let before = split_on(all.drop_last(), sep);
        assert(before.drop_last() =~= split_on(text, sep));
        assert(front.push(line.last()) =~= line);
        assert(split_on(all, sep) =~= split_on(text, sep).push(line));
        assert(split_on(line, sep) =~= seq![line]);
    }
}

/// A joined list starts with its first part, and each further part stands behind the mark.
pub proof fn law_joining(parts: Seq<Seq<char>>, part: Seq<char>, sep: Seq<char>)
    ensures
        joined(Seq::empty(), sep).len() == 0,
        joined(seq![part], sep) == part,
        parts.len() > 0 ==> joined(parts.push(part), sep) == joined(parts, sep) + sep + part,
{
    assert(parts.push(part).drop_last() =~= parts);
}

/// In quotation marks every quotation mark gets a backslash, and every other character stays.
pub proof fn law_quoting(text: Seq<char>, ch: char)
    ensures
        quoted(Seq::empty()) == seq!['"', '"'],
        quoted(text.push(ch)) == quoted(text).drop_last() + (if ch == '"' {
            seq!['\\', '"', '"']
        } else {
            seq![ch, '"']
        }),
{
    assert(text.push(ch).drop_last() =~= text);
    assert(quoted(text).drop_last() =~= seq!['"'] + escaped(text));
    assert(quoted(Seq::empty()) =~= seq!['"', '"']);
    assert(quoted(text.push(ch)) =~= quoted(text).drop_last() + (if ch == '"' {
        seq!['\\', '"', '"']
    } else {
        seq![ch, '"']
    }));
}

/// A text stands before another one where the first characters in which they differ say so, or
/// where it is a shorter beginning of the other.
pub proof fn law_order_of_texts(left: Seq<char>, right: Seq<char>, count: int)
    requires
        0 <= count <= left.len(),
        count <= right.len(),
        forall|i: int| 0 <= i < count ==> left[i] == right[i],
    ensures
        count < left.len() && count < right.len() && left[count] < right[count] ==> text_before(
            left,
            right,
        ),
        count < left.len() && count < right.len() && left[count] > right[count] ==> !text_before(
            left,
            right,
        ),
        count == left.len() && count < right.len() ==> text_before(left, right),
        count == right.len() ==> !text_before(left, right),
    decreases count,
{
    if count > 0 {
        assert(left[0] == right[0]);
        assert forall|i: int| 0 <= i < count - 1 implies left.drop_first()[i]
            == right.drop_first()[i] by {
            assert(left[i + 1] == right[i + 1]);
        }
        law_order_of_texts(left.drop_first(), right.drop_first(), count - 1);
    }
}

// ---------------------------------------------------------------------
// Numbers
// ---------------------------------------------------------------------

/// A number is written with the digits of its parts: what stands before the last digit writes a
/// tenth of it.
pub proof fn law_decimal(n: nat, d: nat)
    requires
        d < 10,
    ensures
        n == 0 ==> decimal(d) == seq![(48 + d) as char],
        n > 0 ==> decimal(n * 10 + d) == decimal(n).push((48 + d) as char),
        padded_decimal(d, 2) == seq!['0', (48 + d) as char],
        n > 0 && n < 10 ==> padded_decimal(n * 10 + d, 2) == decimal(n * 10 + d),
{
    if n > 0 {
        assert((n * 10 + d) / 10 == n);
        assert((n * 10 + d) % 10 == d);
    }
    assert(decimal(d) == seq![digit_char(d as int)]);
    assert(padded_decimal(d, 2) =~= seq!['0', (48 + d) as char]);
    if 0 < n < 10 {
        assert(decimal(n) == seq![digit_char(n as int)]);
        assert(decimal(n * 10 + d).len() == 2);
    }
}

/// A digit more makes the number ten times as large and adds the digit, up to the largest number
/// of 16 bits; a single digit is itself, a plus sign in front counts nothing, and no other
/// character may stand in a number.
pub proof fn law_reading_numbers(text: Seq<char>, ch: char)
    ensures
        parsed_u16(Seq::empty()) is None,
        parsed_u16(seq!['+']) is None,
        '0' <= ch <= '9' ==> parsed_u16(seq![ch]) == Some((ch as u32 - 48) as u16),
        text.len() > 0 && text != seq!['+'] && '0' <= ch <= '9' ==> parsed_u16(text.push(ch)) == (
        match parsed_u16(text) {
            Some(value) => if value as int * 10 + (ch as u32 - 48) <= 65_535 {
                Some((value as int * 10 + (ch as u32 - 48)) as u16)
            } else {
                None
            },
            None => None,
        }),
        text.len() > 0 && !('0' <= ch <= '9') ==> parsed_u16(text.push(ch)) is None,
        text.len() > 0 && text[0] != '+' ==> parsed_u16(seq!['+'] + text) == parsed_u16(text),
{
    reveal_with_fuel(digits_value, 2);
    let single = seq![ch];
    assert(single.drop_last() =~= Seq::empty());
    if '0' <= ch <= '9' {
        assert(all_digits(single));
        assert(digits_value(single, 10) == digit_value(ch));
    }
    if text.len() > 0 {
        let longer = text.push(ch);
        let plus = text[0] == '+';
        let body = if plus {
            text.drop_first()
        } else {
            text
        };
        let longer_body = if plus {
            longer.drop_first()
        } else {
            longer
        };
        assert(longer_body =~= body.push(ch));
        assert(longer_body.drop_last() =~= body);
        assert(longer_body.last() == ch);
        assert(longer_body[longer_body.len() - 1] == ch);
        assert(digits_value(longer_body, 10) == digits_value(body, 10) * 10 + digit_value(ch));
        if is_digit(ch) {
            assert(all_digits(longer_body) == all_digits(body)) by {
                if all_digits(longer_body) {
                    assert forall|i: int| 0 <= i < body.len() implies is_digit(
                        #[trigger] body[i],
                    ) by {
                        assert(longer_body[i] == body[i]);
                    }
                }
            }
        }
        if body.len() == 0 {
            assert(text =~= seq!['+']);
        }
        if !plus {
            assert((seq!['+'] + text).drop_first() =~= text);
        }
    }
    assert(!is_digit('+'));
    assert(seq!['+'].drop_first() =~= Seq::empty());
}

/// The first fault of a row of digits stays the first one whatever follows; where there is none, a
/// character more is one or not.
proof fn lemma_fault_of_a_longer_row(body: Seq<char>, ch: char, at: int, value: nat)
    requires
        0 <= at <= body.len(),
        value == digits_value(body.take(at), 10),
    ensures
        first_fault(body, at, value) is Some ==> first_fault(body.push(ch), at, value)
            == first_fault(body, at, value),
        first_fault(body, at, value) is None ==> first_fault(body.push(ch), at, value) == (
        if !('0' <= ch <= '9') {
            Some(NumberFault::InvalidDigit)
        } else if digits_value(body, 10) * 10 + (ch as u32 - 48) > 65_535 {
            Some(NumberFault::TooLarge)
        } else {
            None
        }),
    decreases body.len() - at,
{
    let longer = body.push(ch);
    if at == body.len() {
        assert(body.take(at) =~= body);
        assert(longer[at] == ch);
        assert(first_fault(longer, at + 1, value * 10 + digit_value(ch)) is None);
    } else {
        assert(longer[at] == body[at]);
        let next = value * 10 + digit_value(body[at]);
        assert(body.take(at + 1).drop_last() =~= body.take(at));
        assert(digits_value(body.take(at + 1), 10) == next);
        if is_digit(body[at]) && next <= 0xffff {
            lemma_fault_of_a_longer_row(body, ch, at + 1, next as nat);
        }
    }
}

/// The fault of a text is the first one that is met: nothing at all, a character that is no digit,
/// or a digit that makes the number too large. A text with a fault keeps it whatever follows.
pub proof fn law_first_fault_of_a_number(text: Seq<char>, ch: char)
    ensures
        number_fault(Seq::empty()) == Some(NumberFault::Empty),
        number_fault(seq![ch]) == (if '0' <= ch <= '9' {
            None
        } else {
            Some(NumberFault::InvalidDigit)
        }),
        number_fault(seq!['+', ch]) == (if '0' <= ch <= '9' {
            None
        } else {
            Some(NumberFault::InvalidDigit)
        }),
        text.len() > 0 && text != seq!['+'] && number_fault(text) is Some ==> number_fault(
            text.push(ch),
        ) == number_fault(text),
        text.len() > 0 && number_fault(text) is None ==> number_fault(text.push(ch)) == (if !('0'
            <= ch <= '9') {
            Some(NumberFault::InvalidDigit)
        } else if parsed_u16(text)->0 * 10 + (ch as u32 - 48) > 65_535 {
            Some(NumberFault::TooLarge)
        } else {
            None
        }),
{
    reveal_with_fuel(first_fault, 3);
    law_fault_or_number(text);
    let single = seq![ch];
    let signed = seq!['+', ch];
    assert(signed.drop_first() =~= single);
    assert(number_fault(single) == first_fault(single, 0, 0));
    assert(number_fault(signed) == first_fault(single, 0, 0));
    if text.len() > 0 {
        let plus = text[0] == '+' && text.len() > 1;
        let body = if plus {
            text.drop_first()
        } else {
            text
        };
        let longer = text.push(ch);
        assert(body.take(0) =~= Seq::empty());
        if plus {
            assert(longer.drop_first() =~= body.push(ch));
            lemma_fault_of_a_longer_row(body, ch, 0, 0);
        } else if text[0] == '+' {
            assert(text =~= seq!['+']);
            assert(!is_digit(text[0]));
        } else {
            lemma_fault_of_a_longer_row(body, ch, 0, 0);
        }
    }
}

/// Each fault has its words.
pub proof fn law_words_of_the_faults(fault: NumberFault)
    ensures
        fault == NumberFault::Empty ==> fault.words() == "cannot parse integer from empty string"@,
        fault == NumberFault::InvalidDigit ==> fault.words() == "invalid digit found in string"@,
        fault == NumberFault::TooLarge ==> fault.words()
            == "number too large to fit in target type"@,
{
}

} // verus!
