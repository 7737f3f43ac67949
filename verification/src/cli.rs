//! The command line: egress arguments and the table of adapters.

use vstd::prelude::*;

use crate::adapter::{AdapterAddress, EgressTarget};
use crate::addr::{ip_text, parse_ip, parsed_ip, IpAddr};
use crate::text::{chars_of, copy_range, parse_u16, parsed_u16, push_chars, string_of};

verus! {

// ---------------------------------------------------------------------
// Egress arguments
// ---------------------------------------------------------------------

/// Where `ch` stands last in `text`; nothing where it does not stand there.
pub open spec fn last_place(text: Seq<char>, ch: char) -> Option<int>
    decreases text.len(),
{
    if text.len() == 0 {
        None
    } else if text.last() == ch {
        Some(text.len() - 1)
    } else {
        last_place(text.drop_last(), ch)
    }
}

/// Why an egress argument is refused.
pub enum EgressFault {
    Weight,
    Address,
}

/// The address and the weight that an argument names: an address, or an address, a slash and a
/// weight. A weight of zero counts as one, and so does none.
pub open spec fn parsed_egress(text: Seq<char>) -> Result<(IpAddr, u16), EgressFault> {
    match last_place(text, '/') {
        None => match parsed_ip(text) {
            Some(ip) => Ok((ip, 1)),
            None => Err(EgressFault::Address),
        },
        Some(at) => match parsed_u16(text.skip(at + 1)) {
            None => Err(EgressFault::Weight),
            Some(weight) => match parsed_ip(text.take(at)) {
                None => Err(EgressFault::Address),
                Some(ip) => Ok(
                    (
                        ip,
                        if weight == 0 {
                            1
                        } else {
                            weight
                        },
                    ),
                ),
            },
        },
    }
}

/// What is said of a refused argument.
pub open spec fn fault_words(fault: EgressFault, text: Seq<char>) -> Seq<char> {
    match fault {
        EgressFault::Weight => "invalid egress weight in "@ + text,
        EgressFault::Address => "invalid egress IP address in "@ + text,
    }
}

/// Whether `target` is what the argument names; it is named by its address.
pub open spec fn names_target(text: Seq<char>, target: EgressTarget) -> bool {
    parsed_egress(text) == Ok::<(IpAddr, u16), EgressFault>((target.ip, target.weight))
        && target.name@ == ip_text(target.ip)
}

/// Reads one egress argument.
pub fn parse_egress(value: &str) -> (result: Result<EgressTarget, String>)
    ensures
        match result {
            Ok(target) => names_target(value@, target),
            Err(message) => parsed_egress(value@) is Err && message@ == fault_words(
                parsed_egress(value@)->Err_0,
                value@,
            ),
        },
{
    let chars: Vec<char> = chars_of(value);
    let mut end: usize = chars.len();
    assert(chars@.take(end as int) =~= chars@);
    while end > 0 && chars[end - 1] != '/'
        invariant
            end <= chars@.len(),
            last_place(chars@, '/') == last_place(chars@.take(end as int), '/'),
        decreases end,
    {
        assert(chars@.take(end as int).drop_last() =~= chars@.take(end - 1));
        end -= 1;
    }
    let mut weight: u16 = 1;
    let mut address: String = value.to_owned();
    if end > 0 {
        let weight_chars: Vec<char> = copy_range(chars.as_slice(), end, chars.len());
        assert(weight_chars@ =~= chars@.skip(end as int));
        match parse_u16(string_of(weight_chars.as_slice()).as_str()) {
            Some(number) => {
                weight = if number == 0 {
                    1
                } else {
                    number
                };
            },
            None => {
                let mut message: String = "invalid egress weight in ".to_owned();
                message.append(value);
                return Err(message);
            },
        }
        let address_chars: Vec<char> = copy_range(chars.as_slice(), 0, end - 1);
        assert(address_chars@ =~= chars@.take(end - 1));
        address = string_of(address_chars.as_slice());
    }
    match parse_ip(address.as_str()) {
        Some(ip) => Ok(EgressTarget { name: ip.to_text(), ip, weight }),
        None => {
            let mut message: String = "invalid egress IP address in ".to_owned();
            message.append(value);
            Err(message)
        },
    }
}

/// Reads the egress arguments: all of them, or the first that is refused. At least one is needed.
pub fn parse_egress_args(values: &Vec<String>) -> (result: Result<Vec<EgressTarget>, String>)
    ensures
        match result {
            Ok(targets) => {
                &&& values@.len() > 0
                &&& targets@.len() == values@.len()
                &&& forall|i: int|
                    0 <= i < values@.len() ==> names_target(values@[i]@, #[trigger] targets@[i])
            },
            Err(message) => if values@.len() == 0 {
                message@ == "at least one --egress adapter address is required"@
            } else {
                exists|i: int|
                    {
                        &&& 0 <= i < values@.len()
                        &&& parsed_egress((#[trigger] values@[i])@) is Err
                        &&& message@ == fault_words(parsed_egress(values@[i]@)->Err_0, values@[i]@)
                        &&& forall|j: int|
                            0 <= j < i ==> parsed_egress((#[trigger] values@[j])@) is Ok
                    }
            },
        },
        result is Ok <==> values@.len() > 0 && forall|i: int|
            0 <= i < values@.len() ==> parsed_egress((#[trigger] values@[i])@) is Ok,
{
    let mut targets: Vec<EgressTarget> = Vec::new();
    let mut i: usize = 0;
    while i < values.len()
        invariant
            i <= values@.len(),
            targets@.len() == i,
            forall|j: int| 0 <= j < i ==> names_target(values@[j]@, #[trigger] targets@[j]),
            forall|j: int| 0 <= j < i ==> parsed_egress((#[trigger] values@[j])@) is Ok,
        decreases values@.len() - i,
    {
        match parse_egress(values[i].as_str()) {
            Ok(target) => {
                targets.push(target);
            },
            Err(message) => {
                assert(parsed_egress(values@[i as int]@) is Err);
                return Err(message);
            },
        }
        i += 1;
    }
    if targets.len() == 0 {
        return Err("at least one --egress adapter address is required".to_owned());
    }
    Ok(targets)
}

// ---------------------------------------------------------------------
// The table of adapters
// ---------------------------------------------------------------------

/// `text` as it fits into `width` places: the last three of what stays are dots where it is too
/// long.
pub open spec fn trimmed_for_table(text: Seq<char>, width: nat) -> Seq<char> {
    if text.len() <= width {
        text
    } else {
        text.take(if width >= 3 {
            width - 3
        } else {
            0
        }) + "..."@
    }
}

pub fn trim_for_table(value: &str, width: usize) -> (out: String)
    ensures
        out@ == trimmed_for_table(value@, width as nat),
{
    let chars: Vec<char> = chars_of(value);
    if chars.len() <= width {
        value.to_owned()
    } else {
        let kept: usize = if width >= 3 {
            width - 3
        } else {
            0
        };
        let head: Vec<char> = copy_range(chars.as_slice(), 0, kept);
        assert(head@ =~= chars@.take(kept as int));
        let mut out: String = string_of(head.as_slice());
        out.append("...");
        out
    }
}

/// `text` filled with spaces on the right up to `width` places.
pub open spec fn filled(text: Seq<char>, width: nat) -> Seq<char> {
    if text.len() < width {
        text + Seq::new((width - text.len()) as nat, |i: int| ' ')
    } else {
        text
    }
}

fn push_filled(out: &mut String, text: &str, width: usize)
    ensures
        final(out)@ == old(out)@ + filled(text@, width as nat),
{
    let ghost before = out@;
    let chars: Vec<char> = chars_of(text);
    push_chars(out, chars.as_slice());
    let mut len: usize = chars.len();
    while len < width
        invariant
            chars@ == text@,
            chars@.len() <= len,
            len <= width || len == chars@.len(),
            out@ == before + filled(chars@, len as nat),
        decreases width - len,
    {
        out.push(' ');
        len += 1;
        assert(out@ =~= before + filled(chars@, len as nat));
    }
    assert(out@ =~= before + filled(text@, width as nat));
}

/// A row of the table: four columns with a space between them.
pub open spec fn row_text(
    name: Seq<char>,
    address: Seq<char>,
    family: Seq<char>,
    scope: Seq<char>,
) -> Seq<char> {
    filled(name, 32) + " "@ + filled(address, 45) + " "@ + filled(family, 8) + " "@ + filled(
        scope,
        10,
    )
}

fn table_row(name: &str, address: &str, family: &str, scope: &str) -> (row: String)
    ensures
        row@ == row_text(name@, address@, family@, scope@),
{
    let mut row: String = String::new();
    push_filled(&mut row, name, 32);
    row.append(" ");
    push_filled(&mut row, address, 45);
    row.append(" ");
    push_filled(&mut row, family, 8);
    row.append(" ");
    push_filled(&mut row, scope, 10);
    assert(row@ =~= row_text(name@, address@, family@, scope@));
    row
}

/// The first row of the table.
pub fn table_header() -> (row: String)
    ensures
        row@ == row_text("Name"@, "Address"@, "Family"@, "Scope"@),
{
    table_row("Name", "Address", "Family", "Scope")
}

/// The row of an adapter address.
pub fn adapter_row(item: &AdapterAddress) -> (row: String)
    ensures
        row@ == row_text(
            trimmed_for_table(item.name@, 32),
            ip_text(item.ip),
            match item.ip {
                IpAddr::V4(_) => "IPv4"@,
                IpAddr::V6(_) => "IPv6"@,
            },
            item.scope(),
        ),
{
    table_row(
        trim_for_table(item.name.as_str(), 32).as_str(),
        item.ip.to_text().as_str(),
        item.family_label(),
        item.scope_label(),
    )
}

/// A shortened text is as wide as the column, unless the column has no place for the dots.
pub proof fn law_table_text_fits(text: Seq<char>, width: nat)
    requires
        width >= 3,
    ensures
        trimmed_for_table(text, width).len() <= width,
{
    reveal_strlit("...");
}

/// Where a character stands last.
proof fn lemma_last_place_of(front: Seq<char>, ch: char, back: Seq<char>)
    requires
        forall|i: int| 0 <= i < back.len() ==> #[trigger] back[i] != ch,
    ensures
        last_place(front.push(ch) + back, ch) == Some(front.len() as int),
        last_place(back, ch) is None,
    decreases back.len(),
{
    let all = front.push(ch) + back;
    if back.len() == 0 {
        assert(all =~= front.push(ch));
    } else {
        assert(all.drop_last() =~= front.push(ch) + back.drop_last());
        assert(all.last() == back[back.len() - 1]);
        assert(back.last() == back[back.len() - 1]);
        lemma_last_place_of(front, ch, back.drop_last());
    }
}

/// An argument without a slash is an address and has the weight one; with a slash, what stands
/// behind the last one is the weight, which is looked at first, and what stands before it is the
/// address. A weight of zero counts as one.
pub proof fn law_parts_of_an_argument(address: Seq<char>, weight: Seq<char>)
    requires
        forall|i: int| 0 <= i < weight.len() ==> #[trigger] weight[i] != '/',
    ensures
        ({
            let both = parsed_egress(address.push('/') + weight);
            let alone = parsed_egress(weight);
            &&& parsed_u16(weight) is None ==> both is Err && both->Err_0 is Weight
            &&& parsed_u16(weight) is Some && parsed_ip(address) is None ==> both is Err
                && both->Err_0 is Address
            &&& parsed_u16(weight) is Some && parsed_ip(address) is Some ==> both is Ok
                && both->Ok_0.0 == parsed_ip(address)->0 && (parsed_u16(weight)->0 >= 1
                ==> both->Ok_0.1 == parsed_u16(weight)->0) && (parsed_u16(weight)->0 == 0
                ==> both->Ok_0.1 == 1)
            &&& parsed_ip(weight) is None ==> alone is Err && alone->Err_0 is Address
            &&& parsed_ip(weight) is Some ==> alone is Ok && alone->Ok_0.0 == parsed_ip(
                weight,
            )->0 && alone->Ok_0.1 == 1
        }),
{
    let text = address.push('/') + weight;
    lemma_last_place_of(address, '/', weight);
    assert(text.take(address.len() as int) =~= address);
    assert(text.skip(address.len() as int + 1) =~= weight);
}

/// A target that an argument names has the address and the weight of the argument, and the address
/// for its name.
pub proof fn law_named_target(text: Seq<char>, target: EgressTarget)
    requires
        names_target(text, target),
    ensures
        parsed_egress(text) is Ok,
        target.ip == parsed_egress(text)->Ok_0.0,
        target.weight == parsed_egress(text)->Ok_0.1,
        target.name@ == ip_text(target.ip),
        target.weight >= 1,
{
}

/// A text that is not too long stands in the table as it is; of a longer one the beginning stands
/// there with three dots behind it.
pub proof fn law_text_in_the_table(text: Seq<char>, width: nat)
    ensures
        text.len() <= width ==> trimmed_for_table(text, width) == text,
        text.len() > width && width >= 3 ==> trimmed_for_table(text, width).len() == width
            && trimmed_for_table(text, width).take(width - 3) == text.take(width - 3)
            && trimmed_for_table(text, width).skip(width - 3) == seq!['.', '.', '.'],
        text.len() > width && width < 3 ==> trimmed_for_table(text, width) == seq!['.', '.', '.'],
        filled(text, width).len() == (if text.len() < width {
            width
        } else {
            text.len()
        }),
        filled(text, width).take(text.len() as int) == text,
        forall|i: int|
            text.len() <= i < filled(text, width).len() ==> #[trigger] filled(text, width)[i]
                == ' ',
{
    reveal_strlit("...");
    assert("..."@ =~= seq!['.', '.', '.']);
    let shown = trimmed_for_table(text, width);
    if text.len() > width && width >= 3 {
        assert(shown.take(width - 3) =~= text.take(width - 3));
        assert(shown.skip(width - 3) =~= seq!['.', '.', '.']);
    } else if text.len() > width {
        assert(shown =~= seq!['.', '.', '.']);
    }
    assert(filled(text, width).take(text.len() as int) =~= text);
}

/// The columns of the table start at the places 0, 33, 79 and 88.
pub proof fn law_columns_of_the_table(
    name: Seq<char>,
    address: Seq<char>,
    family: Seq<char>,
    scope: Seq<char>,
)
    requires
        name.len() <= 32,
        address.len() <= 45,
        family.len() <= 8,
        scope.len() <= 10,
    ensures
        row_text(name, address, family, scope).len() == 98,
        row_text(name, address, family, scope).subrange(0, name.len() as int) == name,
        row_text(name, address, family, scope).subrange(33, 33 + address.len() as int) == address,
        row_text(name, address, family, scope).subrange(79, 79 + family.len() as int) == family,
        row_text(name, address, family, scope).subrange(88, 88 + scope.len() as int) == scope,
{
    reveal_strlit(" ");
    let row = row_text(name, address, family, scope);
    assert(row.subrange(0, name.len() as int) =~= name);
    assert(row.subrange(33, 33 + address.len() as int) =~= address);
    assert(row.subrange(79, 79 + family.len() as int) =~= family);
    assert(row.subrange(88, 88 + scope.len() as int) =~= scope);
}

} // verus!
