//! Running with administrator rights.

use vstd::prelude::*;

use crate::platform::Platform;
use crate::text::{
    chars_of, has_space, is_space, is_whitespace, join, joined, quote, quoted, texts,
};

verus! {

/// What is to be done about the rights of the process.
#[derive(Debug, Clone, Copy, PartialEq, Eq, Structural)]
pub enum Elevation {
    /// The rights suffice, or the platform asks for none.
    Granted,
    /// The application is to be started again with more rights.
    Relaunch,
}

/// Only Windows asks for administrator rights at the start.
pub fn ensure_elevated(platform: Platform, is_admin: bool) -> (elevation: Elevation)
    ensures
        elevation == Elevation::Relaunch <==> platform == Platform::Windows && !is_admin,
{
    match platform {
        Platform::Windows => if is_admin {
            Elevation::Granted
        } else {
            Elevation::Relaunch
        },
        _ => Elevation::Granted,
    }
}

/// What the shell's answer to the second start says: a number above 32 means that the new
/// process runs, so that this one is to end; any other is a failure.
pub fn relaunch_result(code: isize) -> (result: Result<(), &'static str>)
    ensures
        result is Ok <==> code > 32,
        result matches Err(message) ==> message@
            == "administrator elevation was cancelled or failed"@,
{
    if code > 32 {
        Ok(())
    } else {
        Err("administrator elevation was cancelled or failed")
    }
}

/// An argument as it is handed to the second start: in quotation marks where it is empty or
/// holds white space or a quotation mark.
pub open spec fn shell_argument(value: Seq<char>) -> Seq<char> {
    if value.len() == 0 || has_space(value) || value.contains('"') {
        quoted(value)
    } else {
        value
    }
}

pub fn quote_arg(value: &str) -> (out: String)
    ensures
        out@ == shell_argument(value@),
{
    if value.is_empty() {
        return quote(value);
    }
    let chars: Vec<char> = chars_of(value);
    let mut i: usize = 0;
    while i < chars.len()
        invariant
            i <= chars@.len(),
            chars@ == value@,
            forall|j: int|
                0 <= j < i ==> !is_space(#[trigger] chars@[j]) && chars@[j] != '"',
        decreases chars@.len() - i,
    {
        if is_whitespace(chars[i]) {
            assert(has_space(value@));
            return quote(value);
        }
        if chars[i] == '"' {
            assert(value@.contains('"'));
            return quote(value);
        }
        i += 1;
    }
    value.to_owned()
}

/// The command line for the second start.
pub fn relaunch_parameters(args: &Vec<String>) -> (out: String)
    ensures
        out@ == joined(
            texts(args@).map_values(|arg: Seq<char>| shell_argument(arg)),
            " "@,
        ),
{
    let mut parts: Vec<String> = Vec::new();
    let mut i: usize = 0;
    while i < args.len()
        invariant
            i <= args@.len(),
            parts@.len() == i,
            forall|j: int| 0 <= j < i ==> #[trigger] parts@[j]@ == shell_argument(args@[j]@),
        decreases args@.len() - i,
    {
        parts.push(quote_arg(args[i].as_str()));
        i += 1;
    }
    assert(texts(parts@) =~= texts(args@).map_values(|arg: Seq<char>| shell_argument(arg)));
    join(&parts, " ")
}

/// An argument stays as it is where it holds something, but no white space and no quotation mark;
/// any other one is put in quotation marks.
pub proof fn law_argument_of_the_second_start(value: Seq<char>)
    ensures
        value.len() > 0 && (forall|i: int|
            0 <= i < value.len() ==> !is_space(#[trigger] value[i]) && value[i] != '"')
            ==> shell_argument(value) == value,
        value.len() == 0 || (exists|i: int|
            0 <= i < value.len() && (is_space(#[trigger] value[i]) || value[i] == '"'))
            ==> shell_argument(value) == quoted(value),
{
}

} // verus!
