//! Keeping the desktop application to one running instance.

use vstd::prelude::*;

use crate::platform::Platform;

verus! {

/// The name of the system-wide mutex that the first instance holds.
pub fn mutex_name() -> (name: &'static str)
    ensures
        name@ == "Local\\ivLis-Studio.net-combiner"@,
{
    "Local\\ivLis-Studio.net-combiner"
}

/// What a second instance tells the user.
pub fn already_running_text() -> (text: &'static str)
    ensures
        text@ == "net-combiner is already running.\n이미 실행 중입니다."@,
{
    "net-combiner is already running.\n이미 실행 중입니다."
}

/// The title over that text.
pub fn already_running_title() -> (text: &'static str)
    ensures
        text@ == "net-combiner"@,
{
    "net-combiner"
}

/// How the attempt to be the only instance ends.
#[derive(Debug, Clone, Copy, PartialEq, Eq, Structural)]
pub enum Acquisition {
    /// This is the only instance; it keeps its guard.
    Acquired,
    /// Another instance runs: the user is told, the handle is closed and no guard is kept.
    AlreadyRunning,
}

/// Judges the attempt. Only Windows makes one: `handle_is_null` says that it gave no mutex and
/// `already_exists` that the mutex was there before.
pub fn acquire_or_notify(
    platform: Platform,
    handle_is_null: bool,
    already_exists: bool,
) -> (result: Result<Acquisition, &'static str>)
    ensures
        result is Err <==> platform == Platform::Windows && handle_is_null,
        result matches Err(message) ==> message@ == "failed to create single-instance mutex"@,
        result matches Ok(acquisition) ==> (acquisition == Acquisition::AlreadyRunning <==> platform
            == Platform::Windows && already_exists),
{
    match platform {
        Platform::Windows => if handle_is_null {
            Err("failed to create single-instance mutex")
        } else if already_exists {
            Ok(Acquisition::AlreadyRunning)
        } else {
            Ok(Acquisition::Acquired)
        },
        _ => Ok(Acquisition::Acquired),
    }
}

} // verus!
