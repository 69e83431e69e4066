//! The fixed texts written to the one-way diagnostic sink.

use vstd::prelude::*;

verus! {

/// The one-time boot banner, with its carriage-return/line-feed
/// terminator.
pub fn greeting() -> (r: &'static str)
    ensures
        r@ == "Hello, World!\r\n"@,
{
    "Hello, World!\r\n"
}

/// The line emitted each time the main loop enters its idle branch,
/// once per entry.
pub fn idle_notice() -> (r: &'static str)
    ensures
        r@ == "Wait for event."@,
{
    "Wait for event."
}

} // verus!
