//! The button monitor: live "still held" detection, independent of the
//! latched edge.

use vstd::prelude::*;

verus! {

/// Stateless reader of the button's live level.  The input line is
/// pull-up wired with inverted logic, so the button is engaged exactly
/// while the line reads low.  The embedding shell owns the input line,
/// samples it, and hands the raw outcome here: `Some(is_low)` for a
/// successful read, `None` when the read itself failed.
pub struct ButtonMonitor;

impl ButtonMonitor {
    /// Whether the sampled outcome counts as "engaged": a successful
    /// read that saw the line low.  A failed read counts as not
    /// engaged: the monitor fails open toward the idle path.
    pub fn is_engaged(sample: Option<bool>) -> (r: bool)
        ensures
            r == (sample == Some(true)),
    {
        match sample {
            Some(low) => low,
            None => false,
        }
    }
}

} // verus!
