//! Where the simulation's event log goes.
use vstd::prelude::*;
use crate::command::concat2;

verus! {

/// The file that the simulation's events are appended to, under `output_dir`.
pub fn events_log_file(output_dir: &str) -> (r: String)
    ensures
        r@ == output_dir@ + "/events.yaml"@,
{
    concat2(output_dir, "/events.yaml")
}

} // verus!
