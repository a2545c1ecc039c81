//! Build facts read at startup.
use vstd::prelude::*;
use crate::text::str_eq;

verus! {

/// Whether a build channel is the nightly one.
pub fn is_nightly_build(channel: &str) -> (r: bool)
    ensures
        r == (channel@ == "nightly"@),
{
    str_eq(channel, "nightly")
}

/// Whether the smoke-test switch, where it is set, asks for a smoke test:
/// its value is `1`.
pub fn is_smoke_test(switch: Option<&str>) -> (r: bool)
    ensures
        r == (switch matches Some(v) && v@ == "1"@),
{
    match switch {
        Some(v) => str_eq(v, "1"),
        None => false,
    }
}

/// Whether the smoke test's gate, where it is set, is the window: its value
/// is `window`.
pub fn smoke_gate_is_window(gate: Option<&str>) -> (r: bool)
    ensures
        r == (gate matches Some(v) && v@ == "window"@),
{
    match gate {
        Some(v) => str_eq(v, "window"),
        None => false,
    }
}

} // verus!
