//! The decisions of the trigger model. The surrounding process owns the
//! timers, the HTTP endpoint and the task scheduling; what to hand a cycle
//! and what to make of its result is decided here.

use vstd::prelude::*;

use crate::addresses::AddressMap;

verus! {

/// The supplied-address map a timer tick hands to its cycle: always empty.
/// A timed trigger has no caller that could supply addresses.
pub fn timer_tick_addresses() -> (r: AddressMap)
    ensures
        r@ == Map::<Seq<char>, Seq<char>>::empty(),
{
    AddressMap::new()
}

/// Whether the timed trigger keeps running after a cycle: always. A cycle
/// failure is reported but never stops the timer; the next tick runs an
/// independent cycle.
pub fn timed_trigger_continues(last: &Result<(), String>) -> (r: bool)
    ensures
        r,
{
    true
}

/// The HTTP answer a webhook trigger gives for one cycle's result:
/// status 200 with an empty body on success, status 500 carrying the
/// cycle's combined failure text otherwise.
pub fn webhook_response(cycle: &Result<(), String>) -> (r: (u16, String))
    ensures
        match cycle {
            Ok(_) => r.0 == 200 && r.1@.len() == 0,
            Err(e) => r.0 == 500 && r.1@ == e@,
        },
{
    match cycle {
        Ok(_) => (200, String::new()),
        Err(e) => (500, e.clone()),
    }
}

} // verus!
