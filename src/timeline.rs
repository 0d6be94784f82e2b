use vstd::prelude::*;
use crate::models::{DemolishEvent, PlacedBuilding};
use crate::utils::time_value;

verus! {

/// Demolition time of a building that no event demolishes: above every timeline key.
pub const NEVER: i64 = 0x7fff_ffff_ffff_ffff;

/// Time of the first demolish event for `uid`, or `NEVER`.
pub open spec fn demolition_time(events: Seq<DemolishEvent>, uid: usize) -> int
    decreases events.len(),
{
    if events.len() == 0 {
        NEVER as int
    } else if events[0].uid == uid {
        time_value(events[0].wave_num as int, events[0].is_late)
    } else {
        demolition_time(events.drop_first(), uid)
    }
}

/// Time at which a building was placed.
pub open spec fn creation_time(b: PlacedBuilding) -> int {
    time_value(b.wave_num as int, b.is_late)
}

/// A building takes part in the map over the half-open interval from its
/// creation to its demolition.
pub open spec fn is_active(b: PlacedBuilding, t: int, events: Seq<DemolishEvent>) -> bool {
    creation_time(b) <= t && t < demolition_time(events, b.uid)
}

/// Timeline keys order all (wave, late) pairs: equal exactly on equal pairs,
/// increasing with the wave, and the late phase after the early one.
pub proof fn lemma_time_value_total(w1: int, l1: bool, w2: int, l2: bool)
    ensures
        (time_value(w1, l1) == time_value(w2, l2)) <==> (w1 == w2 && l1 == l2),
        w1 < w2 ==> time_value(w1, l1) < time_value(w2, l2),
        time_value(w1, false) < time_value(w1, true),
{
}

/// A building with a demolish event later than its creation is active
/// exactly from its creation time up to, and not at, its demolition time.
pub proof fn lemma_active_interval(
    b: PlacedBuilding,
    events: Seq<DemolishEvent>,
    wd: int,
    ld: bool,
    t: int,
)
    requires
        demolition_time(events, b.uid) == time_value(wd, ld),
        time_value(wd, ld) > creation_time(b),
    ensures
        is_active(b, t, events) <==> (creation_time(b) <= t < time_value(wd, ld)),
        !is_active(b, time_value(wd, ld), events),
{
}

} // verus!
