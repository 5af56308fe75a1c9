//! Checking that the fetched events reach back to the cutoff.

use vstd::prelude::*;
use crate::error::DigestError;
use crate::event::{EventView, RawEvent};
use crate::time::{Timestamp, Window};

verus! {

/// What a list of events holds.
pub open spec fn event_views(events: Seq<RawEvent>) -> Seq<EventView> {
    Seq::new(events.len(), |i: int| events[i]@)
}

/// Whether at least one event was created strictly before the cutoff.
pub open spec fn reaches_back(events: Seq<EventView>, cutoff: Timestamp) -> bool {
    exists|i: int| 0 <= i < events.len() && (#[trigger] events[i]).created_at.precedes(cutoff)
}

/// What the window check yields for a page of `n_events` events fetched for
/// the given window.
pub open spec fn window_check(
    events: Seq<EventView>,
    cutoff: Timestamp,
    n_events: u64,
    window: Window,
) -> Result<(), DigestError> {
    if reaches_back(events, cutoff) {
        Ok(())
    } else {
        Err(DigestError::WindowTooNarrow { n_events, window })
    }
}

/// Checks that the fetched events cover the whole window.
///
/// Where no event is older than the cutoff, the page that was fetched may
/// have been cut short by the limit of `n_events` events, and the run must
/// not go on. A page without events does not reach back either.
pub fn validate_window(events: &Vec<RawEvent>, cutoff: &Timestamp, n_events: u64, window: Window) -> (r:
    Result<(), DigestError>)
    ensures
        r == window_check(event_views(events@), *cutoff, n_events, window),
{
    let mut i: usize = 0;
    while i < events.len()
        invariant
            i <= events.len(),
            forall|j: int| 0 <= j < i ==> !(#[trigger] event_views(events@)[j]).created_at.precedes(*cutoff),
        decreases events.len() - i,
    {
        if events[i].created_at.is_before(cutoff) {
            assert(event_views(events@)[i as int].created_at.precedes(*cutoff));
            return Ok(());
        }
        i = i + 1;
    }
    Err(DigestError::WindowTooNarrow { n_events, window })
}

} // verus!
