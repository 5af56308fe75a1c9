//! From a page of raw events to the digest of a run.

use vstd::prelude::*;
use crate::aggregate::{merged, Aggregator, Digest};
use crate::classify::{classification, classify};
use crate::config::{Config, ConfigView};
use crate::error::DigestError;
use crate::event::{EventView, RawEvent};
use crate::time::{Timestamp, Window};
use crate::window::{event_views, reaches_back, validate_window};

verus! {

/// The digest `d` after the events have been classified and folded in, one
/// after the other. The first event that fails to classify decides the
/// error.
pub open spec fn folded(
    d: Digest,
    events: Seq<EventView>,
    cfg: ConfigView,
    username: Seq<char>,
    cutoff: Timestamp,
) -> Result<Digest, DigestError>
    decreases events.len(),
{
    if events.len() == 0 {
        Ok(d)
    } else {
        match folded(d, events.drop_last(), cfg, username, cutoff) {
            Err(e) => Err(e),
            Ok(sofar) => match classification(events.last(), cfg, username, cutoff) {
                Err(e) => Err(e),
                Ok(None) => Ok(sofar),
                Ok(Some(item)) => Ok(merged(sofar, item)),
            },
        }
    }
}

/// The digest of a page of events: the window check first, then the fold
/// over all events.
pub open spec fn digest_of(
    events: Seq<EventView>,
    cfg: ConfigView,
    username: Seq<char>,
    cutoff: Timestamp,
    n_events: u64,
    window: Window,
) -> Result<Digest, DigestError> {
    if !reaches_back(events, cutoff) {
        Err(DigestError::WindowTooNarrow { n_events, window })
    } else {
        folded(Map::empty(), events, cfg, username, cutoff)
    }
}

/// The view of a digest run's result.
pub open spec fn digest_view(r: Result<Aggregator, DigestError>) -> Result<Digest, DigestError> {
    match r {
        Ok(agg) => Ok(agg@),
        Err(e) => Err(e),
    }
}

/// An error among the first events is the error of the whole fold.
proof fn lemma_folded_error_stays(
    d: Digest,
    events: Seq<EventView>,
    k: int,
    cfg: ConfigView,
    username: Seq<char>,
    cutoff: Timestamp,
)
    requires
        0 <= k <= events.len(),
        folded(d, events.take(k), cfg, username, cutoff) is Err,
    ensures
        folded(d, events, cfg, username, cutoff) == folded(d, events.take(k), cfg, username, cutoff),
    decreases events.len(),
{
    if k < events.len() {
        assert(events.drop_last().take(k) =~= events.take(k));
        lemma_folded_error_stays(d, events.drop_last(), k, cfg, username, cutoff);
    } else {
        assert(events.take(k) =~= events);
    }
}

/// Classifies the events in order and folds what they record into `agg`.
/// The first error ends the fold.
pub fn fold_events(
    agg: Aggregator,
    events: Vec<RawEvent>,
    cfg: &Config,
    username: &str,
    cutoff: &Timestamp,
) -> (r: Result<Aggregator, DigestError>)
    requires
        agg.wf(),
    ensures
        r matches Ok(out) ==> out.wf(),
        digest_view(r) == folded(agg@, event_views(events@), cfg@, username@, *cutoff),
{
    let ghost all = event_views(events@);
    let mut out = agg;
    for event in it: events
        invariant
            it.seq() == events@,
            all == event_views(events@),
            out.wf(),
            folded(agg@, all.take(it.index()), cfg@, username@, *cutoff) == Ok::<Digest, DigestError>(
                out@,
            ),
    {
        let ghost k = it.index();
        proof {
            assert(all.take(k + 1).drop_last() =~= all.take(k));
            assert(all.take(k + 1).last() == event@);
        }
        match classify(event, cfg, username, cutoff) {
            Err(e) => {
                proof {
                    lemma_folded_error_stays(agg@, all, k + 1, cfg@, username@, *cutoff);
                }
                return Err(e);
            },
            Ok(None) => {},
            Ok(Some(item)) => {
                out.insert(item);
            },
        }
    }
    proof {
        assert(all.take(all.len() as int) =~= all);
    }
    Ok(out)
}

/// Builds the digest of a page of events.
///
/// `cutoff` is the earliest creation time an event may have to be included;
/// `n_events` and `window` are what was asked of the feed, and go into the
/// error where the page does not reach back to the cutoff.
pub fn digest(
    events: Vec<RawEvent>,
    cfg: &Config,
    username: &str,
    cutoff: &Timestamp,
    n_events: u64,
    window: Window,
) -> (r: Result<Aggregator, DigestError>)
    ensures
        r matches Ok(agg) ==> agg.wf(),
        digest_view(r) == digest_of(
            event_views(events@),
            cfg@,
            username@,
            *cutoff,
            n_events,
            window,
        ),
{
    match validate_window(&events, cutoff, n_events, window) {
        Err(e) => {
            return Err(e);
        },
        Ok(()) => {},
    }
    fold_events(Aggregator::new(), events, cfg, username, cutoff)
}

} // verus!
