//! The debounced watch loop's decision core.
//!
//! The filesystem watcher outside this crate produces change events; the
//! loop consumes them one at a time, asking this module whether the event
//! should trigger a rebuild. A rebuild is triggered exactly when at least
//! the debounce window has elapsed since the last rebuild; rapid bursts of
//! events (an editor writing several times for one save) collapse into one.

use vstd::prelude::*;

verus! {

/// Debounce window: the minimum number of time units (seconds) that must
/// have elapsed since the last rebuild before a change event triggers
/// another.
pub const DEBOUNCE_SECS: u64 = 2;

/// The watch loop's state between events: when the last rebuild happened,
/// on a monotonic clock in seconds.
pub struct WatchState {
    pub last_build: u64,
}

/// One debounce decision: given the time of the last rebuild and the time
/// of an event, whether to rebuild, and the new last-rebuild time. Elapsed
/// time is measured against the previous rebuild, not the previous event.
pub open spec fn spec_watch_step(last: int, now: int) -> (bool, int) {
    if now - last >= DEBOUNCE_SECS {
        (true, now)
    } else {
        (false, last)
    }
}

/// How many rebuilds a sequence of change events triggers, starting from a
/// given last-rebuild time.
pub open spec fn spec_rebuild_count(events: Seq<int>, last: int) -> nat
    decreases events.len(),
{
    if events.len() == 0 {
        0
    } else {
        let step = spec_watch_step(last, events.first());
        (if step.0 {
            1nat
        } else {
            0nat
        }) + spec_rebuild_count(events.drop_first(), step.1)
    }
}

impl WatchState {
    /// Watching begins right after the initial build-and-run, with the
    /// window measured from that moment.
    pub fn new(now: u64) -> (r: WatchState)
        ensures
            r.last_build == now,
    {
        WatchState { last_build: now }
    }

    /// Decides one change notification at time `now`: rebuild exactly when
    /// the debounce window has passed since the last rebuild, resetting the
    /// window; otherwise the event is discarded and the state unchanged.
    /// The clock is monotonic, so `now` is never before the last rebuild.
    pub fn on_event(&mut self, now: u64) -> (rebuild: bool)
        requires
            now >= old(self).last_build,
        ensures
            (rebuild, final (self).last_build as int) == spec_watch_step(
                old(self).last_build as int,
                now as int,
            ),
            rebuild == (now - old(self).last_build >= DEBOUNCE_SECS),
    {
        if now - self.last_build >= DEBOUNCE_SECS {
            self.last_build = now;
            true
        } else {
            false
        }
    }
}

/// Event timestamps widened for specification.
pub open spec fn spec_event_times(events: Seq<u64>) -> Seq<int> {
    events.map_values(|e: u64| e as int)
}

/// Feeds a sequence of synthetic timestamped events through the debounce
/// decision and counts the rebuilds: exactly `spec_rebuild_count` of them.
/// Events arrive in time order, none before the initial rebuild.
pub fn replay_events(state: &mut WatchState, events: &Vec<u64>) -> (count: usize)
    requires
        forall|i: int, j: int| 0 <= i <= j < events@.len() ==> events@[i] <= events@[j],
        forall|i: int| 0 <= i < events@.len() ==> events@[i] >= old(state).last_build,
    ensures
        count == spec_rebuild_count(spec_event_times(events@), old(state).last_build as int),
{
    let ghost times = spec_event_times(events@);
    let mut count: usize = 0;
    let mut i: usize = 0;
    proof {
        assert(times.skip(0) =~= times);
    }
    while i < events.len()
        invariant
            0 <= i <= events@.len(),
            count <= i,
            times == spec_event_times(events@),
            forall|i: int, j: int| 0 <= i <= j < events@.len() ==> events@[i] <= events@[j],
            forall|j: int| i <= j < events@.len() ==> events@[j] >= state.last_build,
            spec_rebuild_count(times, old(state).last_build as int) == count
                + spec_rebuild_count(times.skip(i as int), state.last_build as int),
        decreases events@.len() - i,
    {
        proof {
            assert(times.skip(i as int).first() == times[i as int]);
            assert(times.skip(i as int).drop_first() =~= times.skip(i + 1));
        }
        if state.on_event(events[i]) {
            count = count + 1;
        }
        i = i + 1;
    }
    proof {
        assert(times.skip(events@.len() as int) =~= Seq::<int>::empty());
    }
    count
}

/// A quiet stretch: events all within the debounce window of the last
/// rebuild trigger nothing and leave the window in place.
proof fn lemma_debounce_quiet(events: Seq<int>, last: int)
    requires
        forall|i: int| 0 <= i < events.len() ==> events[i] - last < DEBOUNCE_SECS,
    ensures
        spec_rebuild_count(events, last) == 0,
    decreases events.len(),
{
    if events.len() > 0 {
        assert(forall|i: int|
            0 <= i < events.drop_first().len() ==> events.drop_first()[i] == events[i + 1]);
        lemma_debounce_quiet(events.drop_first(), last);
    }
}

/// Debounce correctness for a burst: change events delivered together — the
/// first once the window has passed, every later one within the window of
/// the first — trigger exactly one rebuild.
pub proof fn lemma_debounce_burst(events: Seq<int>, last: int)
    requires
        events.len() >= 1,
        events.first() - last >= DEBOUNCE_SECS,
        forall|i: int| 0 <= i < events.len() ==> events[i] - events.first() < DEBOUNCE_SECS,
    ensures
        spec_rebuild_count(events, last) == 1,
{
    assert(forall|i: int|
        0 <= i < events.drop_first().len() ==> events.drop_first()[i] == events[i + 1]);
    lemma_debounce_quiet(events.drop_first(), events.first());
}

/// Debounce correctness for separated events: when the first event falls
/// past the window and consecutive events are at least the window apart,
/// every event triggers its own rebuild.
pub proof fn lemma_debounce_separated(events: Seq<int>, last: int)
    requires
        events.len() >= 1 ==> events.first() - last >= DEBOUNCE_SECS,
        forall|i: int| 0 < i < events.len() ==> (#[trigger] events[i]) - events[i - 1] >= DEBOUNCE_SECS,
    ensures
        spec_rebuild_count(events, last) == events.len(),
    decreases events.len(),
{
    if events.len() >= 1 {
        assert(forall|i: int|
            0 <= i < events.drop_first().len() ==> events.drop_first()[i] == events[i + 1]);
        lemma_debounce_separated(events.drop_first(), events.first());
    }
}

} // verus!
