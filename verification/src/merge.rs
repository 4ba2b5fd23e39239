//! The track merger: the events of all tracks as one sequence in the order
//! of their ticks.
//!
//! The order is that of `merge_tracks` of the `midi-reader-writer` crate.
//! What is proved here is what is built on it: which event stands at each
//! place of the merged sequence.

use vstd::prelude::*;
use midi_reader_writer::midly_0_5::merge_tracks as merge_midly_tracks;
use midly::num::u28;
use midly::{Track, TrackEvent, TrackEventKind};
use crate::score::{
    end_tick, has_long_track, has_wide_delta, lemma_ticks_through_monotonic, tick_at, tracks_view,
    Event, TimedEvent,
};

verus! {

/// An event of the merged sequence: its tick, counted from the start of the
/// score, the track that it comes from, and the event itself.
#[derive(Clone, Copy, Debug, PartialEq, Eq, Structural)]
pub struct MergedEvent {
    pub tick: u64,
    pub track: usize,
    pub event: Event,
}

/// The order in which `midi-reader-writer` merges the events of the given
/// tracks: for each place of the merged sequence the tick of its event and
/// the track that it comes from.
pub uninterp spec fn merge_order(tracks: Seq<Seq<TimedEvent>>) -> Seq<(u64, usize)>;

/// How many of the first `n` places of an order are taken by `track`.
pub open spec fn taken_from(order: Seq<(u64, usize)>, track: int, n: int) -> int
    decreases n,
{
    if n <= 0 {
        0
    } else {
        taken_from(order, track, n - 1) + if order[n - 1].1 == track {
            1int
        } else {
            0int
        }
    }
}

/// Place `k` of an order is taken by the next event of its track that no
/// earlier place has taken, at that event's tick.
pub open spec fn place_taken_in_turn(
    order: Seq<(u64, usize)>,
    tracks: Seq<Seq<TimedEvent>>,
    k: int,
) -> bool {
    let track = order[k].1 as int;
    let index = taken_from(order, track, k);
    &&& track < tracks.len()
    &&& index < tracks[track].len()
    &&& order[k].0 == tick_at(tracks[track], index)
}

/// An order runs through all the events of all the tracks: each place is
/// taken by the next event of some track, and every track is used up.
pub open spec fn is_interleaving(order: Seq<(u64, usize)>, tracks: Seq<Seq<TimedEvent>>) -> bool {
    &&& forall|k: int| 0 <= k < order.len() ==> #[trigger] place_taken_in_turn(order, tracks, k)
    &&& forall|t: int|
        0 <= t < tracks.len() ==> #[trigger] taken_from(order, t, order.len() as int)
            == tracks[t].len()
}

/// The ticks of an order never decrease.
pub open spec fn ticks_ascending(order: Seq<(u64, usize)>) -> bool {
    forall|j: int, k: int| 0 <= j <= k < order.len() ==> order[j].0 <= order[k].0
}

/// Whether a set of tracks can be merged: every delta fits in 28 bits and
/// no track ends after `MAX_TICK`.
pub open spec fn tracks_mergeable(tracks: Seq<Seq<TimedEvent>>) -> bool {
    !has_wide_delta(tracks) && !has_long_track(tracks)
}

/// The event that stands at place `k` of the merged sequence, for a given
/// order.
pub open spec fn merged_event_at(
    tracks: Seq<Seq<TimedEvent>>,
    order: Seq<(u64, usize)>,
    k: int,
) -> MergedEvent {
    let track = order[k].1;
    MergedEvent {
        tick: order[k].0,
        track,
        event: tracks[track as int][taken_from(order, track as int, k)].event,
    }
}

/// The merged sequence for a given order.
pub open spec fn assembled(tracks: Seq<Seq<TimedEvent>>, order: Seq<(u64, usize)>) -> Seq<
    MergedEvent,
> {
    Seq::new(order.len(), |k: int| merged_event_at(tracks, order, k))
}

/// The merged sequence of a set of tracks.
pub open spec fn merged_events(tracks: Seq<Seq<TimedEvent>>) -> Seq<MergedEvent> {
    assembled(tracks, merge_order(tracks))
}

/// The tick and the track of each event of a merged sequence.
pub open spec fn order_of(merged: Seq<MergedEvent>) -> Seq<(u64, usize)> {
    Seq::new(merged.len(), |k: int| (merged[k].tick, merged[k].track))
}

/// A sequence is a merge of the given tracks: it holds every event of every
/// track once, those of one track in their order and at their ticks, each
/// with the track that it comes from, and its ticks never decrease.
pub open spec fn is_merge_of(merged: Seq<MergedEvent>, tracks: Seq<Seq<TimedEvent>>) -> bool {
    &&& is_interleaving(order_of(merged), tracks)
    &&& ticks_ascending(order_of(merged))
    &&& merged == assembled(tracks, order_of(merged))
}

/// Calls `merge_tracks` of `midi-reader-writer` on tracks that carry the
/// deltas of the given ones (the crate reads nothing else of an event), and
/// keeps the tick and the track of each item.
///
/// Claimed of it, as its documentation and that of the `kmerge_by` under it
/// say: the items are the events of all the tracks, those of one track in
/// their order, each with its tick from the start and with the index of its
/// track; and, the ticks of each track being in ascending order, so are
/// those of the items. Which of two events at the same tick comes first is
/// not stated: the order is named. The deltas must fit in 28 bits, as those
/// of the crate's events do, and the ticks in 64.
#[verifier::external_body]
fn outside_merge_order(tracks: &Vec<Vec<TimedEvent>>) -> (order: Vec<(u64, usize)>)
    requires
        tracks_mergeable(tracks_view(tracks@)),
    ensures
        order@ == merge_order(tracks_view(tracks@)),
        is_interleaving(order@, tracks_view(tracks@)),
        ticks_ascending(order@),
{
    let plain: Vec<Track<'static>> = tracks.iter()
        .map(|track| track.iter()
            .map(|e| TrackEvent { delta: u28::new(e.delta), kind: TrackEventKind::Escape(&[]) })
            .collect())
        .collect();
    merge_midly_tracks(&plain).map(|(tick, track, _)| (tick, track)).collect()
}

/// Puts the events of the tracks in the given order: place `k` gets the
/// next event, not yet placed, of the track that the order names there.
pub fn assemble(tracks: &Vec<Vec<TimedEvent>>, order: &Vec<(u64, usize)>) -> (merged: Vec<
    MergedEvent,
>)
    requires
        is_interleaving(order@, tracks_view(tracks@)),
    ensures
        merged@ == assembled(tracks_view(tracks@), order@),
{
    let ghost plain = tracks_view(tracks@);
    let mut cursors: Vec<usize> = Vec::new();
    while cursors.len() < tracks.len()
        invariant
            cursors@.len() <= tracks@.len(),
            forall|t: int| 0 <= t < cursors@.len() ==> cursors@[t] == 0,
        decreases tracks@.len() - cursors@.len(),
    {
        cursors.push(0);
    }
    let mut merged: Vec<MergedEvent> = Vec::new();
    let mut k: usize = 0;
    while k < order.len()
        invariant
            plain == tracks_view(tracks@),
            is_interleaving(order@, plain),
            k <= order@.len(),
            cursors@.len() == tracks@.len(),
            forall|t: int|
                0 <= t < cursors@.len() ==> #[trigger] cursors@[t] == taken_from(order@, t, k as int),
            merged@.len() == k,
            forall|j: int| 0 <= j < k ==> #[trigger] merged@[j] == merged_event_at(plain, order@, j),
        decreases order@.len() - k,
    {
        let (tick, track) = order[k];
        assert(place_taken_in_turn(order@, plain, k as int));
        let index = cursors[track];
        assert(index < tracks@[track as int].len()) by {
            assert(plain[track as int] == tracks@[track as int]@);
        }
        let event = tracks[track][index].event;
        merged.push(MergedEvent { tick, track, event });
        cursors.set(track, index + 1);
        k += 1;
    }
    assert(merged@ =~= assembled(plain, order@));
    merged
}

/// Merges the tracks of a score into one sequence in the order of the
/// ticks, each event with its tick from the start of the score and with the
/// track that it comes from.
pub fn merge_tracks(tracks: &Vec<Vec<TimedEvent>>) -> (merged: Vec<MergedEvent>)
    requires
        tracks_mergeable(tracks_view(tracks@)),
    ensures
        merged@ == merged_events(tracks_view(tracks@)),
        is_merge_of(merged@, tracks_view(tracks@)),
{
    let order = outside_merge_order(tracks);
    let merged = assemble(tracks, &order);
    proof {
        assert(order_of(merged@) =~= order@);
    }
    merged
}

/// Every event of a merge is an event of the tracks, at a tick that is not
/// after the end of its track.
pub proof fn lemma_merged_event_from_track(
    merged: Seq<MergedEvent>,
    tracks: Seq<Seq<TimedEvent>>,
    k: int,
)
    requires
        is_merge_of(merged, tracks),
        0 <= k < merged.len(),
    ensures
        ({
            let track = merged[k].track as int;
            let index = taken_from(order_of(merged), track, k);
            &&& 0 <= track < tracks.len()
            &&& 0 <= index < tracks[track].len()
            &&& merged[k].event == tracks[track][index].event
            &&& merged[k].tick == tick_at(tracks[track], index)
            &&& merged[k].tick <= end_tick(tracks[track])
        }),
{
    let order = order_of(merged);
    assert(place_taken_in_turn(order, tracks, k));
    let track = merged[k].track as int;
    let index = taken_from(order, track, k);
    lemma_taken_from_nonnegative(order, track, k);
    lemma_ticks_through_monotonic(tracks[track], index + 1, tracks[track].len() as int);
}

/// A count of places is not negative.
pub proof fn lemma_taken_from_nonnegative(order: Seq<(u64, usize)>, track: int, n: int)
    ensures
        0 <= taken_from(order, track, n),
    decreases n,
{
    if n > 0 {
        lemma_taken_from_nonnegative(order, track, n - 1);
    }
}

} // verus!
