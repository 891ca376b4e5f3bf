//! What holds of the library as a whole.

use vstd::prelude::*;

use crate::buffer::{last_items, ApplyOutcome, BufferView, StreamView};
use crate::digest::encoded_tokens;
use crate::events::SemanticKvEventView;
use crate::history::{
    accepted_at, accepts, after_call, after_calls, arrivals, backlog, carries_on, concerns,
    gap_stands, last_accepted_at, legal, lists, met_gap_at, never_reseeded, not_validated_from,
    nothing_taken, receivable, reseeds, stream_of, supported, validates, watermark_key, Call,
};
use crate::namespace::CacheNamespaceView;
use crate::protocols::{DpRank, WorkerId};
use crate::stream_map::StreamKey;

verus! {

/// Receiving an event keeps the buffer well-formed.
pub proof fn apply_keeps_the_invariant(buffer: BufferView, event: SemanticKvEventView)
    requires
        buffer.wf(),
        receivable(event),
    ensures
        buffer.after_event(event).wf(),
{
}

/// Seeding from a snapshot keeps the buffer well-formed.
pub proof fn snapshot_keeps_the_invariant(
    buffer: BufferView,
    watermarks: Seq<(WorkerId, DpRank, u64)>,
)
    requires
        buffer.wf(),
    ensures
        buffer.after_snapshot(watermarks).wf(),
        buffer.after_snapshot(watermarks).max_events_per_stream == buffer.max_events_per_stream,
    decreases watermarks.len(),
{
    if watermarks.len() > 0 {
        snapshot_keeps_the_invariant(buffer, watermarks.drop_last());
    }
}

/// Acknowledging an invalidation keeps the buffer well-formed.
pub proof fn acknowledgement_keeps_the_invariant(buffer: BufferView, key: StreamKey)
    requires
        buffer.wf(),
    ensures
        buffer.after_acknowledgement(key).wf(),
{
}

/// Every call keeps the buffer well-formed and the limit as it is; in particular no stream ever
/// retains more events than the limit.
pub proof fn calls_keep_the_invariant(buffer: BufferView, calls: Seq<Call>)
    requires
        buffer.wf(),
        legal(calls),
    ensures
        after_calls(buffer, calls).wf(),
        after_calls(buffer, calls).max_events_per_stream == buffer.max_events_per_stream,
        forall|key: StreamKey|
            #[trigger] after_calls(buffer, calls).stream(key).events.len()
                <= buffer.max_events_per_stream,
    decreases calls.len(),
{
    if calls.len() > 0 {
        let before = after_calls(buffer, calls.drop_last());
        assert(calls.last() == calls[calls.len() - 1]);
        calls_keep_the_invariant(buffer, calls.drop_last());
        match calls.last() {
            Call::Event(event) => apply_keeps_the_invariant(before, event),
            Call::Snapshot(watermarks) => snapshot_keeps_the_invariant(before, watermarks),
            Call::Acknowledgement(key) => acknowledgement_keeps_the_invariant(before, key),
        }
    }
}

/// An event that is refused, as a duplicate or for its schema, changes nothing.
pub proof fn refused_events_change_nothing(buffer: BufferView, event: SemanticKvEventView)
    requires
        buffer.outcome(event) is Duplicate || buffer.outcome(event) is VersionUnsupported,
    ensures
        buffer.after_event(event) == buffer,
{
    assert(buffer.after_event(event).streams =~= buffer.streams);
}

/// An event is refused for its schema exactly when its version is not the supported one, whatever
/// else it holds and whatever the buffer holds.
pub proof fn other_schemas_are_refused(buffer: BufferView, event: SemanticKvEventView)
    ensures
        !supported(event) <==> buffer.outcome(event)
            == (ApplyOutcome::VersionUnsupported { got: event.schema_version }),
        !supported(event) ==> buffer.after_event(event)
            == buffer,
{
}

/// A stream that the buffer has not heard of starts at event 0: that one is applied, any later one
/// reveals a gap.
pub proof fn streams_start_at_zero(buffer: BufferView, event: SemanticKvEventView)
    requires
        supported(event),
        !buffer.streams.contains_key(stream_of(event)),
    ensures
        event.event_id == 0 ==> buffer.outcome(event) is Applied,
        event.event_id > 0 ==> buffer.outcome(event) == (ApplyOutcome::Gap {
            expected: 0,
            got: event.event_id,
        }),
{
}

/// The last watermark that a snapshot lists for a stream decides where it resumes: the stream then
/// expects that event, retains nothing and is valid.
pub proof fn last_watermark_decides(
    buffer: BufferView,
    watermarks: Seq<(WorkerId, DpRank, u64)>,
    i: int,
)
    requires
        0 <= i < watermarks.len(),
        forall|j: int|
            i < j < watermarks.len() ==> watermark_key(#[trigger] watermarks[j]) != watermark_key(
                watermarks[i],
            ),
    ensures
        buffer.after_snapshot(watermarks).stream(watermark_key(watermarks[i]))
            == (StreamView {
            next_event_id: watermarks[i].2,
            events: Seq::empty(),
            invalidated: false,
        }),
    decreases watermarks.len(),
{
    if i < watermarks.len() - 1 {
        let earlier = watermarks.drop_last();
        assert(watermarks.last() == watermarks[watermarks.len() - 1]);
        last_watermark_decides(buffer, earlier, i);
    }
}

/// A stream that a snapshot does not list stays as it was.
pub proof fn unlisted_streams_stay(
    buffer: BufferView,
    watermarks: Seq<(WorkerId, DpRank, u64)>,
    key: StreamKey,
)
    requires
        !lists(watermarks, key),
    ensures
        buffer.after_snapshot(watermarks).stream(key) == buffer.stream(key),
        buffer.after_snapshot(watermarks).streams.contains_key(key) == buffer.streams.contains_key(
            key,
        ),
    decreases watermarks.len(),
{
    if watermarks.len() > 0 {
        assert(watermarks.last() == watermarks[watermarks.len() - 1]);
        assert forall|j: int| 0 <= j < watermarks.len() - 1 implies watermark_key(
            #[trigger] watermarks.drop_last()[j],
        ) != key by {
            assert(watermarks.drop_last()[j] == watermarks[j]);
        }
        unlisted_streams_stay(buffer, watermarks.drop_last(), key);
    }
}

/// What a snapshot makes of a stream that it lists: nothing is retained and the stream is valid.
proof fn lemma_listed_streams_start_anew(
    buffer: BufferView,
    watermarks: Seq<(WorkerId, DpRank, u64)>,
    key: StreamKey,
)
    requires
        lists(watermarks, key),
    ensures
        buffer.after_snapshot(watermarks).stream(key).events == Seq::<SemanticKvEventView>::empty(),
        !buffer.after_snapshot(watermarks).stream(key).invalidated,
    decreases watermarks.len(),
{
    if watermark_key(watermarks.last()) != key {
        let i = choose|i: int|
            0 <= i < watermarks.len() && watermark_key(#[trigger] watermarks[i]) == key;
        assert(watermarks.drop_last()[i] == watermarks[i]);
        lemma_listed_streams_start_anew(buffer, watermarks.drop_last(), key);
    }
}

/// A call that does not concern a stream leaves it as it was.
proof fn lemma_one_call_elsewhere(buffer: BufferView, call: Call, key: StreamKey)
    requires
        !concerns(call, key),
    ensures
        after_call(buffer, call).stream(key) == buffer.stream(key),
{
    match call {
        Call::Snapshot(watermarks) => unlisted_streams_stay(buffer, watermarks, key),
        _ => {},
    }
}

/// The calls of a run before the last one are the same calls, met by the same buffers.
proof fn lemma_earlier_calls(calls: Seq<Call>, i: int)
    requires
        0 <= i < calls.len() - 1,
    ensures
        calls.drop_last()[i] == calls[i],
        calls.drop_last().take(i) == calls.take(i),
{
    assert(calls.drop_last().take(i) =~= calls.take(i));
}

/// Streams are independent: calls that do not concern a stream leave it as it was, and it replays
/// what it replayed before.
pub proof fn streams_are_independent(buffer: BufferView, calls: Seq<Call>, key: StreamKey)
    requires
        forall|i: int| 0 <= i < calls.len() ==> !concerns(#[trigger] calls[i], key),
    ensures
        after_calls(buffer, calls).stream(key) == buffer.stream(key),
        forall|start_id: u64, end_id: u64|
            after_calls(buffer, calls).replay(key, start_id, end_id) == #[trigger] buffer.replay(
                key,
                start_id,
                end_id,
            ),
    decreases calls.len(),
{
    if calls.len() > 0 {
        assert(calls.last() == calls[calls.len() - 1]);
        assert forall|i: int| 0 <= i < calls.len() - 1 implies !concerns(
            #[trigger] calls.drop_last()[i],
            key,
        ) by {
            lemma_earlier_calls(calls, i);
        }
        streams_are_independent(buffer, calls.drop_last(), key);
        lemma_one_call_elsewhere(after_calls(buffer, calls.drop_last()), calls.last(), key);
    }
}

/// An acknowledgement touches its own stream only, and of that nothing but the flag.
pub proof fn acknowledgements_clear_one_flag(buffer: BufferView, key: StreamKey, other: StreamKey)
    ensures
        buffer.after_acknowledgement(key).stream(key) == (StreamView {
            invalidated: false,
            ..buffer.stream(key)
        }),
        other != key ==> buffer.after_acknowledgement(key).stream(other) == buffer.stream(other),
        buffer.after_acknowledgement(key).streams.dom() == buffer.streams.dom(),
{
    assert(buffer.after_acknowledgement(key).streams.dom() =~= buffer.streams.dom());
}

/// The cursor of a stream never moves back, unless a snapshot lists the stream.
pub proof fn cursors_never_move_back(buffer: BufferView, calls: Seq<Call>, key: StreamKey)
    requires
        legal(calls),
        never_reseeded(calls, key),
    ensures
        buffer.stream(key).next_event_id <= after_calls(buffer, calls).stream(key).next_event_id,
    decreases calls.len(),
{
    if calls.len() > 0 {
        let before = after_calls(buffer, calls.drop_last());
        assert(calls.last() == calls[calls.len() - 1]);
        assert forall|i: int| 0 <= i < calls.len() - 1 implies !reseeds(
            #[trigger] calls.drop_last()[i],
            key,
        ) by {
            lemma_earlier_calls(calls, i);
        }
        cursors_never_move_back(buffer, calls.drop_last(), key);
        if !concerns(calls.last(), key) {
            lemma_one_call_elsewhere(before, calls.last(), key);
        }
    }
}

/// Once an event was taken, it and every event of its stream with a lower id are duplicates,
/// whatever calls follow, until a snapshot lists the stream.
pub proof fn taken_events_are_duplicates(
    buffer: BufferView,
    event: SemanticKvEventView,
    later: Seq<Call>,
    again: SemanticKvEventView,
)
    requires
        supported(event),
        receivable(event),
        legal(later),
        never_reseeded(later, stream_of(event)),
        supported(again),
        stream_of(again) == stream_of(event),
        again.event_id <= event.event_id,
    ensures
        after_calls(buffer.after_event(event), later).outcome(again) is Duplicate,
{
    cursors_never_move_back(buffer.after_event(event), later, stream_of(event));
}

/// A stream is invalidated exactly when one of its events met a gap and no later call validated it:
/// no acknowledgement of it, and no snapshot that lists it. An invalidation from before the run
/// likewise stands until the stream is validated.
pub proof fn only_gaps_invalidate(buffer: BufferView, calls: Seq<Call>, key: StreamKey)
    ensures
        after_calls(buffer, calls).stream(key).invalidated <==> gap_stands(buffer, calls, key) || (
        buffer.stream(key).invalidated && not_validated_from(calls, key, 0)),
    decreases calls.len(),
{
    if calls.len() > 0 {
        let earlier = calls.drop_last();
        let last = calls.last();
        let before = after_calls(buffer, earlier);
        let end = calls.len() - 1;
        assert(last == calls[end]);
        assert(calls.take(end) =~= earlier);
        only_gaps_invalidate(buffer, earlier, key);
        assert forall|start: int| 0 <= start <= end implies #[trigger] not_validated_from(
            calls,
            key,
            start,
        ) == (not_validated_from(earlier, key, start) && !validates(last, key)) by {
            if not_validated_from(earlier, key, start) && !validates(last, key) {
                assert forall|i: int| start <= i < calls.len() implies !validates(
                    #[trigger] calls[i],
                    key,
                ) by {
                    if i < end {
                        assert(earlier[i] == calls[i]);
                    }
                }
            }
            if not_validated_from(calls, key, start) {
                assert forall|i: int| start <= i < earlier.len() implies !validates(
                    #[trigger] earlier[i],
                    key,
                ) by {
                    assert(earlier[i] == calls[i]);
                }
                assert(!validates(calls[end], key));
            }
        }
        assert forall|i: int| 0 <= i < end implies #[trigger] met_gap_at(buffer, calls, key, i)
            == met_gap_at(buffer, earlier, key, i) by {
            lemma_earlier_calls(calls, i);
        }
        if gap_stands(buffer, earlier, key) && !validates(last, key) {
            let i = choose|i: int|
                0 <= i < earlier.len() && #[trigger] met_gap_at(buffer, earlier, key, i)
                    && not_validated_from(earlier, key, i + 1);
            assert(met_gap_at(buffer, calls, key, i));
            assert(not_validated_from(calls, key, i + 1));
        }
        if gap_stands(buffer, calls, key) {
            let i = choose|i: int|
                0 <= i < calls.len() && #[trigger] met_gap_at(buffer, calls, key, i)
                    && not_validated_from(calls, key, i + 1);
            if i < end {
                assert(met_gap_at(buffer, earlier, key, i));
                assert(not_validated_from(earlier, key, i + 1));
                assert(gap_stands(buffer, earlier, key) && !validates(last, key));
            }
        }
        assert(not_validated_from(calls, key, end + 1));
        if met_gap_at(buffer, calls, key, end) {
            assert(gap_stands(buffer, calls, key));
        }
        assert(not_validated_from(calls, key, 0) == (not_validated_from(earlier, key, 0)
            && !validates(last, key)));
        match last {
            Call::Event(event) => {},
            Call::Snapshot(watermarks) => if lists(watermarks, key) {
                lemma_listed_streams_start_anew(before, watermarks, key);
            } else {
                unlisted_streams_stay(before, watermarks, key);
            },
            Call::Acknowledgement(other) => {},
        }
    }
}

/// A gap is failed closed: whatever calls follow, until one validates the stream, it stays
/// invalidated and replays nothing, not even an empty range.
pub proof fn gaps_fail_closed(
    buffer: BufferView,
    event: SemanticKvEventView,
    later: Seq<Call>,
    start_id: u64,
    end_id: u64,
)
    requires
        buffer.outcome(event) is Gap,
        not_validated_from(later, stream_of(event), 0),
    ensures
        after_calls(buffer.after_event(event), later).stream(stream_of(event)).invalidated,
        after_calls(buffer.after_event(event), later).replay(stream_of(event), start_id, end_id)
            is None,
{
    only_gaps_invalidate(buffer.after_event(event), later, stream_of(event));
}

/// A stream that is still valid, though no call validated it, has missed nothing: every id by which
/// a run moved its cursor was carried by an event of the run.
pub proof fn valid_streams_missed_nothing(
    buffer: BufferView,
    calls: Seq<Call>,
    key: StreamKey,
    event_id: u64,
)
    requires
        legal(calls),
        not_validated_from(calls, key, 0),
        !after_calls(buffer, calls).stream(key).invalidated,
        buffer.stream(key).next_event_id <= event_id < after_calls(buffer, calls).stream(
            key,
        ).next_event_id,
    ensures
        exists|i: int|
            0 <= i < calls.len() && #[trigger] accepted_at(buffer, calls, key, event_id, i),
    decreases calls.len(),
{
    if calls.len() > 0 {
        let earlier = calls.drop_last();
        let last = calls.last();
        let before = after_calls(buffer, earlier);
        let end = calls.len() - 1;
        assert(last == calls[end]);
        assert(calls.take(end) =~= earlier);
        assert forall|i: int| 0 <= i < earlier.len() implies !validates(
            #[trigger] earlier[i],
            key,
        ) by {
            lemma_earlier_calls(calls, i);
        }
        if !concerns(last, key) {
            lemma_one_call_elsewhere(before, last, key);
        }
        if event_id < before.stream(key).next_event_id {
            valid_streams_missed_nothing(buffer, earlier, key, event_id);
            let i = choose|i: int|
                0 <= i < earlier.len() && #[trigger] accepted_at(buffer, earlier, key, event_id, i);
            lemma_earlier_calls(calls, i);
            assert(accepted_at(buffer, calls, key, event_id, i));
        } else {
            assert(accepted_at(buffer, calls, key, event_id, end));
        }
    }
}

/// The stream retains an event with this id.
pub open spec fn retains(stream: StreamView, event_id: u64) -> bool {
    exists|i: int| 0 <= i < stream.events.len() && #[trigger] stream.events[i].event_id == event_id
}

/// In a sequence of events with consecutive ids, those in an id range are a contiguous part.
proof fn lemma_consecutive_ids_in_range(
    events: Seq<SemanticKvEventView>,
    first_id: int,
    start_id: u64,
    end_id: u64,
)
    requires
        forall|i: int| 0 <= i < events.len() ==> #[trigger] events[i].event_id == first_id + i,
        first_id <= start_id <= end_id,
    ensures
        ({
            let in_range = |e: SemanticKvEventView| start_id <= e.event_id <= end_id;
            let len = events.len() as int;
            let from = if start_id - first_id < len { start_id - first_id } else { len };
            let to = if end_id + 1 - first_id < len { end_id + 1 - first_id } else { len };
            events.filter(in_range) == events.subrange(from, to)
        }),
    decreases events.len(),
{
    reveal(Seq::filter);
    let in_range = |e: SemanticKvEventView| start_id <= e.event_id <= end_id;
    let len = events.len() as int;
    let from = if start_id - first_id < len { start_id - first_id } else { len };
    let to = if end_id + 1 - first_id < len { end_id + 1 - first_id } else { len };
    if events.len() > 0 {
        lemma_consecutive_ids_in_range(events.drop_last(), first_id, start_id, end_id);
        assert(events.last() == events[len - 1]);
        assert(events.filter(in_range) =~= events.subrange(from, to));
    } else {
        assert(events.filter(in_range) =~= events.subrange(from, to));
    }
}

/// A replay is complete: a stream that is not invalidated replays a range exactly when it retains
/// every id of it, and then with one event for each id, in order, all of that stream. An empty
/// range has no ids.
pub proof fn replays_are_complete(buffer: BufferView, key: StreamKey, start_id: u64, end_id: u64)
    requires
        buffer.wf(),
    ensures
        buffer.replay(key, start_id, end_id) is Some <==> !buffer.stream(key).invalidated && (
        forall|id: u64| start_id <= id <= end_id ==> #[trigger] retains(buffer.stream(key), id)),
        buffer.replay(key, start_id, end_id) matches Some(list) ==> {
            &&& list.len() == if start_id <= end_id {
                end_id - start_id + 1
            } else {
                0
            }
            &&& forall|i: int|
                0 <= i < list.len() ==> {
                    &&& (#[trigger] list[i]).event_id == start_id + i
                    &&& stream_of(list[i]) == key
                    &&& supported(list[i])
                }
        },
{
    let stream = buffer.stream(key);
    if start_id <= end_id && stream.covers(start_id, end_id) {
        let first_id = stream.next_event_id - stream.events.len();
        assert(stream.events.first() == stream.events[0]);
        assert(stream.events.last() == stream.events[stream.events.len() - 1]);
        lemma_consecutive_ids_in_range(stream.events, first_id, start_id, end_id);
        assert forall|id: u64| start_id <= id <= end_id implies #[trigger] retains(stream, id) by {
            assert(stream.events[id - first_id].event_id == id);
        }
    } else if start_id <= end_id {
        assert(!retains(stream, start_id) || !retains(stream, end_id));
    }
}

/// Each event that a stream retains after a run of calls is the one with its id that the run last
/// accepted there, or, where the run accepted none with that id, one that the stream began with.
pub proof fn retained_events_are_the_latest(
    buffer: BufferView,
    calls: Seq<Call>,
    key: StreamKey,
    n: int,
)
    requires
        buffer.wf(),
        legal(calls),
        0 <= n < after_calls(buffer, calls).stream(key).events.len(),
    ensures
        ({
            let event = after_calls(buffer, calls).stream(key).events[n];
            ||| exists|i: int| #[trigger]
                last_accepted_at(buffer, calls, key, event.event_id, i) && calls[i] == Call::Event(
                    event,
                )
            ||| buffer.stream(key).events.contains(event) && forall|i: int|
                0 <= i < calls.len() ==> !#[trigger] accepted_at(
                    buffer,
                    calls,
                    key,
                    event.event_id,
                    i,
                )
        }),
    decreases calls.len(),
{
    let event = after_calls(buffer, calls).stream(key).events[n];
    if calls.len() == 0 {
        assert(buffer.stream(key).events[n] == event);
    } else {
        let earlier = calls.drop_last();
        let last = calls.last();
        let before = after_calls(buffer, earlier);
        let end = calls.len() - 1;
        assert(last == calls[end]);
        assert(calls.take(end) =~= earlier);
        calls_keep_the_invariant(buffer, earlier);
        match last {
            Call::Snapshot(watermarks) => if lists(watermarks, key) {
                lemma_listed_streams_start_anew(before, watermarks, key);
            } else {
                unlisted_streams_stay(before, watermarks, key);
            },
            _ => {},
        }
        if last == Call::Event(event) && accepts(before, event) {
            assert(accepted_at(buffer, calls, key, event.event_id, end));
            assert(last_accepted_at(buffer, calls, key, event.event_id, end));
        } else {
            let retained = before.stream(key).events;
            let dropped = retained.len() - after_calls(buffer, calls).stream(key).events.len()
                + if last matches Call::Event(e) && stream_of(e) == key && accepts(before, e) {
                1int
            } else {
                0int
            };
            assert(0 <= n + dropped < retained.len() && retained[n + dropped] == event);
            assert(!accepted_at(buffer, calls, key, event.event_id, end));
            retained_events_are_the_latest(buffer, earlier, key, n + dropped);
            assert forall|i: int| 0 <= i < end implies #[trigger] accepted_at(
                buffer,
                calls,
                key,
                event.event_id,
                i,
            ) == accepted_at(buffer, earlier, key, event.event_id, i) by {
                lemma_earlier_calls(calls, i);
            }
            if exists|i: int| #[trigger]
                last_accepted_at(buffer, earlier, key, event.event_id, i) && earlier[i]
                    == Call::Event(event) {
                let i = choose|i: int| #[trigger]
                    last_accepted_at(buffer, earlier, key, event.event_id, i) && earlier[i]
                        == Call::Event(event);
                lemma_earlier_calls(calls, i);
                assert(accepted_at(buffer, calls, key, event.event_id, i));
                assert(last_accepted_at(buffer, calls, key, event.event_id, i));
            }
        }
    }
}

/// After any run of calls on a new buffer, each event that a stream retains is the one with its id
/// that the run last accepted there.
pub proof fn retained_events_were_last_accepted(
    limit: nat,
    calls: Seq<Call>,
    key: StreamKey,
    n: int,
)
    requires
        limit >= 1,
        legal(calls),
        0 <= n < after_calls(BufferView::empty(limit), calls).stream(key).events.len(),
    ensures
        ({
            let event = after_calls(BufferView::empty(limit), calls).stream(key).events[n];
            exists|i: int| #[trigger]
                last_accepted_at(BufferView::empty(limit), calls, key, event.event_id, i)
                    && calls[i] == Call::Event(event)
        }),
{
    retained_events_are_the_latest(BufferView::empty(limit), calls, key, n);
}

/// A stream retains the last events of its backlog, up to the limit: calls on other streams,
/// refused events and acknowledgements take nothing away.
pub proof fn streams_retain_their_backlog(buffer: BufferView, calls: Seq<Call>, key: StreamKey)
    requires
        buffer.wf(),
        legal(calls),
    ensures
        after_calls(buffer, calls).stream(key).events == last_items(
            backlog(buffer, calls, key),
            buffer.max_events_per_stream,
        ),
    decreases calls.len(),
{
    if calls.len() > 0 {
        let earlier = calls.drop_last();
        let last = calls.last();
        let before = after_calls(buffer, earlier);
        let limit = buffer.max_events_per_stream;
        streams_retain_their_backlog(buffer, earlier, key);
        calls_keep_the_invariant(buffer, earlier);
        match last {
            Call::Event(event) => if stream_of(event) == key && before.outcome(event) is Applied {
                let all = backlog(buffer, earlier, key);
                assert(last_items(last_items(all, limit).push(event), limit) =~= last_items(
                    all.push(event),
                    limit,
                ));
            },
            Call::Snapshot(watermarks) => if lists(watermarks, key) {
                lemma_listed_streams_start_anew(before, watermarks, key);
            } else {
                unlisted_streams_stay(before, watermarks, key);
            },
            Call::Acknowledgement(_) => {},
        }
    }
}

/// What was accepted is replayed as it came: after any run of calls, a stream that is not
/// invalidated replays every part of its backlog that the limit has not pushed out, from the event
/// that revealed an acknowledged gap on where there was one.
pub proof fn applied_events_are_replayed(
    buffer: BufferView,
    calls: Seq<Call>,
    key: StreamKey,
    from: int,
    to: int,
)
    requires
        buffer.wf(),
        legal(calls),
        !after_calls(buffer, calls).stream(key).invalidated,
        0 <= from <= to < backlog(buffer, calls, key).len(),
        backlog(buffer, calls, key).len() - from <= buffer.max_events_per_stream,
    ensures
        after_calls(buffer, calls).replay(
            key,
            backlog(buffer, calls, key)[from].event_id,
            backlog(buffer, calls, key)[to].event_id,
        ) == Some(backlog(buffer, calls, key).subrange(from, to + 1)),
{
    let stream = after_calls(buffer, calls).stream(key);
    let all = backlog(buffer, calls, key);
    let start_id = all[from].event_id;
    let end_id = all[to].event_id;
    streams_retain_their_backlog(buffer, calls, key);
    calls_keep_the_invariant(buffer, calls);
    let dropped = all.len() - stream.events.len();
    assert(stream.events =~= all.skip(dropped));
    assert(stream.events[from - dropped] == all[from]);
    assert(stream.events[to - dropped] == all[to]);
    let first_id = stream.next_event_id - stream.events.len();
    assert(stream.events.first() == stream.events[0]);
    assert(stream.events.last() == stream.events[stream.events.len() - 1]);
    lemma_consecutive_ids_in_range(stream.events, first_id, start_id, end_id);
    assert(stream.slice(start_id, end_id) =~= all.subrange(from, to + 1));
}

/// Events that carry on a stream are applied one and all, whatever else is called in between, as
/// long as no snapshot lists the stream: the cursor moves past them, a valid stream stays valid,
/// and they join the backlog.
pub proof fn in_order_arrivals_are_applied(buffer: BufferView, calls: Seq<Call>, key: StreamKey)
    requires
        legal(calls),
        never_reseeded(calls, key),
        carries_on(buffer.stream(key).next_event_id, arrivals(calls, key)),
    ensures
        forall|i: int|
            0 <= i < calls.len() ==> (#[trigger] calls[i] matches Call::Event(event) ==> stream_of(
                event,
            ) == key && supported(event) ==> after_calls(buffer, calls.take(i)).outcome(
                event,
            ) is Applied),
        after_calls(buffer, calls).stream(key).next_event_id == buffer.stream(key).next_event_id
            + arrivals(calls, key).len(),
        !buffer.stream(key).invalidated ==> !after_calls(buffer, calls).stream(key).invalidated,
        backlog(buffer, calls, key) == buffer.stream(key).events + arrivals(calls, key),
    decreases calls.len(),
{
    let began = buffer.stream(key).events;
    if calls.len() == 0 {
        assert(began + arrivals(calls, key) =~= began);
    } else {
        let earlier = calls.drop_last();
        let last = calls.last();
        let before = after_calls(buffer, earlier);
        let end = calls.len() - 1;
        assert(last == calls[end]);
        assert(calls.take(end) =~= earlier);
        assert forall|i: int| 0 <= i < end implies !reseeds(#[trigger] earlier[i], key) by {
            lemma_earlier_calls(calls, i);
        }
        let arrived = arrivals(earlier, key);
        assert forall|i: int| 0 <= i < arrived.len() implies (#[trigger] arrived[i]).event_id
            == buffer.stream(key).next_event_id + i by {
            assert(arrivals(calls, key)[i] == arrived[i]);
        }
        in_order_arrivals_are_applied(buffer, earlier, key);
        if !concerns(last, key) {
            lemma_one_call_elsewhere(before, last, key);
        }
        match last {
            Call::Event(event) => if stream_of(event) == key && supported(event) {
                assert(arrivals(calls, key)[arrived.len() as int] == event);
                assert(before.outcome(event) is Applied);
                assert((began + arrived).push(event) =~= began + arrivals(calls, key));
            },
            _ => {},
        }
        assert forall|i: int| 0 <= i < calls.len() implies (#[trigger] calls[i] matches Call::Event(
            event,
        ) ==> stream_of(event) == key && supported(event) ==> after_calls(
            buffer,
            calls.take(i),
        ).outcome(event) is Applied) by {
            if i < end {
                lemma_earlier_calls(calls, i);
                assert(earlier[i] == calls[i]);
            }
        }
    }
}

/// After a gap is acknowledged, the event that revealed it is replayed, and the stream carries on
/// from the event after it.
pub proof fn acknowledged_gaps_carry_on(
    buffer: BufferView,
    event: SemanticKvEventView,
    next: SemanticKvEventView,
)
    requires
        buffer.outcome(event) is Gap,
        receivable(event),
        supported(next),
        stream_of(next) == stream_of(event),
        next.event_id == event.event_id + 1,
    ensures
        ({
            let resumed = buffer.after_event(event).after_acknowledgement(stream_of(event));
            &&& resumed.replay(stream_of(event), event.event_id, event.event_id) == Some(
                seq![event],
            )
            &&& resumed.outcome(next) is Applied
            &&& !resumed.after_event(next).stream(stream_of(event)).invalidated
        }),
{
    let resumed = buffer.after_event(event).after_acknowledgement(stream_of(event));
    let stream = resumed.stream(stream_of(event));
    lemma_consecutive_ids_in_range(
        stream.events,
        event.event_id as int,
        event.event_id,
        event.event_id,
    );
    assert(stream.slice(event.event_id, event.event_id) =~= seq![event]);
}

/// Tailing resumes after a snapshot without a false gap: the events from the watermark on are
/// applied, whatever else is called in between, and, as far as the limit has not pushed them out,
/// replayed as they came, even where the stream had been invalidated before.
pub proof fn tailing_resumes_after_a_snapshot(
    buffer: BufferView,
    watermarks: Seq<(WorkerId, DpRank, u64)>,
    i: int,
    calls: Seq<Call>,
)
    requires
        buffer.wf(),
        0 <= i < watermarks.len(),
        forall|j: int|
            i < j < watermarks.len() ==> watermark_key(#[trigger] watermarks[j]) != watermark_key(
                watermarks[i],
            ),
        legal(calls),
        never_reseeded(calls, watermark_key(watermarks[i])),
        carries_on(watermarks[i].2, arrivals(calls, watermark_key(watermarks[i]))),
    ensures
        ({
            let key = watermark_key(watermarks[i]);
            let seeded = buffer.after_snapshot(watermarks);
            let tail = arrivals(calls, key);
            &&& forall|n: int|
                0 <= n < calls.len() ==> (#[trigger] calls[n] matches Call::Event(event)
                    ==> stream_of(event) == key && supported(event) ==> after_calls(
                    seeded,
                    calls.take(n),
                ).outcome(event) is Applied)
            &&& !after_calls(seeded, calls).stream(key).invalidated
            &&& after_calls(seeded, calls).stream(key).events == last_items(
                tail,
                buffer.max_events_per_stream,
            )
            &&& forall|from: int, to: int|
                0 <= from <= to < tail.len() && tail.len() - from <= buffer.max_events_per_stream
                    ==> after_calls(seeded, calls).replay(
                    key,
                    (#[trigger] tail[from]).event_id,
                    (#[trigger] tail[to]).event_id,
                ) == Some(tail.subrange(from, to + 1))
        }),
{
    let seeded = buffer.after_snapshot(watermarks);
    let key = watermark_key(watermarks[i]);
    let tail = arrivals(calls, key);
    snapshot_keeps_the_invariant(buffer, watermarks);
    last_watermark_decides(buffer, watermarks, i);
    in_order_arrivals_are_applied(seeded, calls, key);
    streams_retain_their_backlog(seeded, calls, key);
    assert(backlog(seeded, calls, key) =~= tail);
    assert forall|from: int, to: int|
        0 <= from <= to < tail.len() && tail.len() - from
            <= buffer.max_events_per_stream implies after_calls(seeded, calls).replay(
        key,
        (#[trigger] tail[from]).event_id,
        (#[trigger] tail[to]).event_id,
    ) == Some(tail.subrange(from, to + 1)) by {
        applied_events_are_replayed(seeded, calls, key, from, to);
    }
}

/// A stream that the buffer has not heard of is valid and retains nothing: it replays an empty
/// range as empty, and no other.
pub proof fn unheard_streams_replay_nothing(
    buffer: BufferView,
    key: StreamKey,
    start_id: u64,
    end_id: u64,
)
    requires
        !buffer.streams.contains_key(key),
    ensures
        !buffer.stream(key).invalidated,
        start_id <= end_id ==> buffer.replay(key, start_id, end_id) is None,
        start_id > end_id ==> buffer.replay(key, start_id, end_id) == Some(
            Seq::<SemanticKvEventView>::empty(),
        ),
{
}

/// While nothing is taken into a stream, its cursor stays.
proof fn lemma_cursor_stays(buffer: BufferView, calls: Seq<Call>, key: StreamKey)
    requires
        nothing_taken(buffer, calls, key),
    ensures
        after_calls(buffer, calls).stream(key).next_event_id == buffer.stream(key).next_event_id,
    decreases calls.len(),
{
    if calls.len() > 0 {
        let earlier = calls.drop_last();
        let end = calls.len() - 1;
        assert(calls.last() == calls[end]);
        assert(calls.take(end) =~= earlier);
        assert(!reseeds(calls[end], key));
        assert forall|i: int| 0 <= i < earlier.len() implies {
            &&& !reseeds(#[trigger] earlier[i], key)
            &&& earlier[i] matches Call::Event(event) ==> stream_of(event) == key ==> !accepts(
                after_calls(buffer, earlier.take(i)),
                event,
            )
        } by {
            lemma_earlier_calls(calls, i);
        }
        lemma_cursor_stays(buffer, earlier, key);
        if !concerns(calls.last(), key) {
            lemma_one_call_elsewhere(after_calls(buffer, earlier), calls.last(), key);
        }
    }
}

/// The event last accepted in a stream decides what becomes of the next one, whatever was called in
/// between: up to its id a duplicate, the id after it in order, and beyond that a gap, which is
/// reported with the id after the last accepted one as expected and the event's own id as got.
pub proof fn outcomes_go_by_the_last_accepted_event(
    buffer: BufferView,
    event: SemanticKvEventView,
    between: Seq<Call>,
    next: SemanticKvEventView,
)
    requires
        accepts(buffer, event),
        receivable(event),
        nothing_taken(buffer.after_event(event), between, stream_of(event)),
        supported(next),
        stream_of(next) == stream_of(event),
    ensures
        ({
            let outcome = after_calls(buffer.after_event(event), between).outcome(next);
            &&& next.event_id <= event.event_id ==> outcome == ApplyOutcome::Duplicate
            &&& next.event_id == event.event_id + 1 ==> outcome == ApplyOutcome::Applied
            &&& next.event_id > event.event_id + 1 ==> outcome == (ApplyOutcome::Gap {
                expected: (event.event_id + 1) as u64,
                got: next.event_id,
            })
        }),
{
    lemma_cursor_stays(buffer.after_event(event), between, stream_of(event));
}

/// The last watermark that a snapshot lists for a stream decides what becomes of the next event, as
/// long as none was accepted since: below it a duplicate, at it in order, and beyond it a gap,
/// which is reported with the watermark as expected and the event's own id as got.
pub proof fn outcomes_go_by_the_last_watermark(
    buffer: BufferView,
    watermarks: Seq<(WorkerId, DpRank, u64)>,
    i: int,
    between: Seq<Call>,
    next: SemanticKvEventView,
)
    requires
        0 <= i < watermarks.len(),
        forall|j: int|
            i < j < watermarks.len() ==> watermark_key(#[trigger] watermarks[j]) != watermark_key(
                watermarks[i],
            ),
        nothing_taken(buffer.after_snapshot(watermarks), between, watermark_key(watermarks[i])),
        supported(next),
        stream_of(next) == watermark_key(watermarks[i]),
    ensures
        ({
            let outcome = after_calls(buffer.after_snapshot(watermarks), between).outcome(next);
            &&& next.event_id < watermarks[i].2 ==> outcome == ApplyOutcome::Duplicate
            &&& next.event_id == watermarks[i].2 ==> outcome == ApplyOutcome::Applied
            &&& next.event_id > watermarks[i].2 ==> outcome == (ApplyOutcome::Gap {
                expected: watermarks[i].2,
                got: next.event_id,
            })
        }),
{
    last_watermark_decides(buffer, watermarks, i);
    lemma_cursor_stays(buffer.after_snapshot(watermarks), between, stream_of(next));
}

/// As long as nothing was taken into a stream that the buffer had not heard of, event 0 is in order
/// there and any later one reveals a gap from 0.
pub proof fn outcomes_go_from_zero(
    buffer: BufferView,
    between: Seq<Call>,
    next: SemanticKvEventView,
)
    requires
        !buffer.streams.contains_key(stream_of(next)),
        nothing_taken(buffer, between, stream_of(next)),
        supported(next),
    ensures
        ({
            let outcome = after_calls(buffer, between).outcome(next);
            &&& next.event_id == 0 ==> outcome == ApplyOutcome::Applied
            &&& next.event_id > 0 ==> outcome == (ApplyOutcome::Gap {
                expected: 0,
                got: next.event_id,
            })
        }),
{
    lemma_cursor_stays(buffer, between, stream_of(next));
}

/// After in-order arrivals, whatever else was called in between, a later event that skips ids is
/// reported as a gap that expected the id after the last arrival and got the event's own.
pub proof fn gaps_after_in_order_arrivals(
    buffer: BufferView,
    calls: Seq<Call>,
    next: SemanticKvEventView,
)
    requires
        legal(calls),
        never_reseeded(calls, stream_of(next)),
        carries_on(
            buffer.stream(stream_of(next)).next_event_id,
            arrivals(calls, stream_of(next)),
        ),
        arrivals(calls, stream_of(next)).len() > 0,
        supported(next),
        next.event_id > arrivals(calls, stream_of(next)).last().event_id + 1,
    ensures
        after_calls(buffer, calls).outcome(next) == (ApplyOutcome::Gap {
            expected: (arrivals(calls, stream_of(next)).last().event_id + 1) as u64,
            got: next.event_id,
        }),
{
    let arrived = arrivals(calls, stream_of(next));
    in_order_arrivals_are_applied(buffer, calls, stream_of(next));
    assert(arrived.last() == arrived[arrived.len() - 1]);
}

/// The last items of a sequence are a suffix of it, as long as asked for where it has that many,
/// and the whole of it where it has not.
pub proof fn last_items_are_a_suffix<T>(items: Seq<T>, n: nat)
    ensures
        last_items(items, n).len() == if items.len() < n {
            items.len()
        } else {
            n
        },
        exists|rest: Seq<T>| #[trigger] (rest + last_items(items, n)) == items,
{
    let rest = items.take(items.len() - last_items(items, n).len());
    assert(rest + last_items(items, n) =~= items);
}

/// An empty buffer has the limit that it was asked for and has heard of no stream.
pub proof fn empty_buffers_are_as_asked_for(limit: nat)
    ensures
        BufferView::empty(limit).max_events_per_stream == limit,
        forall|key: StreamKey| !#[trigger] BufferView::empty(limit).streams.contains_key(key),
{
}

/// A new buffer retains as many events of a stream as it was asked for, the oldest dropped first:
/// of the events that arrived in order, whatever else was called in between, it replays every part
/// of the last `limit` ones, and nothing that reaches further back.
pub proof fn new_buffers_retain_the_last_arrivals(
    limit: nat,
    calls: Seq<Call>,
    key: StreamKey,
    from: int,
    to: int,
)
    requires
        limit >= 1,
        legal(calls),
        never_reseeded(calls, key),
        carries_on(0, arrivals(calls, key)),
        0 <= from <= to < arrivals(calls, key).len(),
    ensures
        after_calls(BufferView::empty(limit), calls).replay(key, from as u64, to as u64)
            == if arrivals(calls, key).len() - from <= limit {
            Some(arrivals(calls, key).subrange(from, to + 1))
        } else {
            None
        },
{
    let buffer = BufferView::empty(limit);
    let after = after_calls(buffer, calls);
    let arrived = arrivals(calls, key);
    in_order_arrivals_are_applied(buffer, calls, key);
    only_gaps_invalidate(buffer, calls, key);
    assert(backlog(buffer, calls, key) =~= arrived);
    assert(arrived[from].event_id == from);
    assert(arrived[to].event_id == to);
    if arrived.len() - from <= limit {
        applied_events_are_replayed(buffer, calls, key, from, to);
    } else {
        streams_retain_their_backlog(buffer, calls, key);
        let dropped = arrived.len() - limit;
        assert(after.stream(key).events.first() == arrived[dropped]);
        assert(arrived[dropped].event_id == dropped);
    }
}

/// Hard compatibility is an equivalence.
pub proof fn hard_compatibility_is_an_equivalence(
    a: CacheNamespaceView,
    b: CacheNamespaceView,
    c: CacheNamespaceView,
)
    ensures
        a.hard_compatible_with(a),
        a.hard_compatible_with(b) == b.hard_compatible_with(a),
        a.hard_compatible_with(b) && b.hard_compatible_with(c) ==> a.hard_compatible_with(c),
{
}

/// Full compatibility implies hard compatibility, and holds of equal namespaces only.
pub proof fn full_compatibility_is_equality(a: CacheNamespaceView, b: CacheNamespaceView)
    ensures
        a.fully_compatible_with(b) ==> a.hard_compatible_with(b),
        a.fully_compatible_with(b) <==> a == b,
{
}

/// Adapter and quantization play no part in hard compatibility.
pub proof fn adapters_do_not_touch_hard_compatibility(
    a: CacheNamespaceView,
    b: CacheNamespaceView,
    lora: Option<Seq<char>>,
    quant: Option<Seq<char>>,
)
    ensures
        a.hard_compatible_with((CacheNamespaceView { lora, quant, ..b }))
            == a.hard_compatible_with(b),
{
}

/// An extra key on one side only is a mismatch.
pub proof fn one_sided_extras_are_a_mismatch(
    a: CacheNamespaceView,
    b: CacheNamespaceView,
    key: Seq<char>,
)
    requires
        a.extra.contains_key(key) != b.extra.contains_key(key),
    ensures
        !a.hard_compatible_with(b),
        !b.hard_compatible_with(a),
{
}

/// The digest is taken over an encoding that loses nothing: different token sequences are encoded
/// differently.
pub proof fn token_encoding_is_injective(a: Seq<u64>, b: Seq<u64>)
    requires
        encoded_tokens(a) == encoded_tokens(b),
    ensures
        a == b,
{
    assert(encoded_tokens(a).len() == 8 * a.len());
    assert(encoded_tokens(b).len() == 8 * b.len());
    assert forall|n: int| 0 <= n < a.len() implies a[n] == b[n] by {
        vstd::bytes::lemma_auto_spec_u64_to_from_le_bytes();
        let word_a = vstd::bytes::spec_u64_to_le_bytes(a[n]);
        let word_b = vstd::bytes::spec_u64_to_le_bytes(b[n]);
        assert forall|k: int| 0 <= k < 8 implies word_a[k] == word_b[k] by {
            assert(encoded_tokens(a)[8 * n + k] == word_a[k]);
            assert(encoded_tokens(b)[8 * n + k] == word_b[k]);
        }
        assert(word_a =~= word_b);
    }
    assert(a =~= b);
}

} // verus!
