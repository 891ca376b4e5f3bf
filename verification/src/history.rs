//! Histories of a buffer: runs of calls, and what there is to say of them.

use vstd::prelude::*;

use crate::buffer::{ApplyOutcome, BufferView};
use crate::events::{SemanticKvEventView, SEMANTIC_KV_EVENT_SCHEMA_VERSION};
use crate::protocols::{DpRank, WorkerId};
use crate::stream_map::StreamKey;

verus! {

/// One call that can change a buffer.
pub enum Call {
    /// An event is applied.
    Event(SemanticKvEventView),
    /// The buffer is seeded with these watermarks.
    Snapshot(Seq<(WorkerId, DpRank, u64)>),
    /// The invalidation of this stream is acknowledged.
    Acknowledgement(StreamKey),
}

/// The emitter stream of an event.
pub open spec fn stream_of(event: SemanticKvEventView) -> StreamKey {
    (event.worker_id, event.dp_rank)
}

/// The event has the supported schema.
pub open spec fn supported(event: SemanticKvEventView) -> bool {
    event.schema_version == SEMANTIC_KV_EVENT_SCHEMA_VERSION
}

/// An event of the supported schema leaves room for a successor, so that its stream's cursor can
/// move past it. Of an event of another schema, which is dropped, nothing is asked.
pub open spec fn receivable(event: SemanticKvEventView) -> bool {
    supported(event) ==> event.event_id < u64::MAX
}

/// The buffer takes the event into its stream, in order or past a gap.
pub open spec fn accepts(buffer: BufferView, event: SemanticKvEventView) -> bool {
    buffer.outcome(event) is Applied || buffer.outcome(event) is Gap
}

/// The stream of a watermark.
pub open spec fn watermark_key(watermark: (WorkerId, DpRank, u64)) -> StreamKey {
    (watermark.0, watermark.1)
}

/// Some watermark is for stream `key`.
pub open spec fn lists(watermarks: Seq<(WorkerId, DpRank, u64)>, key: StreamKey) -> bool {
    exists|i: int| 0 <= i < watermarks.len() && watermark_key(#[trigger] watermarks[i]) == key
}

/// The call is a snapshot that lists stream `key`.
pub open spec fn reseeds(call: Call, key: StreamKey) -> bool {
    call matches Call::Snapshot(watermarks) && lists(watermarks, key)
}

/// The call validates stream `key`: it acknowledges the stream's invalidation or seeds it anew.
pub open spec fn validates(call: Call, key: StreamKey) -> bool {
    reseeds(call, key) || call == Call::Acknowledgement(key)
}

/// The call is about stream `key`.
pub open spec fn concerns(call: Call, key: StreamKey) -> bool {
    validates(call, key) || (call matches Call::Event(event) && stream_of(event) == key)
}

/// Every event of a run can be taken.
pub open spec fn legal(calls: Seq<Call>) -> bool {
    forall|i: int|
        0 <= i < calls.len() ==> (#[trigger] calls[i] matches Call::Event(event) ==> receivable(
            event,
        ))
}

/// No call of the run is a snapshot that lists stream `key`.
pub open spec fn never_reseeded(calls: Seq<Call>, key: StreamKey) -> bool {
    forall|i: int| 0 <= i < calls.len() ==> !reseeds(#[trigger] calls[i], key)
}

/// No call from index `start` on validates stream `key`.
pub open spec fn not_validated_from(calls: Seq<Call>, key: StreamKey, start: int) -> bool {
    forall|i: int| start <= i < calls.len() ==> !validates(#[trigger] calls[i], key)
}

/// The buffer after one call.
pub open spec fn after_call(buffer: BufferView, call: Call) -> BufferView {
    match call {
        Call::Event(event) => buffer.after_event(event),
        Call::Snapshot(watermarks) => buffer.after_snapshot(watermarks),
        Call::Acknowledgement(key) => buffer.after_acknowledgement(key),
    }
}

/// The buffer after a run of calls.
pub open spec fn after_calls(buffer: BufferView, calls: Seq<Call>) -> BufferView
    decreases calls.len(),
{
    if calls.len() == 0 {
        buffer
    } else {
        after_call(after_calls(buffer, calls.drop_last()), calls.last())
    }
}

/// No call of the run seeds stream `key` anew, and no event of it is accepted.
pub open spec fn nothing_taken(buffer: BufferView, calls: Seq<Call>, key: StreamKey) -> bool {
    forall|i: int|
        0 <= i < calls.len() ==> {
            &&& !reseeds(#[trigger] calls[i], key)
            &&& calls[i] matches Call::Event(event) ==> stream_of(event) == key ==> !accepts(
                after_calls(buffer, calls.take(i)),
                event,
            )
        }
}

/// Call `i` of the run is an event of stream `key` with this id, and it was accepted.
pub open spec fn accepted_at(
    buffer: BufferView,
    calls: Seq<Call>,
    key: StreamKey,
    event_id: u64,
    i: int,
) -> bool {
    calls[i] matches Call::Event(event) && stream_of(event) == key && event.event_id == event_id
        && accepts(after_calls(buffer, calls.take(i)), event)
}

/// Call `i` of the run is the last at which the id was accepted in stream `key`.
pub open spec fn last_accepted_at(
    buffer: BufferView,
    calls: Seq<Call>,
    key: StreamKey,
    event_id: u64,
    i: int,
) -> bool {
    &&& 0 <= i < calls.len()
    &&& accepted_at(buffer, calls, key, event_id, i)
    &&& forall|j: int|
        i < j < calls.len() ==> !#[trigger] accepted_at(buffer, calls, key, event_id, j)
}

/// Call `i` of the run is an event of stream `key` that met a gap.
pub open spec fn met_gap_at(buffer: BufferView, calls: Seq<Call>, key: StreamKey, i: int) -> bool {
    calls[i] matches Call::Event(event) && stream_of(event) == key && after_calls(
        buffer,
        calls.take(i),
    ).outcome(event) is Gap
}

/// Some event of stream `key` met a gap, and no later call of the run validated the stream.
pub open spec fn gap_stands(buffer: BufferView, calls: Seq<Call>, key: StreamKey) -> bool {
    exists|i: int|
        0 <= i < calls.len() && #[trigger] met_gap_at(buffer, calls, key, i) && not_validated_from(
            calls,
            key,
            i + 1,
        )
}

/// What stream `key` would retain after a run of calls if there were no limit: what it began with
/// and the events accepted in the run, back to the latest gap or snapshot of the stream. The event
/// that revealed the gap is the first after it.
pub open spec fn backlog(buffer: BufferView, calls: Seq<Call>, key: StreamKey) -> Seq<
    SemanticKvEventView,
>
    decreases calls.len(),
{
    if calls.len() == 0 {
        buffer.stream(key).events
    } else {
        let earlier = backlog(buffer, calls.drop_last(), key);
        match calls.last() {
            Call::Event(event) => if stream_of(event) != key {
                earlier
            } else {
                match after_calls(buffer, calls.drop_last()).outcome(event) {
                    ApplyOutcome::Applied => earlier.push(event),
                    ApplyOutcome::Gap { .. } => seq![event],
                    _ => earlier,
                }
            },
            Call::Snapshot(watermarks) => if lists(watermarks, key) {
                Seq::empty()
            } else {
                earlier
            },
            Call::Acknowledgement(_) => earlier,
        }
    }
}

/// The events of stream `key` in the supported schema that a run brings, in order.
pub open spec fn arrivals(calls: Seq<Call>, key: StreamKey) -> Seq<SemanticKvEventView>
    decreases calls.len(),
{
    if calls.len() == 0 {
        Seq::empty()
    } else {
        let earlier = arrivals(calls.drop_last(), key);
        match calls.last() {
            Call::Event(event) => if stream_of(event) == key && supported(event) {
                earlier.push(event)
            } else {
                earlier
            },
            _ => earlier,
        }
    }
}

/// The ids of the events are the next ones from `next_event_id` on, one after the other.
pub open spec fn carries_on(next_event_id: u64, events: Seq<SemanticKvEventView>) -> bool {
    forall|i: int|
        0 <= i < events.len() ==> (#[trigger] events[i]).event_id == next_event_id + i
}

} // verus!
