//! Consumer-side ordered buffer with gap detection, bounded replay and snapshot bootstrap.

use std::collections::VecDeque;

use rustc_hash::FxHashMap;
use vstd::prelude::*;

use crate::events::{
    views, SemanticKvEvent, SemanticKvEventView, SEMANTIC_KV_EVENT_SCHEMA_VERSION,
};
use crate::protocols::{DpRank, WorkerId};
use crate::stream_map::{entry, get, get_mut, StreamKey};

verus! {

/// Default per-stream retention in [`SemanticEventBuffer`].
pub const DEFAULT_SEMANTIC_EVENT_BUFFER_SIZE: usize = 1024;

/// Outcome of applying one event to a [`SemanticEventBuffer`] stream.
#[allow(inconsistent_fields)]
#[derive(Debug, Clone, Copy, PartialEq, Eq, Structural)]
pub enum ApplyOutcome {
    Applied,
    /// `event_id` below the stream cursor; already seen.
    Duplicate,
    /// Missing events: the stream's donors must be invalidated and replayed.
    Gap { expected: u64, got: u64 },
    /// Envelope of another schema; dropped, never parsed on a best-effort basis.
    VersionUnsupported { got: u16 },
}

/// What a buffer knows of one emitter stream.
#[verifier::ext_equal]
pub struct StreamView {
    /// The id that the next event of the stream must carry.
    pub next_event_id: u64,
    /// The retained events, oldest first.
    pub events: Seq<SemanticKvEventView>,
    /// A gap was seen and has not been acknowledged since.
    pub invalidated: bool,
}

/// The last `n` items of `items`, or all of them when there are fewer.
pub open spec fn last_items<T>(items: Seq<T>, n: nat) -> Seq<T> {
    if items.len() <= n {
        items
    } else {
        items.skip(items.len() - n)
    }
}

impl StreamView {
    /// A stream that expects `next_event_id` and retains nothing.
    pub open spec fn starting_at(next_event_id: u64) -> StreamView {
        StreamView { next_event_id, events: Seq::empty(), invalidated: false }
    }

    /// How the stream receives an event with this id.
    pub open spec fn outcome(self, event_id: u64) -> ApplyOutcome {
        if event_id < self.next_event_id {
            ApplyOutcome::Duplicate
        } else if event_id == self.next_event_id {
            ApplyOutcome::Applied
        } else {
            ApplyOutcome::Gap { expected: self.next_event_id, got: event_id }
        }
    }

    /// The stream after an event arrived, when it retains at most `limit` events.
    pub open spec fn after(self, event: SemanticKvEventView, limit: nat) -> StreamView {
        match self.outcome(event.event_id) {
            ApplyOutcome::Applied => StreamView {
                next_event_id: (event.event_id + 1) as u64,
                events: last_items(self.events.push(event), limit),
                invalidated: self.invalidated,
            },
            ApplyOutcome::Gap { .. } => StreamView {
                next_event_id: (event.event_id + 1) as u64,
                events: seq![event],
                invalidated: true,
            },
            _ => self,
        }
    }

    /// The ids `start_id` to `end_id` lie between the oldest and the newest retained event.
    pub open spec fn covers(self, start_id: u64, end_id: u64) -> bool {
        &&& self.events.len() > 0
        &&& self.events.first().event_id <= start_id
        &&& end_id <= self.events.last().event_id
    }

    /// The retained events whose ids lie in `[start_id, end_id]`, in order.
    pub open spec fn slice(self, start_id: u64, end_id: u64) -> Seq<SemanticKvEventView> {
        self.events.filter(|e: SemanticKvEventView| start_id <= e.event_id <= end_id)
    }

    /// What the stream replays for `[start_id, end_id]`.
    pub open spec fn replay(self, start_id: u64, end_id: u64) -> Option<Seq<SemanticKvEventView>> {
        if !self.invalidated && self.covers(start_id, end_id) {
            Some(self.slice(start_id, end_id))
        } else {
            None
        }
    }

    /// The retained events are events of stream `key` in the supported schema, at most `limit`,
    /// with consecutive ids that end just below the cursor; an invalidated stream retains at least
    /// the event that revealed the gap.
    pub open spec fn wf(self, key: StreamKey, limit: nat) -> bool {
        &&& self.events.len() <= limit
        &&& forall|i: int| 0 <= i < self.events.len() ==> {
            let e = #[trigger] self.events[i];
            &&& e.event_id == self.next_event_id - self.events.len() + i
            &&& e.schema_version == SEMANTIC_KV_EVENT_SCHEMA_VERSION
            &&& (e.worker_id, e.dp_rank) == key
        }
        &&& self.invalidated ==> self.events.len() > 0
    }
}

/// A [`SemanticEventBuffer`] as a mathematical value.
#[verifier::ext_equal]
pub struct BufferView {
    pub max_events_per_stream: nat,
    /// The streams that the buffer has heard of.
    pub streams: Map<StreamKey, StreamView>,
}

impl BufferView {
    /// A buffer that has heard of no stream.
    pub open spec fn empty(max_events_per_stream: nat) -> BufferView {
        BufferView { max_events_per_stream, streams: Map::empty() }
    }

    /// The stream `key`; one not heard of yet expects event 0.
    pub open spec fn stream(self, key: StreamKey) -> StreamView {
        if self.streams.contains_key(key) {
            self.streams[key]
        } else {
            StreamView::starting_at(0)
        }
    }

    /// The buffer with stream `key` replaced.
    pub open spec fn with_stream(self, key: StreamKey, stream: StreamView) -> BufferView {
        BufferView { streams: self.streams.insert(key, stream), ..self }
    }

    /// How the buffer receives `event`.
    pub open spec fn outcome(self, event: SemanticKvEventView) -> ApplyOutcome {
        if event.schema_version != SEMANTIC_KV_EVENT_SCHEMA_VERSION {
            ApplyOutcome::VersionUnsupported { got: event.schema_version }
        } else {
            self.stream((event.worker_id, event.dp_rank)).outcome(event.event_id)
        }
    }

    /// The buffer after `event` arrived.
    pub open spec fn after_event(self, event: SemanticKvEventView) -> BufferView {
        let key = (event.worker_id, event.dp_rank);
        if event.schema_version != SEMANTIC_KV_EVENT_SCHEMA_VERSION {
            self
        } else {
            self.with_stream(key, self.stream(key).after(event, self.max_events_per_stream))
        }
    }

    /// The buffer after it was seeded with snapshot watermarks, in order: each names a stream and
    /// the event id to resume it from.
    pub open spec fn after_snapshot(self, watermarks: Seq<(WorkerId, DpRank, u64)>) -> BufferView
        decreases watermarks.len(),
    {
        if watermarks.len() == 0 {
            self
        } else {
            let (worker_id, dp_rank, next_event_id) = watermarks.last();
            self.after_snapshot(watermarks.drop_last()).with_stream(
                (worker_id, dp_rank),
                StreamView::starting_at(next_event_id),
            )
        }
    }

    /// The buffer after the consumer acknowledged the invalidation of stream `key`.
    pub open spec fn after_acknowledgement(self, key: StreamKey) -> BufferView {
        if self.streams.contains_key(key) {
            self.with_stream(key, StreamView { invalidated: false, ..self.streams[key] })
        } else {
            self
        }
    }

    /// What the buffer replays of stream `key` for `[start_id, end_id]`: nothing at all while the
    /// stream is invalidated; otherwise an empty range is empty, and any other is up to the stream.
    pub open spec fn replay(self, key: StreamKey, start_id: u64, end_id: u64) -> Option<
        Seq<SemanticKvEventView>,
    > {
        if self.stream(key).invalidated {
            None
        } else if start_id > end_id {
            Some(Seq::empty())
        } else {
            self.stream(key).replay(start_id, end_id)
        }
    }

    /// At least one event is retained per stream, and every stream is well-formed.
    pub open spec fn wf(self) -> bool {
        &&& self.max_events_per_stream >= 1
        &&& forall|key: StreamKey| #[trigger]
            self.streams.contains_key(key) ==> self.streams[key].wf(key, self.max_events_per_stream)
    }
}

#[derive(Debug)]
struct StreamState {
    next_event_id: u64,
    events: VecDeque<SemanticKvEvent>,
    /// Set on a gap; cleared by [`SemanticEventBuffer::acknowledge_invalidation`] once the consumer
    /// has dropped the stream's donors and replayed.
    invalidated: bool,
}

impl View for StreamState {
    type V = StreamView;

    closed spec fn view(&self) -> StreamView {
        StreamView {
            next_event_id: self.next_event_id,
            events: views(self.events@),
            invalidated: self.invalidated,
        }
    }
}

impl Default for StreamState {
    fn default() -> (stream: Self)
        ensures
            stream@ == StreamView::starting_at(0),
    {
        StreamState { next_event_id: 0, events: VecDeque::new(), invalidated: false }
    }
}

impl StreamState {
    /// Receives one event and retains at most `limit`.
    fn receive(&mut self, event: SemanticKvEvent, limit: usize) -> (outcome: ApplyOutcome)
        requires
            event.event_id < u64::MAX,
        ensures
            outcome == old(self)@.outcome(event.event_id),
            final(self)@ == old(self)@.after(event@, limit as nat),
    {
        let event_id: u64 = event.event_id;
        if event_id < self.next_event_id {
            return ApplyOutcome::Duplicate;
        }
        if event_id > self.next_event_id {
            let expected: u64 = self.next_event_id;
            // Resynchronize past the gap; the consumer must drop this stream's donors and replay
            // (or take a new snapshot) before trusting it again.
            self.invalidated = true;
            self.events.clear();
            self.next_event_id = event_id + 1;
            self.events.push_back(event);
            assert(self@.events =~= seq![event@]);
            return ApplyOutcome::Gap { expected, got: event_id };
        }
        self.next_event_id = event_id + 1;
        self.events.push_back(event);
        let ghost pushed = self.events@;
        let ghost resumed = *self;
        while self.events.len() > limit
            invariant
                self.events@.len() <= pushed.len(),
                self.events@ == pushed.skip(pushed.len() - self.events@.len()),
                self.events@.len() == pushed.len() || self.events@.len() >= limit,
                self.next_event_id == resumed.next_event_id,
                self.invalidated == resumed.invalidated,
            decreases self.events@.len(),
        {
            let _ = self.events.pop_front();
        }
        assert(self@.events =~= last_items(old(self)@.events.push(event@), limit as nat));
        ApplyOutcome::Applied
    }

    /// The retained events with ids in `[start_id, end_id]`, unless the stream is invalidated or
    /// does not retain the whole range.
    fn replay(&self, start_id: u64, end_id: u64) -> (events: Option<Vec<SemanticKvEvent>>)
        ensures
            match events {
                Some(list) => self@.replay(start_id, end_id) == Some(views(list@)),
                None => self@.replay(start_id, end_id) is None,
            },
    {
        if self.invalidated || self.events.len() == 0 {
            return None;
        }
        let oldest: u64 = self.events[0].event_id;
        let newest: u64 = self.events[self.events.len() - 1].event_id;
        if start_id < oldest || end_id > newest {
            return None;
        }
        let ghost in_range = |e: SemanticKvEventView| start_id <= e.event_id <= end_id;
        let mut list: Vec<SemanticKvEvent> = Vec::new();
        let mut i: usize = 0;
        while i < self.events.len()
            invariant
                i <= self.events@.len(),
                in_range == |e: SemanticKvEventView| start_id <= e.event_id <= end_id,
                views(list@) == self@.events.take(i as int).filter(in_range),
            decreases self.events@.len() - i,
        {
            let event = &self.events[i];
            if event.event_id >= start_id && event.event_id <= end_id {
                list.push(event.clone());
            }
            proof {
                let seen = self@.events.take(i + 1);
                assert(seen.drop_last() =~= self@.events.take(i as int));
                assert(seen.last() == event@);
                reveal(Seq::filter);
                assert(views(list@) =~= seen.filter(in_range));
            }
            i = i + 1;
        }
        assert(self@.events.take(i as int) =~= self@.events);
        Some(list)
    }
}

/// Consumer-side ordered buffer with gap detection, bounded replay and snapshot bootstrap, after
/// the exact plane's local indexer.
#[derive(Debug)]
pub struct SemanticEventBuffer {
    max_events_per_stream: usize,
    streams: FxHashMap<StreamKey, StreamState>,
}

impl View for SemanticEventBuffer {
    type V = BufferView;

    closed spec fn view(&self) -> BufferView {
        BufferView {
            max_events_per_stream: self.max_events_per_stream as nat,
            streams: self.streams@.map_values(|stream: StreamState| stream@),
        }
    }
}

impl SemanticEventBuffer {
    /// An empty buffer that retains `max_events_per_stream` events of each stream, or one where
    /// that is 0.
    pub fn new(max_events_per_stream: usize) -> (buffer: Self)
        ensures
            buffer@.max_events_per_stream == if max_events_per_stream == 0 {
                1
            } else {
                max_events_per_stream as nat
            },
            buffer@.streams == Map::<StreamKey, StreamView>::empty(),
            buffer@ == BufferView::empty(
                if max_events_per_stream == 0 {
                    1
                } else {
                    max_events_per_stream as nat
                },
            ),
            buffer@.wf(),
    {
        let buffer = SemanticEventBuffer {
            max_events_per_stream: if max_events_per_stream < 1 {
                1
            } else {
                max_events_per_stream
            },
            streams: FxHashMap::default(),
        };
        assert(buffer@.streams =~= Map::empty());
        buffer
    }

    /// Applies one event in arrival order.
    pub fn apply(&mut self, event: SemanticKvEvent) -> (outcome: ApplyOutcome)
        requires
            event.schema_version == SEMANTIC_KV_EVENT_SCHEMA_VERSION ==> event.event_id < u64::MAX,
        ensures
            outcome == old(self)@.outcome(event@),
            final(self)@ == old(self)@.after_event(event@),
            old(self)@.wf() ==> final(self)@.wf(),
    {
        if event.schema_version != SEMANTIC_KV_EVENT_SCHEMA_VERSION {
            return ApplyOutcome::VersionUnsupported { got: event.schema_version };
        }
        let ghost arrived = event@;
        let key: StreamKey = (event.worker_id, event.dp_rank);
        let stream = entry(&mut self.streams, key).or_insert(StreamState::default());
        let outcome = stream.receive(event, self.max_events_per_stream);
        assert(self@.streams =~= old(self)@.after_event(arrived).streams);
        outcome
    }

    /// Seeds a freshly started consumer from a producer snapshot: the current live donor events
    /// and, per emitter stream, the event id to resume tailing from (the snapshot watermark plus
    /// one). Hands the donor events back, for the caller to load into its catalog.
    pub fn apply_snapshot(
        &mut self,
        watermarks: Vec<(WorkerId, DpRank, u64)>,
        donors: Vec<SemanticKvEvent>,
    ) -> (loaded: Vec<SemanticKvEvent>)
        ensures
            loaded == donors,
            final(self)@ == old(self)@.after_snapshot(watermarks@),
            old(self)@.wf() ==> final(self)@.wf(),
    {
        let ghost before = self@;
        let mut i: usize = 0;
        while i < watermarks.len()
            invariant
                i <= watermarks@.len(),
                self@ == before.after_snapshot(watermarks@.take(i as int)),
            decreases watermarks@.len() - i,
        {
            let (worker_id, dp_rank, next_event_id) = watermarks[i];
            let key: StreamKey = (worker_id, dp_rank);
            let ghost seeded = self@;
            let stream = entry(&mut self.streams, key).or_insert(StreamState::default());
            stream.next_event_id = next_event_id;
            stream.invalidated = false;
            stream.events.clear();
            assert(stream@.events =~= Seq::empty());
            assert(self@.streams =~= seeded.with_stream(
                key,
                StreamView::starting_at(next_event_id),
            ).streams);
            assert(watermarks@.take(i + 1).drop_last() =~= watermarks@.take(i as int));
            i = i + 1;
        }
        assert(watermarks@.take(i as int) =~= watermarks@);
        proof {
            if before.wf() {
                crate::laws::snapshot_keeps_the_invariant(before, watermarks@);
            }
        }
        donors
    }

    /// Whether the stream saw a gap and has not been acknowledged since.
    pub fn is_invalidated(&self, worker_id: WorkerId, dp_rank: DpRank) -> (invalidated: bool)
        ensures
            invalidated == self@.stream((worker_id, dp_rank)).invalidated,
    {
        match get(&self.streams, (worker_id, dp_rank)) {
            Some(stream) => stream.invalidated,
            None => false,
        }
    }

    /// Consumer signal that it has dropped the stream's donors and replayed.
    pub fn acknowledge_invalidation(&mut self, worker_id: WorkerId, dp_rank: DpRank)
        ensures
            final(self)@ == old(self)@.after_acknowledgement((worker_id, dp_rank)),
            old(self)@.wf() ==> final(self)@.wf(),
    {
        let key: StreamKey = (worker_id, dp_rank);
        if let Some(stream) = get_mut(&mut self.streams, key) {
            stream.invalidated = false;
        }
        assert(self@.streams =~= old(self)@.after_acknowledgement(key).streams);
    }

    /// Buffered events with ids in `[start_id, end_id]`, or `None` when the range is not fully
    /// buffered or the stream is invalidated; callers must then take a new snapshot from the
    /// emitter. An empty range of a stream that is not invalidated is fully buffered.
    pub fn events_in_id_range(
        &self,
        worker_id: WorkerId,
        dp_rank: DpRank,
        start_id: u64,
        end_id: u64,
    ) -> (events: Option<Vec<SemanticKvEvent>>)
        ensures
            match events {
                Some(list) => {
                    self@.replay((worker_id, dp_rank), start_id, end_id) == Some(views(list@))
                },
                None => self@.replay((worker_id, dp_rank), start_id, end_id) is None,
            },
    {
        let found = get(&self.streams, (worker_id, dp_rank));
        if let Some(stream) = found {
            if stream.invalidated {
                return None;
            }
        }
        if start_id > end_id {
            let empty: Vec<SemanticKvEvent> = Vec::new();
            assert(views(empty@) =~= Seq::empty());
            return Some(empty);
        }
        match found {
            Some(stream) => stream.replay(start_id, end_id),
            None => None,
        }
    }
}

impl Default for SemanticEventBuffer {
    /// An empty buffer with the default retention.
    fn default() -> (buffer: Self)
        ensures
            buffer@.max_events_per_stream == DEFAULT_SEMANTIC_EVENT_BUFFER_SIZE,
            buffer@.streams == Map::<StreamKey, StreamView>::empty(),
            buffer@ == BufferView::empty(DEFAULT_SEMANTIC_EVENT_BUFFER_SIZE as nat),
            buffer@.wf(),
    {
        SemanticEventBuffer::new(DEFAULT_SEMANTIC_EVENT_BUFFER_SIZE)
    }
}

} // verus!
