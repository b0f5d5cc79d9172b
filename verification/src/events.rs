//! The event stream of a run: where a reader resumes, which event ends the
//! stream, and how a drain is told apart from a truncation.
use vstd::prelude::*;
use vstd::string::*;
use crate::auth;
use crate::error;
use crate::error::ApiHttpError;
use crate::header;
use crate::text;

verus! {

/// The kinds of event after which a run records nothing more.
pub open spec fn is_terminal_kind(kind: Seq<char>) -> bool {
    kind == "run_finished"@ || kind == "run_error"@ || kind == "run_canceled"@ || kind
        == "run_interrupted"@
}

pub fn is_terminal_event_kind(kind: &str) -> (r: bool)
    ensures
        r == is_terminal_kind(kind@),
{
    text::same_text(kind, "run_finished") || text::same_text(kind, "run_error") || text::same_text(
        kind,
        "run_canceled",
    ) || text::same_text(kind, "run_interrupted")
}

/// An event that ends a stream after its delivery: a run's last event, or the
/// report of a failure.
pub open spec fn ends_stream(kind: Seq<char>) -> bool {
    is_terminal_kind(kind) || kind == "stream_error"@
}

fn is_end(kind: &str) -> (r: bool)
    ensures
        r == ends_stream(kind@),
{
    is_terminal_event_kind(kind) || text::same_text(kind, "stream_error")
}

/// A recorded event.
#[derive(Debug)]
pub struct RunEvent {
    pub seq: u64,
    pub kind: String,
    /// Its serialised form; `None` where it has none.
    pub data: Option<String>,
}

/// The same, as values.
pub struct EventModel {
    pub seq: u64,
    pub kind: Seq<char>,
    pub data: Option<Seq<char>>,
}

impl View for RunEvent {
    type V = EventModel;

    open spec fn view(&self) -> EventModel {
        EventModel { seq: self.seq, kind: self.kind@, data: self.data.deep_view() }
    }
}

/// What is sent for an event.
#[derive(Debug)]
pub struct Frame {
    pub id: u64,
    pub name: Option<&'static str>,
    pub data: String,
}

/// The same, as values.
pub struct FrameModel {
    pub id: u64,
    pub name: Option<Seq<char>>,
    pub data: Seq<char>,
}

impl View for Frame {
    type V = FrameModel;

    open spec fn view(&self) -> FrameModel {
        FrameModel {
            id: self.id,
            name: match self.name {
                Some(name) => Some(name@),
                None => None,
            },
            data: self.data@,
        }
    }
}

/// The document of an event that the server itself reports.
pub open spec fn report_document(seq: u64, kind: Seq<char>, reason: Seq<char>) -> Seq<char> {
    "{\"data\":{\"reason\":\""@ + reason + "\"},\"kind\":\""@ + kind + "\",\"seq\":"@
        + text::decimal(seq as nat) + "}"@
}

/// An event that the server itself reports.
pub open spec fn report_frame(seq: u64, kind: Seq<char>, reason: Seq<char>) -> FrameModel {
    FrameModel { id: seq, name: Some(kind), data: report_document(seq, kind, reason) }
}

fn report(seq: u64, kind: &'static str, reason: &str) -> (r: Frame)
    ensures
        r@ == report_frame(seq, kind@, reason@),
{
    let mut data = "{\"data\":{\"reason\":\"".to_owned();
    data.append(reason);
    data.append("\"},\"kind\":\"");
    data.append(kind);
    data.append("\",\"seq\":");
    text::push_decimal(&mut data, seq);
    data.append("}");
    Frame { id: seq, name: Some(kind), data }
}

/// What is sent for a recorded event; one that cannot be serialised is
/// reported as a failure in its place.
pub open spec fn event_frame(event: EventModel) -> FrameModel {
    match event.data {
        Some(data) => FrameModel { id: event.seq, name: None, data },
        None => report_frame(event.seq, "stream_error"@, "unserializable event"@),
    }
}

fn frame_of(event: &RunEvent) -> (r: Frame)
    ensures
        r@ == event_frame(event@),
{
    match &event.data {
        Some(data) => Frame { id: event.seq, name: None, data: data.clone() },
        None => report(event.seq, "stream_error", "unserializable event"),
    }
}

/// The last event of a stream that ends because the server drains. It carries
/// the number after the last one delivered.
pub open spec fn shutdown_frame(last_delivered: u64) -> FrameModel {
    report_frame(
        if last_delivered < u64::MAX {
            (last_delivered + 1) as u64
        } else {
            u64::MAX
        },
        "shutdown"@,
        "server is shutting down"@,
    )
}

fn shutdown_report(last_delivered: u64) -> (r: Frame)
    ensures
        r@ == shutdown_frame(last_delivered),
{
    let seq: u64 = if last_delivered < u64::MAX { last_delivered + 1 } else { u64::MAX };
    report(seq, "shutdown", "server is shutting down")
}

/// The number after which a reader resumes: an unsigned integer, white space
/// round it ignored. Without one the stream starts at the beginning.
pub open spec fn resume_point(value: Option<Seq<u8>>) -> Result<u64, Seq<char>> {
    match value {
        None => Ok(0),
        Some(bytes) => if !header::all_visible(bytes) {
            Err("Last-Event-ID must be valid ASCII"@)
        } else {
            let cursor = text::trimmed(header::ascii_text(bytes));
            if cursor.len() == 0 {
                Ok(0)
            } else {
                match text::unsigned_value(cursor, u64::MAX as nat) {
                    Some(seq) => Ok(seq as u64),
                    None => Err("Last-Event-ID must be an unsigned integer"@),
                }
            }
        },
    }
}

/// Parses the value of `Last-Event-ID`.
pub fn parse_last_event_id(value: Option<&[u8]>) -> (r: Result<u64, ApiHttpError>)
    ensures
        match r {
            Ok(seq) => resume_point(auth::bytes_view(value)) == Ok::<_, Seq<char>>(seq),
            Err(refusal) => resume_point(auth::bytes_view(value)) matches Err(detail) && refusal@
                == error::bad_request_problem(detail),
        },
{
    let bytes = match value {
        None => {
            return Ok(0);
        },
        Some(bytes) => bytes,
    };
    let raw = match header::header_text(bytes) {
        Some(raw) => raw,
        None => {
            return Err(
                ApiHttpError::bad_request("Last-Event-ID must be valid ASCII".to_owned()),
            );
        },
    };
    let cursor = text::trim(raw.as_str());
    if cursor.as_str().is_empty() {
        return Ok(0);
    }
    match text::parse_unsigned(cursor.as_str(), u64::MAX) {
        Some(seq) => Ok(seq),
        None => Err(
            ApiHttpError::bad_request("Last-Event-ID must be an unsigned integer".to_owned()),
        ),
    }
}

/// How far a live stream has come, as values.
pub struct StreamModel {
    pub last_delivered: u64,
    /// An event was delivered that ends the stream.
    pub ended: bool,
    /// The shutdown marker was sent.
    pub marked: bool,
}

/// How far a live stream has come.
#[derive(Debug)]
pub struct EventStream {
    last_delivered: u64,
    ended: bool,
    marked: bool,
}

impl View for EventStream {
    type V = StreamModel;

    closed spec fn view(&self) -> StreamModel {
        StreamModel {
            last_delivered: self.last_delivered,
            ended: self.ended,
            marked: self.marked,
        }
    }
}

/// A stream that resumes after `after_seq`.
pub open spec fn opened(after_seq: u64) -> StreamModel {
    StreamModel { last_delivered: after_seq, ended: false, marked: false }
}

/// The stream after an event arrived.
pub open spec fn after_event(stream: StreamModel, event: EventModel) -> StreamModel {
    if stream.ended {
        stream
    } else {
        StreamModel {
            last_delivered: event.seq,
            ended: ends_stream(event.kind) || event.data is None,
            ..stream
        }
    }
}

/// What is sent when an event arrives: nothing once the stream has ended.
pub open spec fn sent_for(stream: StreamModel, event: EventModel) -> Option<FrameModel> {
    if stream.ended {
        None
    } else {
        Some(event_frame(event))
    }
}

/// Whether a stream that stops now stops with a shutdown marker.
pub open spec fn is_marked_by(stream: StreamModel, shutting_down: bool) -> bool {
    shutting_down && !stream.ended && !stream.marked
}

/// An optional frame, as values.
pub open spec fn frame_view(frame: Option<Frame>) -> Option<FrameModel> {
    match frame {
        Some(frame) => Some(frame@),
        None => None,
    }
}

impl EventStream {
    /// A live stream for a reader that resumes after `after_seq`.
    pub fn new(after_seq: u64) -> (r: Self)
        ensures
            r@ == opened(after_seq),
    {
        EventStream { last_delivered: after_seq, ended: false, marked: false }
    }

    /// Takes the next recorded event. `None` closes the stream.
    pub fn deliver(&mut self, event: &RunEvent) -> (r: Option<Frame>)
        ensures
            final(self)@ == after_event(old(self)@, event@),
            frame_view(r) == sent_for(old(self)@, event@),
    {
        if self.ended {
            return None;
        }
        self.ended = is_end(event.kind.as_str()) || event.data.is_none();
        self.last_delivered = event.seq;
        Some(frame_of(event))
    }

    /// What is sent when no more events come: where the server drains, one
    /// marker, unless an event has ended the stream already.
    pub fn close(&mut self, shutting_down: bool) -> (r: Option<Frame>)
        ensures
            is_marked_by(old(self)@, shutting_down) ==> frame_view(r) == Some(
                shutdown_frame(old(self)@.last_delivered),
            ) && final(self)@ == (StreamModel { marked: true, ..old(self)@ }),
            !is_marked_by(old(self)@, shutting_down) ==> r is None && final(self)@ == old(self)@,
    {
        if self.marked || !shutting_down || self.ended {
            return None;
        }
        self.marked = true;
        Some(shutdown_report(self.last_delivered))
    }
}

/// The events, as values.
pub open spec fn event_views(events: Seq<RunEvent>) -> Seq<EventModel> {
    events.map_values(|e: RunEvent| e@)
}

/// The number of the last event of a history; zero without one.
pub open spec fn last_seq(history: Seq<EventModel>) -> u64 {
    if history.len() == 0 {
        0
    } else {
        history.last().seq
    }
}

/// A resume point beyond the history starts over.
pub open spec fn clamped(history: Seq<EventModel>, after_seq: u64) -> u64 {
    if after_seq > last_seq(history) {
        0
    } else {
        after_seq
    }
}

/// The events after a resume point, in their order.
pub open spec fn newer(history: Seq<EventModel>, cursor: u64) -> Seq<EventModel>
    decreases history.len(),
{
    if history.len() == 0 {
        Seq::empty()
    } else if history.last().seq > cursor {
        newer(history.drop_last(), cursor).push(history.last())
    } else {
        newer(history.drop_last(), cursor)
    }
}

/// What a reader gets that subscribes while the server drains: the history
/// after its resume point, and the shutdown marker unless the last event has
/// ended the stream.
pub open spec fn drained(history: Seq<EventModel>, after_seq: u64) -> Seq<FrameModel> {
    let cursor = clamped(history, after_seq);
    let tail = newer(history, cursor);
    let frames = tail.map_values(|e: EventModel| event_frame(e));
    if tail.len() > 0 && ends_stream(tail.last().kind) {
        frames
    } else {
        frames.push(
            shutdown_frame(
                if tail.len() > 0 {
                    tail.last().seq
                } else {
                    cursor
                },
            ),
        )
    }
}

/// The frames, as values.
pub open spec fn frame_views(frames: Seq<Frame>) -> Seq<FrameModel> {
    frames.map_values(|f: Frame| f@)
}

/// Serves a subscription while the server drains, from the history alone.
pub fn drain_frames(history: &Vec<RunEvent>, after_seq: u64) -> (r: Vec<Frame>)
    ensures
        frame_views(r@) == drained(event_views(history@), after_seq),
{
    let ghost all = event_views(history@);
    let last: u64 = if history.len() == 0 { 0 } else { history[history.len() - 1].seq };
    let cursor: u64 = if after_seq > last { 0 } else { after_seq };
    let mut frames: Vec<Frame> = Vec::new();
    let mut delivered: u64 = cursor;
    let mut ended = false;
    let mut i: usize = 0;
    let ghost mut tail: Seq<EventModel> = Seq::empty();
    assert(all.take(0) == Seq::<EventModel>::empty());
    assert(frame_views(frames@) =~= tail.map_values(|e: EventModel| event_frame(e)));
    while i < history.len()
        invariant
            i <= history@.len(),
            all == event_views(history@),
            tail == newer(all.take(i as int), cursor),
            frame_views(frames@) == tail.map_values(|e: EventModel| event_frame(e)),
            delivered == (if tail.len() > 0 {
                tail.last().seq
            } else {
                cursor
            }),
            ended == (tail.len() > 0 && ends_stream(tail.last().kind)),
        decreases history.len() - i,
    {
        let event = &history[i];
        assert(all.take(i + 1).drop_last() == all.take(i as int));
        assert(all.take(i + 1).last() == event@);
        if event.seq > cursor {
            let ghost before = frame_views(frames@);
            let ghost front = tail;
            let frame = frame_of(event);
            let ghost sent = frame@;
            frames.push(frame);
            delivered = event.seq;
            ended = is_end(event.kind.as_str());
            proof {
                tail = front.push(event@);
                assert(frame_views(frames@) =~= before.push(sent));
                assert(tail.map_values(|e: EventModel| event_frame(e)) =~= front.map_values(
                    |e: EventModel| event_frame(e),
                ).push(event_frame(event@)));
            }
        }
        i += 1;
    }
    assert(all.take(all.len() as int) == all);
    if !ended {
        let ghost before = frame_views(frames@);
        let marker = shutdown_report(delivered);
        let ghost sent = marker@;
        frames.push(marker);
        assert(frame_views(frames@) =~= before.push(sent));
    }
    frames
}

/// The stream after a run of events.
pub open spec fn after_events(stream: StreamModel, events: Seq<EventModel>) -> StreamModel
    decreases events.len(),
{
    if events.len() == 0 {
        stream
    } else {
        after_event(after_events(stream, events.drop_last()), events.last())
    }
}

/// Nothing follows an event that ends a stream, however many events still
/// arrive: they are not sent, and no shutdown marker is.
pub proof fn an_ended_stream_stays_ended(
    stream: StreamModel,
    events: Seq<EventModel>,
    event: EventModel,
    shutting_down: bool,
)
    requires
        stream.ended,
    ensures
        after_events(stream, events) == stream,
        sent_for(after_events(stream, events), event) is None,
        !is_marked_by(after_events(stream, events), shutting_down),
    decreases events.len(),
{
    if events.len() > 0 {
        an_ended_stream_stays_ended(stream, events.drop_last(), event, shutting_down);
    }
}

/// A reader can tell a drain from a truncation: a stream in which no event was
/// an end stops with a shutdown marker exactly when the server drains.
pub proof fn a_drain_is_marked(after_seq: u64, events: Seq<EventModel>, shutting_down: bool)
    requires
        forall|i: int|
            0 <= i < events.len() ==> !ends_stream((#[trigger] events[i]).kind)
                && events[i].data is Some,
    ensures
        !after_events(opened(after_seq), events).ended,
        is_marked_by(after_events(opened(after_seq), events), shutting_down) == shutting_down,
        after_events(opened(after_seq), events).last_delivered == (if events.len() > 0 {
            events.last().seq
        } else {
            after_seq
        }),
    decreases events.len(),
{
    if events.len() > 0 {
        let front = events.drop_last();
        assert forall|i: int| 0 <= i < front.len() implies !ends_stream((#[trigger] front[i]).kind)
            && front[i].data is Some by {
            assert(front[i] == events[i]);
        }
        a_drain_is_marked(after_seq, front, shutting_down);
        assert(events.last() == events[events.len() - 1]);
    }
}

/// The shutdown marker is sent at most once.
pub proof fn the_marker_is_sent_once(stream: StreamModel, shutting_down: bool)
    requires
        is_marked_by(stream, shutting_down),
    ensures
        !is_marked_by(StreamModel { marked: true, ..stream }, shutting_down),
{
}

/// A resumed reader sees every event after its resume point, and none at or
/// before it.
pub proof fn resuming_skips_what_was_seen(history: Seq<EventModel>, cursor: u64)
    ensures
        forall|i: int| 0 <= i < newer(history, cursor).len() ==> (#[trigger] newer(history, cursor)[i]).seq > cursor,
        forall|e: EventModel| #[trigger]
            history.contains(e) && e.seq > cursor ==> newer(history, cursor).contains(e),
    decreases history.len(),
{
    if history.len() > 0 {
        let front = history.drop_last();
        resuming_skips_what_was_seen(front, cursor);
        assert forall|e: EventModel| #[trigger] history.contains(e) && e.seq > cursor implies newer(
            history,
            cursor,
        ).contains(e) by {
            let i = choose|i: int| 0 <= i < history.len() && history[i] == e;
            if i < front.len() {
                assert(front[i] == e);
                assert(front.contains(e));
                let kept = newer(front, cursor);
                let j = choose|j: int| 0 <= j < kept.len() && kept[j] == e;
                assert(newer(history, cursor)[j] == e);
            } else {
                let all = newer(history, cursor);
                assert(all[all.len() - 1] == e);
            }
        }
    }
}

} // verus!
