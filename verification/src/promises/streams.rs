//! What a reader of a run's event stream gets.
use vstd::prelude::*;
use crate::events;
use crate::events::{EventModel, FrameModel, StreamModel};
use crate::text;

verus! {

/// A recorded event is sent as it was serialised: under its own number,
/// without a name, and with its serialised form as the data.
pub proof fn an_event_is_sent_as_it_was_serialised(stream: StreamModel, event: EventModel)
    requires
        !stream.ended,
        event.data is Some,
    ensures
        events::sent_for(stream, event) matches Some(frame) && frame.id == event.seq && frame.name
            is None && frame.data == event.data->0,
{
}

/// An event without a serialised form is reported as a failure under its
/// number, and ends the stream.
pub proof fn an_event_without_a_form_is_reported(stream: StreamModel, event: EventModel)
    requires
        !stream.ended,
        event.data is None,
    ensures
        events::sent_for(stream, event) matches Some(frame) && frame.id == event.seq && frame.name
            == Some("stream_error"@) && frame.data
            == "{\"data\":{\"reason\":\"unserializable event\"},\"kind\":\"stream_error\",\"seq\":"@
            + text::decimal(event.seq as nat) + "}"@,
        events::after_event(stream, event).ended,
{
    let head = "{\"data\":{\"reason\":\""@;
    reveal_strlit("{\"data\":{\"reason\":\"");
    reveal_strlit("unserializable event");
    reveal_strlit("\"},\"kind\":\"");
    reveal_strlit("stream_error");
    reveal_strlit("\",\"seq\":");
    reveal_strlit(
        "{\"data\":{\"reason\":\"unserializable event\"},\"kind\":\"stream_error\",\"seq\":",
    );
    assert("{\"data\":{\"reason\":\""@ + "unserializable event"@ + "\"},\"kind\":\""@
        + "stream_error"@ + "\",\"seq\":"@
        =~= "{\"data\":{\"reason\":\"unserializable event\"},\"kind\":\"stream_error\",\"seq\":"@);
}

/// A stream goes on after every event but a run's last one, the report of a
/// failure, and one that could not be serialised.
pub proof fn only_last_events_end_a_stream(stream: StreamModel, event: EventModel)
    requires
        !stream.ended,
    ensures
        events::after_event(stream, event).ended <==> event.data is None || event.kind
            == "run_finished"@ || event.kind == "run_error"@ || event.kind == "run_canceled"@
            || event.kind == "run_interrupted"@ || event.kind == "stream_error"@,
        events::after_event(stream, event).last_delivered == event.seq,
        events::after_event(stream, event).marked == stream.marked,
{
}

/// Once a stream has ended nothing more is sent, by an event or by a drain,
/// and nothing about it changes.
pub proof fn an_ended_stream_is_silent(stream: StreamModel, event: EventModel, shutting_down: bool)
    requires
        stream.ended,
    ensures
        events::sent_for(stream, event) is None,
        events::after_event(stream, event) == stream,
        !events::is_marked_by(stream, shutting_down),
{
}

/// A stream starts after its resume point, neither ended nor marked, and a
/// drain marks exactly the streams that are neither.
pub proof fn a_drain_marks_open_streams_once(after_seq: u64, stream: StreamModel, draining: bool)
    ensures
        events::opened(after_seq).last_delivered == after_seq,
        !events::opened(after_seq).ended,
        !events::opened(after_seq).marked,
        events::is_marked_by(stream, draining) <==> draining && !stream.ended && !stream.marked,
{
}

/// The shutdown marker carries the number after the last one delivered and
/// says why the stream stops.
pub proof fn the_marker_says_why(last: u64)
    ensures
        ({
            let marker = events::shutdown_frame(last);
            &&& last < u64::MAX ==> marker.id == last + 1
            &&& last == u64::MAX ==> marker.id == last
            &&& marker.name == Some("shutdown"@)
            &&& marker.data
                == "{\"data\":{\"reason\":\"server is shutting down\"},\"kind\":\"shutdown\",\"seq\":"@
                + text::decimal(marker.id as nat) + "}"@
        }),
{
    reveal_strlit("{\"data\":{\"reason\":\"");
    reveal_strlit("server is shutting down");
    reveal_strlit("\"},\"kind\":\"");
    reveal_strlit("shutdown");
    reveal_strlit("\",\"seq\":");
    reveal_strlit(
        "{\"data\":{\"reason\":\"server is shutting down\"},\"kind\":\"shutdown\",\"seq\":",
    );
    assert("{\"data\":{\"reason\":\""@ + "server is shutting down"@ + "\"},\"kind\":\""@
        + "shutdown"@ + "\",\"seq\":"@
        =~= "{\"data\":{\"reason\":\"server is shutting down\"},\"kind\":\"shutdown\",\"seq\":"@);
}

/// The first `at.len()` frames stand for the events at these places of the
/// history, which are all those after `cursor`, in their order.
pub open spec fn stand_for(
    frames: Seq<FrameModel>,
    history: Seq<EventModel>,
    cursor: u64,
    at: Seq<int>,
) -> bool {
    &&& forall|i: int, j: int| 0 <= i < j < at.len() ==> #[trigger] at[i] < #[trigger] at[j]
    &&& forall|i: int|
        0 <= i < at.len() ==> 0 <= #[trigger] at[i] < history.len() && history[at[i]].seq > cursor
    &&& forall|k: int|
        0 <= k < history.len() && (#[trigger] history[k]).seq > cursor ==> at.contains(k)
    &&& frames.len() >= at.len()
    &&& forall|i: int|
        #![trigger frames[i]]
        0 <= i < at.len() ==> frames[i].id == history[at[i]].seq && (history[at[i]].data is Some
            ==> frames[i].name is None && frames[i].data == history[at[i]].data->0) && (
        history[at[i]].data is None ==> frames[i].name == Some("stream_error"@))
}

/// Where a reader starts: after its resume point, or at the beginning where
/// that point lies beyond the last event.
pub open spec fn start_of(history: Seq<EventModel>, after_seq: u64) -> u64 {
    if history.len() > 0 && after_seq <= history[history.len() - 1].seq {
        after_seq
    } else {
        0
    }
}

/// A reader that subscribes while the server drains gets every event after
/// its resume point, each as it was serialised and in order, and nothing else
/// but the shutdown marker, which is missing exactly where the last event sent
/// was a run's last one or the report of a failure. A resume point beyond the
/// history starts over.
pub proof fn a_drained_history_is_complete(history: Seq<EventModel>, after_seq: u64)
    ensures
        ({
            let frames = events::drained(history, after_seq);
            let cursor = start_of(history, after_seq);
            exists|at: Seq<int>| #[trigger]
                stand_for(frames, history, cursor, at) && ({
                    let ended = at.len() > 0 && ({
                        let kind = history[at[at.len() - 1]].kind;
                        kind == "run_finished"@ || kind == "run_error"@ || kind == "run_canceled"@
                            || kind == "run_interrupted"@ || kind == "stream_error"@
                    });
                    let last = if at.len() > 0 {
                        history[at[at.len() - 1]].seq
                    } else {
                        cursor
                    };
                    &&& ended ==> frames.len() == at.len()
                    &&& !ended ==> frames.len() == at.len() + 1 && frames[at.len() as int].name
                        == Some("shutdown"@) && frames[at.len() as int].id == (if last < u64::MAX {
                        last + 1
                    } else {
                        last as int
                    })
                })
        }),
{
    let cursor = start_of(history, after_seq);
    assert(cursor == events::clamped(history, after_seq));
    let tail = events::newer(history, cursor);
    let at = places_after(history, cursor);
    places_are_the_newer_events(history, cursor);
    let frames = events::drained(history, after_seq);
    assert forall|i: int| #![trigger frames[i]] 0 <= i < at.len() implies frames[i].id
        == history[at[i]].seq && (history[at[i]].data is Some ==> frames[i].name is None
        && frames[i].data == history[at[i]].data->0) && (history[at[i]].data is None
        ==> frames[i].name == Some("stream_error"@)) by {
        assert(tail[i] == history[at[i]]);
        assert(frames[i] == events::event_frame(tail[i]));
    }
    if at.len() > 0 {
        assert(tail.last() == history[at[at.len() - 1]]);
    }
    assert(stand_for(frames, history, cursor, at));
}

/// The places of the events after `cursor`.
spec fn places_after(history: Seq<EventModel>, cursor: u64) -> Seq<int>
    decreases history.len(),
{
    if history.len() == 0 {
        Seq::empty()
    } else {
        let front = places_after(history.drop_last(), cursor);
        if history.last().seq > cursor {
            front.push(history.len() - 1)
        } else {
            front
        }
    }
}

proof fn places_are_the_newer_events(history: Seq<EventModel>, cursor: u64)
    ensures
        ({
            let at = places_after(history, cursor);
            let tail = events::newer(history, cursor);
            &&& at.len() == tail.len()
            &&& forall|i: int, j: int| 0 <= i < j < at.len() ==> #[trigger] at[i] < #[trigger] at[j]
            &&& forall|i: int|
                0 <= i < at.len() ==> 0 <= #[trigger] at[i] < history.len() && history[at[i]].seq
                    > cursor && history[at[i]] == tail[i]
            &&& forall|k: int|
                0 <= k < history.len() && (#[trigger] history[k]).seq > cursor ==> at.contains(k)
        }),
    decreases history.len(),
{
    if history.len() > 0 {
        let front = history.drop_last();
        places_are_the_newer_events(front, cursor);
        let (at, before) = (places_after(history, cursor), places_after(front, cursor));
        assert forall|i: int| 0 <= i < at.len() implies 0 <= #[trigger] at[i] < history.len()
            && history[at[i]].seq > cursor && history[at[i]] == events::newer(
            history,
            cursor,
        )[i] by {
            if i < before.len() {
                assert(at[i] == before[i]);
                assert(front[before[i]] == history[before[i]]);
            }
        }
        assert forall|i: int, j: int| 0 <= i < j < at.len() implies #[trigger] at[i]
            < #[trigger] at[j] by {
            assert(at[i] == before[i]);
            if j < before.len() {
                assert(at[j] == before[j]);
            }
        }
        assert forall|k: int| 0 <= k < history.len() && (#[trigger] history[k]).seq
            > cursor implies at.contains(k) by {
            if k < front.len() {
                assert(front[k] == history[k]);
                let i = choose|i: int| 0 <= i < before.len() && before[i] == k;
                assert(at[i] == k);
            } else {
                assert(at[at.len() - 1] == k);
            }
        }
    }
}

} // verus!
