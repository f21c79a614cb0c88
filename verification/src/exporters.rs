//! Lifecycle events published to an external exporter when one is
//! configured: the JSON payloads are built here; the transport lives
//! outside.

use vstd::prelude::*;
use vstd::string::StringExecFns;
use crate::streams::StreamEntryState;

verus! {

/// The kinds of lifecycle events the runtime exports.
#[derive(Debug, Clone, Copy, PartialEq, Eq, Structural)]
pub enum EventType {
    StreamStartError,
    StreamFinished,
}

/// The name of each event kind.
pub open spec fn event_type_chars(t: EventType) -> Seq<char> {
    match t {
        EventType::StreamStartError => seq![
            'S', 't', 'r', 'e', 'a', 'm', 'S', 't', 'a', 'r', 't', 'E', 'r', 'r', 'o', 'r',
        ],
        EventType::StreamFinished => seq![
            'S', 't', 'r', 'e', 'a', 'm', 'F', 'i', 'n', 'i', 's', 'h', 'e', 'd',
        ],
    }
}

impl EventType {
    /// The event kind's name as exported.
    pub fn to_str(&self) -> (r: &'static str)
        ensures
            r@ == event_type_chars(*self),
    {
        match self {
            EventType::StreamStartError => {
                proof {
                    reveal_strlit("StreamStartError");
                    assert("StreamStartError"@ =~= event_type_chars(EventType::StreamStartError));
                }
                "StreamStartError"
            },
            EventType::StreamFinished => {
                proof {
                    reveal_strlit("StreamFinished");
                    assert("StreamFinished"@ =~= event_type_chars(EventType::StreamFinished));
                }
                "StreamFinished"
            },
        }
    }
}

/// The exported name of each terminal stream state.
pub open spec fn end_state_chars(s: StreamEntryState) -> Seq<char> {
    match s {
        StreamEntryState::Running => seq!['r', 'u', 'n', 'n', 'i', 'n', 'g'],
        StreamEntryState::Completed => seq![
            'c', 'o', 'm', 'p', 'l', 'e', 't', 'e', 'd',
        ],
        StreamEntryState::Error => seq!['e', 'r', 'r', 'o', 'r'],
    }
}

/// The exported name of a stream state.
pub fn end_state_str(state: StreamEntryState) -> (r: &'static str)
    ensures
        r@ == end_state_chars(state),
{
    match state {
        StreamEntryState::Running => {
            proof {
                reveal_strlit("running");
                assert("running"@ =~= end_state_chars(StreamEntryState::Running));
            }
            "running"
        },
        StreamEntryState::Completed => {
            proof {
                reveal_strlit("completed");
                assert("completed"@ =~= end_state_chars(StreamEntryState::Completed));
            }
            "completed"
        },
        StreamEntryState::Error => {
            proof {
                reveal_strlit("error");
                assert("error"@ =~= end_state_chars(StreamEntryState::Error));
            }
            "error"
        },
    }
}

/// The JSON payload of a lifecycle event, keys in lexicographic order:
/// the end state, the stream's identifier, and the event kind.
pub open spec fn spec_lifecycle_event_json(
    t: EventType,
    end_state: Seq<char>,
    stream_uuid: Seq<char>,
) -> Seq<char> {
    "{\"end_state\":\""@ + end_state + "\",\"stream_uuid\":\""@ + stream_uuid + "\",\"type\":\""@
        + event_type_chars(t) + "\"}"@
}

/// Builds the JSON payload for a lifecycle event.
pub fn lifecycle_event_json(t: EventType, end_state: &str, stream_uuid: &str) -> (r: String)
    ensures
        r@ == spec_lifecycle_event_json(t, end_state@, stream_uuid@),
{
    let mut out: String = String::from_str("{\"end_state\":\"");
    out.append(end_state);
    out.append("\",\"stream_uuid\":\"");
    out.append(stream_uuid);
    out.append("\",\"type\":\"");
    out.append(t.to_str());
    out.append("\"}");
    out
}

/// The payload of a stream-finished event.
pub fn stream_finished_event_json(stream_uuid: &str, stream_end_state: &str) -> (r: String)
    ensures
        r@ == spec_lifecycle_event_json(
            EventType::StreamFinished,
            stream_end_state@,
            stream_uuid@,
        ),
{
    lifecycle_event_json(EventType::StreamFinished, stream_end_state, stream_uuid)
}

/// The payload of a stream-start-error event; its end state is always the
/// error state.
pub fn stream_start_error_event_json(stream_uuid: &str) -> (r: String)
    ensures
        r@ == spec_lifecycle_event_json(
            EventType::StreamStartError,
            end_state_chars(StreamEntryState::Error),
            stream_uuid@,
        ),
{
    lifecycle_event_json(
        EventType::StreamStartError,
        end_state_str(StreamEntryState::Error),
        stream_uuid,
    )
}

} // verus!
