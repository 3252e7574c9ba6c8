//! Runtime events recorded while agents run.
use vstd::prelude::*;

use crate::error::opt_view;
use crate::json::{Json, JsonValue};
use crate::error::duplicate_opt;
use crate::message::{duplicate_messages, messages_view, Message, MessageView};
use crate::text::{concat_str, dec, u64_to_dec};

verus! {

/// What happened.
#[derive(Debug)]
pub enum EventKind {
    LlmRequest { messages: Vec<Message> },
    LlmResponse { message: Message },
    ToolCallStart { tool_name: String, input: JsonValue },
    ToolCallEnd { tool_name: String, output: JsonValue },
}

/// The model of an event kind.
pub ghost enum KindView {
    LlmRequest { messages: Seq<MessageView> },
    LlmResponse { message: MessageView },
    ToolCallStart { tool_name: Seq<char>, input: Json },
    ToolCallEnd { tool_name: Seq<char>, output: Json },
}

impl View for EventKind {
    type V = KindView;

    open spec fn view(&self) -> KindView {
        match self {
            EventKind::LlmRequest { messages } => KindView::LlmRequest {
                messages: messages_view(messages@),
            },
            EventKind::LlmResponse { message } => KindView::LlmResponse { message: message@ },
            EventKind::ToolCallStart { tool_name, input } => KindView::ToolCallStart {
                tool_name: tool_name@,
                input: input@,
            },
            EventKind::ToolCallEnd { tool_name, output } => KindView::ToolCallEnd {
                tool_name: tool_name@,
                output: output@,
            },
        }
    }
}

/// A recorded event.
#[derive(Debug)]
pub struct Event {
    pub event_id: String,
    pub schema_version: String,
    pub timestamp_ms: u64,
    pub session_id: Option<String>,
    pub run_id: Option<String>,
    pub correlation_id: Option<String>,
    pub causation_id: Option<String>,
    pub metadata: JsonValue,
    pub kind: EventKind,
}

/// The model of an event.
pub ghost struct EventView {
    pub event_id: Seq<char>,
    pub schema_version: Seq<char>,
    pub timestamp_ms: u64,
    pub session_id: Option<Seq<char>>,
    pub run_id: Option<Seq<char>>,
    pub correlation_id: Option<Seq<char>>,
    pub causation_id: Option<Seq<char>>,
    pub metadata: Json,
    pub kind: KindView,
}

impl View for Event {
    type V = EventView;

    open spec fn view(&self) -> EventView {
        EventView {
            event_id: self.event_id@,
            schema_version: self.schema_version@,
            timestamp_ms: self.timestamp_ms,
            session_id: opt_view(self.session_id),
            run_id: opt_view(self.run_id),
            correlation_id: opt_view(self.correlation_id),
            causation_id: opt_view(self.causation_id),
            metadata: self.metadata@,
            kind: self.kind@,
        }
    }
}

/// The models of a sequence of events.
pub open spec fn events_view(es: Seq<Event>) -> Seq<EventView> {
    es.map_values(|e: Event| e@)
}

/// The identifier of the `seq`-th event created at `timestamp_ms`: `evt-<ts>-<seq>`.
pub open spec fn event_id_spec(timestamp_ms: u64, seq: u64) -> Seq<char> {
    "evt-"@ + dec(timestamp_ms as nat) + "-"@ + dec(seq as nat)
}

impl EventKind {
    /// A deep copy of the kind.
    pub fn duplicate(&self) -> (r: EventKind)
        ensures
            r@ == self@,
    {
        match self {
            EventKind::LlmRequest { messages } => EventKind::LlmRequest {
                messages: duplicate_messages(messages),
            },
            EventKind::LlmResponse { message } => EventKind::LlmResponse { message: message.duplicate() },
            EventKind::ToolCallStart { tool_name, input } => EventKind::ToolCallStart {
                tool_name: tool_name.clone(),
                input: input.duplicate(),
            },
            EventKind::ToolCallEnd { tool_name, output } => EventKind::ToolCallEnd {
                tool_name: tool_name.clone(),
                output: output.duplicate(),
            },
        }
    }
}

impl Event {
    /// A deep copy of the event.
    pub fn duplicate(&self) -> (r: Event)
        ensures
            r@ == self@,
    {
        Event {
            event_id: self.event_id.clone(),
            schema_version: self.schema_version.clone(),
            timestamp_ms: self.timestamp_ms,
            session_id: duplicate_opt(&self.session_id),
            run_id: duplicate_opt(&self.run_id),
            correlation_id: duplicate_opt(&self.correlation_id),
            causation_id: duplicate_opt(&self.causation_id),
            metadata: self.metadata.duplicate(),
            kind: self.kind.duplicate(),
        }
    }

    /// A fresh event of schema `v1` with the given creation time and sequence number,
    /// no session, no correlation and empty metadata.
    pub fn with_identity(kind: EventKind, timestamp_ms: u64, seq: u64) -> (e: Event)
        ensures
            e@.event_id == event_id_spec(timestamp_ms, seq),
            e@.schema_version == "v1"@,
            e@.timestamp_ms == timestamp_ms,
            e@.session_id is None,
            e@.run_id is None,
            e@.correlation_id is None,
            e@.causation_id is None,
            e@.metadata == Json::Object(seq![]),
            e@.kind == kind@,
    {
        let ts = u64_to_dec(timestamp_ms);
        let sq = u64_to_dec(seq);
        let a = concat_str("evt-", ts.as_str());
        let b = concat_str(a.as_str(), "-");
        let id = concat_str(b.as_str(), sq.as_str());
        Event {
            event_id: id,
            schema_version: String::from_str("v1"),
            timestamp_ms,
            session_id: None,
            run_id: None,
            correlation_id: None,
            causation_id: None,
            metadata: JsonValue::empty_object(),
            kind,
        }
    }

    /// The same event attached to a session and run.
    pub fn with_session(self, session_id: Option<String>, run_id: Option<String>) -> (e: Event)
        ensures
            e@ == (EventView {
                session_id: opt_view(session_id),
                run_id: opt_view(run_id),
                ..self@
            }),
    {
        Event { session_id, run_id, ..self }
    }
}

} // verus!
