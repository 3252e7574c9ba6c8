//! What the runtime records and answers when it executes a task's target: the agent, an
//! MCP tool or a remote A2A agent.
use vstd::prelude::*;

use crate::a2a::{card_json, AgentCard};
use crate::event::{events_view, Event, EventKind, EventView, KindView};
use crate::json::{get_spec, json_text, lemma_items_view, lemma_members_view, Json, JsonValue};
use crate::message::text_content_spec;
use crate::text::{concat_str, is_blank, trim, views};

verus! {

/// The texts of the model's answers among the events, joined in order.
pub open spec fn response_texts(es: Seq<EventView>) -> Seq<char>
    decreases es.len(),
{
    if es.len() == 0 {
        seq![]
    } else {
        response_texts(es.drop_last()) + match es.last().kind {
            KindView::LlmResponse { message } => match text_content_spec(message) {
                Some(t) => t,
                None => seq![],
            },
            _ => seq![],
        }
    }
}

/// The output of the last tool call among the events.
pub open spec fn last_tool_output(es: Seq<EventView>) -> Option<Json>
    decreases es.len(),
{
    if es.len() == 0 {
        None
    } else {
        match es.last().kind {
            KindView::ToolCallEnd { output, .. } => Some(output),
            _ => last_tool_output(es.drop_last()),
        }
    }
}

/// The output of an agent task: the texts of the model's answers; when they are blank,
/// the JSON text of the last tool output (or nothing).
pub open spec fn agent_output_spec(es: Seq<EventView>) -> Seq<char> {
    let out = response_texts(es);
    if trim(out).len() == 0 {
        match last_tool_output(es) {
            Some(v) => json_text(v),
            None => seq![],
        }
    } else {
        out
    }
}

/// The output of an agent task from the events of its run; see [`agent_output_spec`].
pub fn agent_task_output(events: &Vec<Event>) -> (s: String)
    ensures
        s@ == agent_output_spec(events_view(events@)),
{
    let ghost es = events_view(events@);
    let mut output = String::new();
    let mut last: Option<&JsonValue> = None;
    let mut i: usize = 0;
    while i < events.len()
        invariant
            i <= events@.len(),
            es == events_view(events@),
            output@ == response_texts(es.take(i as int)),
            match last {
                Some(v) => last_tool_output(es.take(i as int)) == Some(v@),
                None => last_tool_output(es.take(i as int)) is None,
            },
        decreases events@.len() - i,
    {
        let e = &events[i];
        proof {
            assert(es.take(i + 1).drop_last() =~= es.take(i as int));
            assert(es.take(i + 1).last() == e@);
        }
        match &e.kind {
            EventKind::LlmResponse { message } => {
                if let Some(text) = message.text_content() {
                    output.append(text.as_str());
                }
            },
            EventKind::ToolCallEnd { output: tool_output, .. } => {
                last = Some(tool_output);
            },
            _ => {},
        }
        i = i + 1;
    }
    assert(es.take(i as int) =~= es);
    if is_blank(output.as_str()) {
        match last {
            Some(v) => v.to_json_string(),
            None => String::new(),
        }
    } else {
        output
    }
}

/// The output of an MCP task: the JSON text of the answer's `content`, or of the whole
/// answer when it has none.
pub open spec fn mcp_output_spec(response: Json) -> Seq<char> {
    match get_spec(response, "content"@) {
        Some(c) => json_text(c),
        None => json_text(response),
    }
}

/// The output of an MCP task; see [`mcp_output_spec`].
pub fn mcp_output_text(response: &JsonValue) -> (s: String)
    ensures
        s@ == mcp_output_spec(response@),
{
    match response.get("content") {
        Some(c) => c.to_json_string(),
        None => response.to_json_string(),
    }
}

/// The tool name recorded for an MCP task: `mcp::<tool>`.
pub fn mcp_tool_name(tool_name: &str) -> (s: String)
    ensures
        s@ == "mcp::"@ + tool_name@,
{
    concat_str("mcp::", tool_name)
}

/// The tool name recorded for an A2A task: `a2a::<url>`.
pub fn a2a_tool_name(url: &str) -> (s: String)
    ensures
        s@ == "a2a::"@ + url@,
{
    concat_str("a2a::", url)
}

/// The input recorded for an A2A task: `{"input": <text>}`.
pub fn a2a_start_input(input: &str) -> (j: JsonValue)
    ensures
        j@ == Json::Object(seq![("input"@, Json::String(input@))]),
{
    JsonValue::object1("input", JsonValue::from_str(input))
}

/// JSON strings of the given texts.
pub open spec fn strings_json(cs: Seq<Seq<char>>) -> Seq<Json> {
    cs.map_values(|c: Seq<char>| Json::String(c))
}

/// The output recorded for an A2A task, members in key order: the remote card (or
/// `null`), the output, the remote task's id and the streamed pieces.
pub open spec fn a2a_end_spec(
    remote_task_id: Seq<char>,
    output: Seq<char>,
    chunks: Seq<Seq<char>>,
    card: Option<Json>,
) -> Json {
    Json::Object(
        seq![
            (
                "card"@,
                match card {
                    Some(c) => c,
                    None => Json::Null,
                },
            ),
            ("output"@, Json::String(output)),
            ("remote_task_id"@, Json::String(remote_task_id)),
            ("stream_chunks"@, Json::Array(strings_json(chunks))),
        ],
    )
}

/// The output recorded for an A2A task; see [`a2a_end_spec`].
pub fn a2a_end_output(remote_task_id: &str, output: &str, chunks: &Vec<String>, card: &Option<AgentCard>) -> (j: JsonValue)
    ensures
        j@ == a2a_end_spec(
            remote_task_id@,
            output@,
            views(chunks@),
            match card {
                Some(c) => Some(card_json(c.name@, c.description@, c.url@, c.version@)),
                None => None,
            },
        ),
{
    let mut items: Vec<JsonValue> = Vec::new();
    let mut i: usize = 0;
    while i < chunks.len()
        invariant
            i <= chunks@.len(),
            items@.len() == i,
            forall|k: int| 0 <= k < i ==> #[trigger] items@[k]@ == Json::String(chunks@[k]@),
        decreases chunks@.len() - i,
    {
        items.push(JsonValue::from_str(chunks[i].as_str()));
        i = i + 1;
    }
    let card_value = match card {
        Some(c) => c.to_json(),
        None => JsonValue::Null,
    };
    let ghost cv = card_value@;
    let ghost cm = match card {
        Some(c) => Some(card_json(c.name@, c.description@, c.url@, c.version@)),
        None => None,
    };
    assert(cv == match cm {
        Some(c) => c,
        None => Json::Null,
    });
    let stream = JsonValue::Array(items);
    proof {
        lemma_items_view(items@, items@.len() as int);
        assert(crate::json::items_view(items@, items@.len() as int) =~= strings_json(views(chunks@)));
    }
    let ghost sv = stream@;
    let mut members: Vec<(String, JsonValue)> = Vec::new();
    members.push((String::from_str("card"), card_value));
    members.push((String::from_str("output"), JsonValue::from_str(output)));
    members.push((String::from_str("remote_task_id"), JsonValue::from_str(remote_task_id)));
    members.push((String::from_str("stream_chunks"), stream));
    let j = JsonValue::Object(members);
    proof {
        lemma_members_view(members@, 4);
        assert(crate::json::members_view(members@, 4) =~= seq![
            ("card"@, cv),
            ("output"@, Json::String(output@)),
            ("remote_task_id"@, Json::String(remote_task_id@)),
            ("stream_chunks"@, sv),
        ]);
        assert(sv == Json::Array(strings_json(views(chunks@))));
        assert(j@ == Json::Object(crate::json::members_view(members@, 4)));
        let expected = seq![
            (
                "card"@,
                match cm {
                    Some(c) => c,
                    None => Json::Null,
                },
            ),
            ("output"@, Json::String(output@)),
            ("remote_task_id"@, Json::String(remote_task_id@)),
            ("stream_chunks"@, Json::Array(strings_json(views(chunks@)))),
        ];
        assert(crate::json::members_view(members@, 4) =~= expected);
        assert(a2a_end_spec(remote_task_id@, output@, views(chunks@), cm) == Json::Object(expected));
        assert(j@ == a2a_end_spec(remote_task_id@, output@, views(chunks@), cm));
    }
    j
}

/// An event recorded by the runtime for a protocol task, attached to its session and
/// run.
pub fn protocol_event(session_id: &str, run_id: &str, kind: EventKind, timestamp_ms: u64, seq: u64) -> (e: Event)
    ensures
        e@.event_id == crate::event::event_id_spec(timestamp_ms, seq),
        e@.schema_version == "v1"@,
        e@.timestamp_ms == timestamp_ms,
        e@.session_id == Some(session_id@),
        e@.run_id == Some(run_id@),
        e@.correlation_id is None,
        e@.causation_id is None,
        e@.metadata == Json::Object(seq![]),
        e@.kind == kind@,
{
    Event::with_identity(kind, timestamp_ms, seq).with_session(
        Some(String::from_str(session_id)),
        Some(String::from_str(run_id)),
    )
}

} // verus!
