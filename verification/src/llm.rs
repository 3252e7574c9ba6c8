//! Language-model requests and responses, the provider interface, and the mock
//! providers used in examples and tests.
use vstd::prelude::*;

use crate::error::{opt_view, Failure, NuroError};
use crate::event::{event_id_spec, Event, EventKind, EventView, KindView};
use crate::json::{Json, JsonValue};
use crate::message::{
    blocks_view, duplicate_messages, messages_view, text_content_spec, texts_concat, Block,
    ContentBlock, Message, MessageView, Role,
};
use crate::text::{
    chars_of, chunk_chars, chunks_of, concat_str, split_ws, split_ws_str, starts_with_seq, strip_prefix_str, trim, trim_str, views,
};

verus! {

/// What is sent to a language model: the conversation so far.
#[derive(Debug)]
pub struct LlmRequest {
    pub messages: Vec<Message>,
}

/// What a language model answers: one message.
#[derive(Debug)]
pub struct LlmResponse {
    pub message: Message,
}

impl LlmRequest {
    /// A request for the given conversation.
    pub fn new(messages: Vec<Message>) -> (r: LlmRequest)
        ensures
            messages_view(r.messages@) == messages_view(messages@),
    {
        LlmRequest { messages }
    }

    /// A deep copy of the request.
    pub fn duplicate(&self) -> (r: LlmRequest)
        ensures
            messages_view(r.messages@) == messages_view(self.messages@),
    {
        LlmRequest { messages: duplicate_messages(&self.messages) }
    }
}

/// A language model. Implementations decide what they answer; the library's mock
/// providers state it exactly.
pub trait LlmProvider {
    /// The model's answer to `request`.
    fn generate(&self, request: LlmRequest) -> Result<LlmResponse, NuroError>;
}

/// The last user message of a conversation, if any.
pub open spec fn last_user(ms: Seq<MessageView>) -> Option<MessageView>
    decreases ms.len(),
{
    if ms.len() == 0 {
        None
    } else if ms.last().role == Role::User {
        Some(ms.last())
    } else {
        last_user(ms.drop_last())
    }
}

/// The text of the last user message, if it has any.
pub open spec fn user_text(ms: Seq<MessageView>) -> Option<Seq<char>> {
    match last_user(ms) {
        Some(m) => text_content_spec(m),
        None => None,
    }
}

/// An assistant message holding `t`.
pub open spec fn assistant_text(t: Seq<char>) -> MessageView {
    MessageView { role: Role::Assistant, content: seq![Block::Text(t)] }
}

/// The mock's answer: a call of `calculator` with the trimmed rest of a user text that
/// starts with `calc:`; else `Echo: <text>`; `Echo: (no user input)` without user text.
pub open spec fn mock_reply(ms: Seq<MessageView>) -> MessageView {
    match user_text(ms) {
        Some(t) => if starts_with_seq(t, "calc:"@) {
            MessageView {
                role: Role::Assistant,
                content: seq![
                    Block::ToolUse {
                        id: "tool_call_1"@,
                        name: "calculator"@,
                        input: Json::Object(seq![("expression"@, Json::String(trim(t.skip(5))))]),
                    },
                ],
            }
        } else {
            assistant_text("Echo: "@ + t)
        },
        None => assistant_text("Echo: (no user input)"@),
    }
}

/// The text of the last user message, if it has any.
pub fn last_user_text(messages: &Vec<Message>) -> (r: Option<String>)
    ensures
        match r {
            Some(t) => user_text(messages_view(messages@)) == Some(t@),
            None => user_text(messages_view(messages@)) is None,
        },
{
    let ghost ms = messages_view(messages@);
    let mut n = messages.len();
    assert(ms.take(n as int) =~= ms);
    while n > 0
        invariant
            n <= messages@.len(),
            ms == messages_view(messages@),
            last_user(ms) == last_user(ms.take(n as int)),
        decreases n,
    {
        let m = &messages[n - 1];
        let ghost pre = ms.take(n as int);
        assert(pre.last() == m@);
        if m.role == Role::User {
            return m.text_content();
        }
        assert(pre.drop_last() =~= ms.take(n - 1));
        n = n - 1;
    }
    None
}

/// The capabilities a provider advertises.
#[derive(PartialEq, Eq, Structural, Clone, Copy, Debug)]
pub enum ProviderCapability {
    TextGeneration,
    Streaming,
    ToolCall,
}

/// A provider's name and capabilities.
#[derive(Debug)]
pub struct ProviderDescriptor {
    pub name: String,
    pub capabilities: Vec<ProviderCapability>,
}

/// One piece of a streamed answer.
#[derive(Debug)]
pub enum ProviderStreamEvent {
    TextDelta(String),
    ToolCallStart { name: String, input: JsonValue },
    ToolCallEnd { name: String, output: JsonValue },
    Done,
}

/// The model of a streamed piece.
pub ghost enum StreamView {
    TextDelta(Seq<char>),
    ToolCallStart { name: Seq<char>, input: Json },
    ToolCallEnd { name: Seq<char>, output: Json },
    Done,
}

impl View for ProviderStreamEvent {
    type V = StreamView;

    open spec fn view(&self) -> StreamView {
        match self {
            ProviderStreamEvent::TextDelta(t) => StreamView::TextDelta(t@),
            ProviderStreamEvent::ToolCallStart { name, input } => StreamView::ToolCallStart {
                name: name@,
                input: input@,
            },
            ProviderStreamEvent::ToolCallEnd { name, output } => StreamView::ToolCallEnd {
                name: name@,
                output: output@,
            },
            ProviderStreamEvent::Done => StreamView::Done,
        }
    }
}

/// The models of streamed pieces.
pub open spec fn stream_view(v: Seq<ProviderStreamEvent>) -> Seq<StreamView> {
    v.map_values(|e: ProviderStreamEvent| e@)
}

/// A provider that can also stream its answer.
pub trait LlmProviderAdapter: LlmProvider {
    /// The provider's name and capabilities.
    fn descriptor(&self) -> ProviderDescriptor;

    /// The answer to `request`, in pieces ending with `Done`.
    fn stream_generate(&self, request: LlmRequest) -> Result<Vec<ProviderStreamEvent>, NuroError>;

    /// The runtime events of a stream, one per piece but `Done`, in order: the `k`-th is
    /// the `first_seq + k`-th event created at `timestamp_ms`, of schema `v1`, attached to
    /// the session and run given. Fails with invalid input when there is none.
    fn stream_events_to_runtime_events(
        &self,
        session_id: Option<String>,
        run_id: Option<String>,
        stream_events: &Vec<ProviderStreamEvent>,
        timestamp_ms: u64,
        first_seq: u64,
    ) -> (r: Result<Vec<Event>, NuroError>)
        requires
            first_seq + stream_events@.len() <= u64::MAX,
        ensures
            match r {
                Ok(evs) => {
                    let ks = piece_kinds(stream_view(stream_events@), stream_events@.len() as int);
                    &&& ks.len() > 0
                    &&& evs@.len() == ks.len()
                    &&& forall|k: int|
                        0 <= k < evs@.len() ==> #[trigger] evs@[k]@ == tagged_event(
                            ks[k],
                            opt_view(session_id),
                            opt_view(run_id),
                            timestamp_ms,
                            (first_seq + k) as u64,
                        )
                },
                Err(e) => e@ == Failure::InvalidInput(
                    "stream_events_to_runtime_events received empty stream events"@,
                ) && piece_kinds(stream_view(stream_events@), stream_events@.len() as int).len() == 0,
            },
    {
        let kinds = match stream_event_kinds(stream_events) {
            Ok(ks) => ks,
            Err(e) => return Err(e),
        };
        let ghost ks = piece_kinds(stream_view(stream_events@), stream_events@.len() as int);
        proof {
            lemma_piece_kinds_len(stream_view(stream_events@), stream_events@.len() as int);
        }
        let mut out: Vec<Event> = Vec::new();
        let mut i: usize = 0;
        while i < kinds.len()
            invariant
                kinds@.map_values(|k: EventKind| k@) == ks,
                kinds@.len() <= stream_events@.len(),
                first_seq + stream_events@.len() <= u64::MAX,
                i <= kinds@.len(),
                out@.len() == i,
                forall|k: int|
                    0 <= k < i ==> #[trigger] out@[k]@ == tagged_event(
                        ks[k],
                        opt_view(session_id),
                        opt_view(run_id),
                        timestamp_ms,
                        (first_seq + k) as u64,
                    ),
            decreases kinds@.len() - i,
        {
            let kind = kinds[i].duplicate();
            assert(kind@ == ks[i as int]);
            let e = Event::with_identity(kind, timestamp_ms, first_seq + i as u64).with_session(
                session_id.clone(),
                run_id.clone(),
            );
            out.push(e);
            i = i + 1;
        }
        Ok(out)
    }
}

/// The event made of a streamed piece's kind: the `seq`-th event created at
/// `timestamp_ms`, of schema `v1`, attached to the session and run given, with no
/// correlation and empty metadata.
pub open spec fn tagged_event(
    kind: KindView,
    session_id: Option<Seq<char>>,
    run_id: Option<Seq<char>>,
    timestamp_ms: u64,
    seq: u64,
) -> EventView {
    EventView {
        event_id: event_id_spec(timestamp_ms, seq),
        schema_version: "v1"@,
        timestamp_ms,
        session_id,
        run_id,
        correlation_id: None,
        causation_id: None,
        metadata: Json::Object(seq![]),
        kind,
    }
}

/// A stream gives at most one runtime event per piece.
proof fn lemma_piece_kinds_len(es: Seq<StreamView>, n: int)
    requires
        0 <= n <= es.len(),
    ensures
        piece_kinds(es, n).len() <= n,
    decreases n,
{
    if n > 0 {
        lemma_piece_kinds_len(es, n - 1);
    }
}

/// The runtime event of a streamed piece: text is an assistant answer, tool pieces are
/// tool events; `Done` has none.
pub open spec fn piece_kind(e: StreamView) -> Option<KindView> {
    match e {
        StreamView::TextDelta(t) => Some(KindView::LlmResponse { message: assistant_text(t) }),
        StreamView::ToolCallStart { name, input } => Some(
            KindView::ToolCallStart { tool_name: name, input },
        ),
        StreamView::ToolCallEnd { name, output } => Some(
            KindView::ToolCallEnd { tool_name: name, output },
        ),
        StreamView::Done => None,
    }
}

/// The runtime events of the first `n` pieces, in order.
pub open spec fn piece_kinds(es: Seq<StreamView>, n: int) -> Seq<KindView>
    decreases n,
{
    if n <= 0 || n > es.len() {
        seq![]
    } else {
        piece_kinds(es, n - 1) + match piece_kind(es[n - 1]) {
            Some(k) => seq![k],
            None => seq![],
        }
    }
}

/// The runtime events of a stream, one per piece but `Done`. Fails with invalid input
/// when there is none.
pub fn stream_event_kinds(stream_events: &Vec<ProviderStreamEvent>) -> (r: Result<Vec<EventKind>, NuroError>)
    ensures
        match r {
            Ok(ks) => ks@.map_values(|k: EventKind| k@) == piece_kinds(
                stream_view(stream_events@),
                stream_events@.len() as int,
            ) && ks@.len() > 0,
            Err(e) => e@ == Failure::InvalidInput(
                "stream_events_to_runtime_events received empty stream events"@,
            ) && piece_kinds(stream_view(stream_events@), stream_events@.len() as int).len() == 0,
        },
{
    let ghost es = stream_view(stream_events@);
    let mut out: Vec<EventKind> = Vec::new();
    let mut i: usize = 0;
    while i < stream_events.len()
        invariant
            i <= stream_events@.len(),
            es == stream_view(stream_events@),
            out@.map_values(|k: EventKind| k@) == piece_kinds(es, i as int),
        decreases stream_events@.len() - i,
    {
        let ghost before = out@.map_values(|k: EventKind| k@);
        assert(es[i as int] == stream_events@[i as int]@);
        match &stream_events[i] {
            ProviderStreamEvent::TextDelta(delta) => {
                out.push(EventKind::LlmResponse { message: Message::assistant(delta.as_str()) });
            },
            ProviderStreamEvent::ToolCallStart { name, input } => {
                out.push(EventKind::ToolCallStart { tool_name: name.clone(), input: input.duplicate() });
            },
            ProviderStreamEvent::ToolCallEnd { name, output } => {
                out.push(EventKind::ToolCallEnd { tool_name: name.clone(), output: output.duplicate() });
            },
            ProviderStreamEvent::Done => {},
        }
        assert(out@.map_values(|k: EventKind| k@) =~= piece_kinds(es, i + 1));
        i = i + 1;
    }
    if out.len() == 0 {
        return Err(
            NuroError::InvalidInput(
                String::from_str("stream_events_to_runtime_events received empty stream events"),
            ),
        );
    }
    Ok(out)
}

/// The JSON `{"status": "emitted_by_mock"}`.
pub open spec fn emitted_status() -> Json {
    Json::Object(seq![("status"@, Json::String("emitted_by_mock"@))])
}

/// The pieces of one block in the mock's stream: each word of a text followed by a
/// space; a start and an end for a tool call; nothing for a tool result.
pub open spec fn block_pieces(b: Block) -> Seq<StreamView> {
    match b {
        Block::Text(t) => split_ws(t).map_values(|w: Seq<char>| StreamView::TextDelta(w + " "@)),
        Block::ToolUse { name, input, .. } => seq![
            StreamView::ToolCallStart { name, input },
            StreamView::ToolCallEnd { name, output: emitted_status() },
        ],
        Block::ToolResult { .. } => seq![],
    }
}

/// The pieces of the first `n` blocks.
pub open spec fn blocks_pieces(bs: Seq<Block>, n: int) -> Seq<StreamView>
    decreases n,
{
    if n <= 0 || n > bs.len() {
        seq![]
    } else {
        blocks_pieces(bs, n - 1) + block_pieces(bs[n - 1])
    }
}

/// A provider that echoes the last user text, or calls the calculator for `calc:` texts.
#[derive(Debug)]
pub struct MockLlmProvider;

impl MockLlmProvider {
    /// The mock provider.
    pub fn new() -> (p: MockLlmProvider) {
        MockLlmProvider
    }

    /// The mock's answer; see [`mock_reply`].
    pub fn reply(&self, request: LlmRequest) -> (r: LlmResponse)
        ensures
            r.message@ == mock_reply(messages_view(request.messages@)),
    {
        let reply = match last_user_text(&request.messages) {
            Some(text) => match strip_prefix_str(text.as_str(), "calc:") {
                Some(rest) => {
                    proof {
                        reveal_strlit("calc:");
                    }
                    let expr = trim_str(rest.as_str());
                    let input = JsonValue::object1("expression", JsonValue::String(expr));
                    let mut content = Vec::new();
                    content.push(
                        ContentBlock::ToolUse {
                            id: String::from_str("tool_call_1"),
                            name: String::from_str("calculator"),
                            input,
                        },
                    );
                    let m = Message::new(Role::Assistant, content);
                    assert(blocks_view(content@) =~= mock_reply(messages_view(request.messages@)).content);
                    m
                },
                None => {
                    let t = concat_str("Echo: ", text.as_str());
                    Message::assistant(t.as_str())
                },
            },
            None => Message::assistant("Echo: (no user input)"),
        };
        LlmResponse { message: reply }
    }

    /// The mock's name and capabilities: `mock`, text generation, streaming and tool
    /// calls.
    pub fn describe(&self) -> (d: ProviderDescriptor)
        ensures
            d.name@ == "mock"@,
            d.capabilities@ == seq![
                ProviderCapability::TextGeneration,
                ProviderCapability::Streaming,
                ProviderCapability::ToolCall,
            ],
    {
        let mut caps = Vec::new();
        caps.push(ProviderCapability::TextGeneration);
        caps.push(ProviderCapability::Streaming);
        caps.push(ProviderCapability::ToolCall);
        assert(caps@ =~= seq![
            ProviderCapability::TextGeneration,
            ProviderCapability::Streaming,
            ProviderCapability::ToolCall,
        ]);
        ProviderDescriptor { name: String::from_str("mock"), capabilities: caps }
    }

    /// The mock's answer in pieces: see [`block_pieces`]; `Done` ends it.
    pub fn stream(&self, request: LlmRequest) -> (r: Vec<ProviderStreamEvent>)
        ensures
            stream_view(r@) == blocks_pieces(
                mock_reply(messages_view(request.messages@)).content,
                mock_reply(messages_view(request.messages@)).content.len() as int,
            ).push(StreamView::Done),
    {
        let response = self.reply(request);
        let ghost bs = response.message@.content;
        let mut out: Vec<ProviderStreamEvent> = Vec::new();
        let mut i: usize = 0;
        while i < response.message.content.len()
            invariant
                i <= response.message.content@.len(),
                bs == response.message@.content,
                stream_view(out@) == blocks_pieces(bs, i as int),
            decreases response.message.content@.len() - i,
        {
            let ghost before = stream_view(out@);
            assert(bs[i as int] == response.message.content@[i as int]@);
            match &response.message.content[i] {
                ContentBlock::Text(text) => {
                    let words = split_ws_str(text.as_str());
                    let ghost ws = views(words@);
                    let mut k: usize = 0;
                    while k < words.len()
                        invariant
                            k <= words@.len(),
                            ws == views(words@),
                            stream_view(out@) == before + ws.take(k as int).map_values(
                                |w: Seq<char>| StreamView::TextDelta(w + " "@),
                            ),
                        decreases words@.len() - k,
                    {
                        let piece = concat_str(words[k].as_str(), " ");
                        let ghost mid = stream_view(out@);
                        out.push(ProviderStreamEvent::TextDelta(piece));
                        assert(ws[k as int] == words@[k as int]@);
                        assert(stream_view(out@) =~= mid.push(StreamView::TextDelta(ws[k as int] + " "@)));
                        assert(ws.take(k + 1).map_values(|w: Seq<char>| StreamView::TextDelta(w + " "@))
                            =~= ws.take(k as int).map_values(|w: Seq<char>| StreamView::TextDelta(w + " "@)).push(
                            StreamView::TextDelta(ws[k as int] + " "@),
                        ));
                        k = k + 1;
                    }
                    assert(ws.take(k as int) =~= ws);
                },
                ContentBlock::ToolUse { name, input, .. } => {
                    out.push(ProviderStreamEvent::ToolCallStart { name: name.clone(), input: input.duplicate() });
                    let status = JsonValue::object1("status", JsonValue::from_str("emitted_by_mock"));
                    out.push(ProviderStreamEvent::ToolCallEnd { name: name.clone(), output: status });
                    assert(stream_view(out@) =~= before + block_pieces(bs[i as int]));
                },
                ContentBlock::ToolResult { .. } => {
                    assert(block_pieces(bs[i as int]) =~= seq![]);
                    assert(stream_view(out@) =~= before + block_pieces(bs[i as int]));
                },
            }
            i = i + 1;
        }
        let ghost before = stream_view(out@);
        out.push(ProviderStreamEvent::Done);
        assert(stream_view(out@) =~= before.push(StreamView::Done));
        out
    }
}

impl LlmProvider for MockLlmProvider {
    fn generate(&self, request: LlmRequest) -> (r: Result<LlmResponse, NuroError>)
        ensures
            r matches Ok(resp) && resp.message@ == mock_reply(messages_view(request.messages@)),
    {
        Ok(self.reply(request))
    }
}

impl LlmProviderAdapter for MockLlmProvider {
    fn descriptor(&self) -> (d: ProviderDescriptor)
        ensures
            d.name@ == "mock"@,
            d.capabilities@ == seq![
                ProviderCapability::TextGeneration,
                ProviderCapability::Streaming,
                ProviderCapability::ToolCall,
            ],
    {
        self.describe()
    }

    fn stream_generate(&self, request: LlmRequest) -> (r: Result<Vec<ProviderStreamEvent>, NuroError>)
        ensures
            r matches Ok(es) && stream_view(es@) == blocks_pieces(
                mock_reply(messages_view(request.messages@)).content,
                mock_reply(messages_view(request.messages@)).content.len() as int,
            ).push(StreamView::Done),
    {
        Ok(self.stream(request))
    }
}

/// The streaming mock's answer: `StreamEcho: <last user text>`, or
/// `StreamEcho: (no user input)`.
pub open spec fn stream_echo(ms: Seq<MessageView>) -> Seq<char> {
    "StreamEcho: "@ + match user_text(ms) {
        Some(t) => t,
        None => "(no user input)"@,
    }
}

/// A provider that echoes the last user text and streams it in pieces of a fixed size.
#[derive(Debug)]
pub struct StreamingMockLlmProvider {
    chunk_size: usize,
}

impl StreamingMockLlmProvider {
    /// A provider streaming pieces of `chunk_size` characters (at least one).
    pub fn new(chunk_size: usize) -> (p: StreamingMockLlmProvider)
        ensures
            p.chunk_size() == if chunk_size == 0 {
                1
            } else {
                chunk_size
            },
    {
        StreamingMockLlmProvider {
            chunk_size: if chunk_size == 0 {
                1
            } else {
                chunk_size
            },
        }
    }

    /// The size of the streamed pieces.
    pub closed spec fn chunk_size(&self) -> usize {
        self.chunk_size
    }

    /// Pieces are never empty.
    #[verifier::type_invariant]
    spec fn pieces_not_empty(&self) -> bool {
        self.chunk_size > 0
    }

    /// The provider's answer; see [`stream_echo`].
    pub fn reply(&self, request: LlmRequest) -> (r: LlmResponse)
        ensures
            r.message@ == assistant_text(stream_echo(messages_view(request.messages@))),
    {
        let text = match last_user_text(&request.messages) {
            Some(t) => t,
            None => String::from_str("(no user input)"),
        };
        let t = concat_str("StreamEcho: ", text.as_str());
        LlmResponse { message: Message::assistant(t.as_str()) }
    }

    /// The provider's name and capabilities: `streaming-mock`, text generation,
    /// streaming and tool calls.
    pub fn describe(&self) -> (d: ProviderDescriptor)
        ensures
            d.name@ == "streaming-mock"@,
            d.capabilities@ == seq![
                ProviderCapability::TextGeneration,
                ProviderCapability::Streaming,
                ProviderCapability::ToolCall,
            ],
    {
        let mut caps = Vec::new();
        caps.push(ProviderCapability::TextGeneration);
        caps.push(ProviderCapability::Streaming);
        caps.push(ProviderCapability::ToolCall);
        assert(caps@ =~= seq![
            ProviderCapability::TextGeneration,
            ProviderCapability::Streaming,
            ProviderCapability::ToolCall,
        ]);
        ProviderDescriptor { name: String::from_str("streaming-mock"), capabilities: caps }
    }

    /// The answer in pieces of `chunk_size` characters, then `Done`.
    pub fn stream(&self, request: LlmRequest) -> (r: Vec<ProviderStreamEvent>)
        ensures
            stream_view(r@) == chunks_of(stream_echo(messages_view(request.messages@)), self.chunk_size() as nat).map_values(
                |c: Seq<char>| StreamView::TextDelta(c),
            ).push(StreamView::Done),
    {
        let user = match last_user_text(&request.messages) {
            Some(t) => t,
            None => String::from_str("(no user input)"),
        };
        let text = concat_str("StreamEcho: ", user.as_str());
        proof {
            use_type_invariant(self);
        }
        let chars = chars_of(text.as_str());
        let pieces = chunk_chars(&chars, self.chunk_size);
        let ghost ps = views(pieces@);
        let mut out: Vec<ProviderStreamEvent> = Vec::new();
        let mut k: usize = 0;
        while k < pieces.len()
            invariant
                k <= pieces@.len(),
                ps == views(pieces@),
                stream_view(out@) == ps.take(k as int).map_values(|c: Seq<char>| StreamView::TextDelta(c)),
            decreases pieces@.len() - k,
        {
            let ghost mid = stream_view(out@);
            out.push(ProviderStreamEvent::TextDelta(pieces[k].clone()));
            assert(ps[k as int] == pieces@[k as int]@);
            assert(stream_view(out@) =~= mid.push(StreamView::TextDelta(ps[k as int])));
            assert(ps.take(k + 1).map_values(|c: Seq<char>| StreamView::TextDelta(c)) =~= ps.take(
                k as int,
            ).map_values(|c: Seq<char>| StreamView::TextDelta(c)).push(StreamView::TextDelta(ps[k as int])));
            k = k + 1;
        }
        assert(ps.take(k as int) =~= ps);
        let ghost before = stream_view(out@);
        out.push(ProviderStreamEvent::Done);
        assert(stream_view(out@) =~= before.push(StreamView::Done));
        out
    }
}

impl LlmProvider for StreamingMockLlmProvider {
    fn generate(&self, request: LlmRequest) -> (r: Result<LlmResponse, NuroError>)
        ensures
            r matches Ok(resp) && resp.message@ == assistant_text(
                stream_echo(messages_view(request.messages@)),
            ),
    {
        Ok(self.reply(request))
    }
}

impl LlmProviderAdapter for StreamingMockLlmProvider {
    fn descriptor(&self) -> (d: ProviderDescriptor)
        ensures
            d.name@ == "streaming-mock"@,
            d.capabilities@ == seq![
                ProviderCapability::TextGeneration,
                ProviderCapability::Streaming,
                ProviderCapability::ToolCall,
            ],
    {
        self.describe()
    }

    fn stream_generate(&self, request: LlmRequest) -> (r: Result<Vec<ProviderStreamEvent>, NuroError>)
        ensures
            r matches Ok(es) && stream_view(es@) == chunks_of(
                stream_echo(messages_view(request.messages@)),
                self.chunk_size() as nat,
            ).map_values(|c: Seq<char>| StreamView::TextDelta(c)).push(StreamView::Done),
    {
        Ok(self.stream(request))
    }
}

/// The role names of the chat-completions protocol.
pub open spec fn openai_role_spec(role: Role) -> Seq<char> {
    match role {
        Role::System => "system"@,
        Role::User => "user"@,
        Role::Assistant => "assistant"@,
        Role::Tool => "tool"@,
    }
}

/// The chat-completions name of a role.
pub fn to_openai_role(role: Role) -> (s: &'static str)
    ensures
        s@ == openai_role_spec(role),
{
    match role {
        Role::System => "system",
        Role::User => "user",
        Role::Assistant => "assistant",
        Role::Tool => "tool",
    }
}

/// The text blocks of a message joined together; other blocks are left out.
pub fn flatten_message_content(message: &Message) -> (s: String)
    ensures
        s@ == texts_concat(message@.content, message@.content.len() as int),
{
    let ghost bs = message@.content;
    let mut out = String::new();
    let mut i: usize = 0;
    while i < message.content.len()
        invariant
            i <= message.content@.len(),
            bs == message@.content,
            bs.len() == message.content@.len(),
            out@ == texts_concat(bs, i as int),
        decreases message.content@.len() - i,
    {
        assert(bs[i as int] == message.content@[i as int]@);
        match &message.content[i] {
            ContentBlock::Text(t) => {
                out.append(t.as_str());
            },
            _ => {},
        }
        i = i + 1;
    }
    out
}

/// A chat-completions message: its role and its text.
pub open spec fn openai_message_json(m: MessageView) -> Json {
    Json::Object(
        seq![
            ("role"@, Json::String(openai_role_spec(m.role))),
            ("content"@, Json::String(texts_concat(m.content, m.content.len() as int))),
        ],
    )
}

/// The chat-completions messages of a conversation.
pub open spec fn openai_messages_json(ms: Seq<MessageView>) -> Seq<Json> {
    ms.map_values(|m: MessageView| openai_message_json(m))
}

/// The body of a chat-completions request: the model, then the messages. Fails on an
/// empty conversation.
pub open spec fn openai_body_spec(model: Seq<char>, ms: Seq<MessageView>) -> Result<Json, Failure> {
    if ms.len() == 0 {
        Err(Failure::Llm("OpenAI provider received empty message list"@))
    } else {
        Ok(
            Json::Object(
                seq![
                    ("model"@, Json::String(model)),
                    ("messages"@, Json::Array(openai_messages_json(ms))),
                ],
            ),
        )
    }
}

/// The body of a chat-completions request; see [`openai_body_spec`].
pub fn openai_request_body(model: &str, messages: &Vec<Message>) -> (r: Result<JsonValue, NuroError>)
    ensures
        match r {
            Ok(j) => openai_body_spec(model@, messages_view(messages@)) == Ok::<Json, Failure>(j@),
            Err(e) => openai_body_spec(model@, messages_view(messages@)) == Err::<Json, Failure>(e@),
        },
{
    if messages.len() == 0 {
        return Err(NuroError::Llm(String::from_str("OpenAI provider received empty message list")));
    }
    let ghost ms = messages_view(messages@);
    let mut items: Vec<JsonValue> = Vec::new();
    let mut i: usize = 0;
    while i < messages.len()
        invariant
            i <= messages@.len(),
            ms == messages_view(messages@),
            items@.len() == i,
            forall|k: int| 0 <= k < i ==> #[trigger] items@[k]@ == openai_message_json(ms[k]),
        decreases messages@.len() - i,
    {
        let m = &messages[i];
        let mut members: Vec<(String, JsonValue)> = Vec::new();
        members.push((String::from_str("role"), JsonValue::from_str(to_openai_role(m.role))));
        members.push((String::from_str("content"), JsonValue::String(flatten_message_content(m))));
        let item = JsonValue::Object(members);
        proof {
            crate::json::lemma_members_view(members@, 2);
            assert(crate::json::members_view(members@, 2) =~= seq![
                ("role"@, Json::String(openai_role_spec(m@.role))),
                ("content"@, Json::String(texts_concat(m@.content, m@.content.len() as int))),
            ]);
            assert(ms[i as int] == m@);
        }
        items.push(item);
        i = i + 1;
    }
    let arr = JsonValue::Array(items);
    proof {
        crate::json::lemma_items_view(items@, items@.len() as int);
        assert(crate::json::items_view(items@, items@.len() as int) =~= openai_messages_json(ms));
    }
    let ghost av = arr@;
    let mut members: Vec<(String, JsonValue)> = Vec::new();
    members.push((String::from_str("model"), JsonValue::from_str(model)));
    members.push((String::from_str("messages"), arr));
    let body = JsonValue::Object(members);
    proof {
        crate::json::lemma_members_view(members@, 2);
        assert(crate::json::members_view(members@, 2) =~= seq![
            ("model"@, Json::String(model@)),
            ("messages"@, av),
        ]);
    }
    Ok(body)
}

/// The answer of a chat completion, given the content of its first choice: an
/// assistant message, or an error when there is no choice.
pub fn openai_reply(first_choice: Option<String>) -> (r: Result<LlmResponse, NuroError>)
    ensures
        match first_choice {
            Some(c) => r matches Ok(resp) && resp.message@ == assistant_text(c@),
            None => r matches Err(e) && e@ == Failure::Llm("OpenAI response has no choices"@),
        },
{
    match first_choice {
        Some(c) => Ok(LlmResponse { message: Message::assistant(c.as_str()) }),
        None => Err(NuroError::Llm(String::from_str("OpenAI response has no choices"))),
    }
}

/// How to reach the chat-completions service.
#[derive(Debug)]
pub struct OpenAiSettings {
    pub api_key: String,
    pub base_url: String,
    pub model: String,
}

impl OpenAiSettings {
    /// The settings from the values of `OPENAI_API_KEY` and `OPENAI_BASE_URL`: fails
    /// without a key; the base URL defaults to `https://api.openai.com/v1`.
    pub fn from_env_values(api_key: Option<String>, base_url: Option<String>, model: String) -> (r: Result<
        OpenAiSettings,
        NuroError,
    >)
        ensures
            match api_key {
                None => r matches Err(e) && e@ == Failure::Llm("OPENAI_API_KEY is not set"@),
                Some(k) => r matches Ok(s) && s.api_key@ == k@ && s.model@ == model@ && s.base_url@
                    == match base_url {
                    Some(b) => b@,
                    None => "https://api.openai.com/v1"@,
                },
            },
    {
        match api_key {
            None => Err(NuroError::Llm(String::from_str("OPENAI_API_KEY is not set"))),
            Some(k) => {
                let base = match base_url {
                    Some(b) => b,
                    None => String::from_str("https://api.openai.com/v1"),
                };
                Ok(OpenAiSettings { api_key: k, base_url: base, model })
            },
        }
    }

    /// The default model: `gpt-4o-mini`.
    pub fn default_model() -> (s: &'static str)
        ensures
            s@ == "gpt-4o-mini"@,
    {
        "gpt-4o-mini"
    }

    /// The address of the chat-completions endpoint: `<base>/chat/completions`, trailing
    /// slashes of the base dropped.
    pub fn chat_url(&self) -> (u: String)
        ensures
            u@ == crate::a2a::trim_slashes(self.base_url@) + "/chat/completions"@,
    {
        let base = crate::a2a::trim_trailing_slashes(self.base_url.as_str());
        concat_str(base.as_str(), "/chat/completions")
    }
}

} // verus!
