//! One run of the agent loop as a state machine.
//!
//! A run checks the input guardrails, asks the language model (with hooks before and
//! after), runs the tools the model called (with hooks around each), and checks the
//! output guardrails. The caller performs each [`RunAction`] (a guardrail check, a hook,
//! the model call, a tool lookup or execution, or sending an event when streaming) and
//! hands the outcome back as a [`RunEvent`]; [`AgentRun::step`] decides what comes next.
use vstd::prelude::*;

use crate::agent::{AgentContext, AgentInput, AgentOutput, InputView};
use crate::error::{failure_text, Failure, NuroError};
use crate::event::{EventKind, KindView};
use crate::json::{Json, JsonValue};
use crate::llm::LlmRequest;
use crate::message::{
    duplicate_messages, messages_view, text_content_spec, tool_uses_spec, Block, ContentBlock,
    Message, MessageView, ToolCall, ToolCallView,
};
use crate::text::{chars_of, chunk_chars, chunks_of, concat3, concat_str, views};

verus! {

/// The messages a run starts from: the system prompt (if any), then the input.
pub open spec fn build_messages_spec(system_prompt: Option<Seq<char>>, input: InputView) -> Seq<MessageView> {
    let head = match system_prompt {
        Some(p) => seq![MessageView { role: crate::message::Role::System, content: seq![Block::Text(p)] }],
        None => seq![],
    };
    match input {
        InputView::Text(t) => head.push(
            MessageView { role: crate::message::Role::User, content: seq![Block::Text(t)] },
        ),
        InputView::Messages(ms) => head + ms,
    }
}

/// The messages a run starts from.
pub fn build_messages(system_prompt: &Option<String>, input: AgentInput) -> (r: Vec<Message>)
    ensures
        messages_view(r@) == build_messages_spec(
            crate::error::opt_view(*system_prompt),
            input@,
        ),
{
    let mut messages: Vec<Message> = Vec::new();
    if let Some(prompt) = system_prompt {
        messages.push(Message::system(prompt.as_str()));
    }
    let ghost head = messages_view(messages@);
    match input {
        AgentInput::Text(text) => {
            let m = Message::user(text.as_str());
            messages.push(m);
            assert(messages_view(messages@) =~= head.push(m@));
        },
        AgentInput::Messages(ms) => {
            let ghost tail = messages_view(ms@);
            let mut ms = ms;
            messages.append(&mut ms);
            assert(messages_view(messages@) =~= head + tail);
        },
    }
    messages
}

/// The pieces in which a model's answer is streamed: the whole message when it has no
/// text; else its text cut into at most three pieces of equal length (the last one
/// possibly shorter), each an answer of the same role.
pub open spec fn response_chunks(m: MessageView) -> Seq<MessageView> {
    let text = match text_content_spec(m) {
        Some(t) => t,
        None => seq![],
    };
    if text.len() == 0 {
        seq![m]
    } else {
        let count: nat = if text.len() < 3 {
            text.len()
        } else {
            3
        };
        let size: nat = if text.len() % count == 0 {
            text.len() / count
        } else {
            text.len() / count + 1
        };
        chunks_of(text, size).map_values(
            |c: Seq<char>| MessageView { role: m.role, content: seq![Block::Text(c)] },
        )
    }
}

/// The pieces in which a model's answer is streamed; see [`response_chunks`].
pub fn llm_response_chunks(message: &Message) -> (r: Vec<Message>)
    ensures
        messages_view(r@) == response_chunks(message@),
{
    let text = match message.text_content() {
        Some(t) => t,
        None => String::new(),
    };
    let chars = chars_of(text.as_str());
    let len = chars.len();
    let mut out: Vec<Message> = Vec::new();
    if len == 0 {
        out.push(message.duplicate());
        assert(messages_view(out@) =~= seq![message@]);
        return out;
    }
    let count: usize = if len < 3 {
        len
    } else {
        3
    };
    let size = if len % count == 0 {
        len / count
    } else {
        len / count + 1
    };
    assert(size > 0) by (nonlinear_arith)
        requires
            count >= 1,
            len >= count,
            size >= len / count,
    ;
    let pieces = chunk_chars(&chars, size);
    let ghost target = chunks_of(chars@, size as nat).map_values(
        |c: Seq<char>| MessageView { role: message@.role, content: seq![Block::Text(c)] },
    );
    let mut i: usize = 0;
    while i < pieces.len()
        invariant
            i <= pieces@.len(),
            views(pieces@) == chunks_of(chars@, size as nat),
            target == chunks_of(chars@, size as nat).map_values(
                |c: Seq<char>| MessageView { role: message@.role, content: seq![Block::Text(c)] },
            ),
            messages_view(out@) == target.take(i as int),
        decreases pieces@.len() - i,
    {
        let piece = &pieces[i];
        let m = Message::text_message(message.role, piece.as_str());
        let ghost before = messages_view(out@);
        out.push(m);
        assert(views(pieces@)[i as int] == piece@);
        assert(target.len() == pieces@.len());
        assert(target[i as int] == m@);
        assert(messages_view(out@) =~= before.push(m@));
        assert(target.take(i + 1) =~= target.take(i as int).push(target[i as int]));
        i = i + 1;
    }
    assert(target.take(i as int) =~= target);
    out
}

/// The result of a call to a tool that is not registered: `{"error": "tool '<name>' not found"}`.
pub open spec fn not_found_content(name: Seq<char>) -> Json {
    Json::Object(seq![("error"@, Json::String("tool '"@ + name + "' not found"@))])
}

/// The result of a tool call that failed: `{"error": "<error text>"}`.
pub open spec fn error_content(f: Failure) -> Json {
    Json::Object(seq![("error"@, Json::String(failure_text(f)))])
}

/// The tool message that carries the result of a call.
pub open spec fn tool_result_view(id: Seq<char>, content: Json, is_error: bool) -> MessageView {
    MessageView {
        role: crate::message::Role::Tool,
        content: seq![Block::ToolResult { tool_use_id: id, content, is_error }],
    }
}

/// What a guardrail decides.
#[derive(Debug)]
pub enum GuardrailDecision {
    Allow,
    Block { reason: String },
}

impl GuardrailDecision {
    /// What the run is told of the decision: to proceed, or that it was blocked.
    pub fn into_event(self) -> (e: RunEvent)
        ensures
            e@ == match self {
                GuardrailDecision::Allow => RunEventView::Proceed,
                GuardrailDecision::Block { reason } => RunEventView::Blocked { reason: reason@ },
            },
    {
        match self {
            GuardrailDecision::Allow => RunEvent::Proceed,
            GuardrailDecision::Block { reason } => RunEvent::Blocked { reason },
        }
    }
}

/// Where a run is. Indices name the guardrail, hook, streamed piece or tool call at hand.
#[derive(PartialEq, Eq, Structural, Clone, Copy, Debug)]
pub enum RunStage {
    InputGuard(usize),
    EmitRequest,
    BeforeLlm(usize),
    AwaitLlm,
    AfterLlm(usize),
    EmitChunk(usize),
    ToolStart(usize),
    ToolLookup(usize),
    BeforeTool(usize, usize),
    ToolExec(usize),
    AfterTool(usize, usize),
    ToolEnd(usize),
    OutputGuard(usize),
    Done,
}

/// The model of a run.
pub ghost struct RunView {
    pub stage: RunStage,
    pub streaming: bool,
    pub hooks: nat,
    pub guardrails: nat,
    pub input: InputView,
    pub messages: Seq<MessageView>,
    pub chunks: Seq<MessageView>,
    pub calls: Seq<ToolCallView>,
    pub content: Json,
    pub is_error: bool,
}

/// The model of how a run ended: the output's messages, or the error.
pub type Outcome = Result<Seq<MessageView>, Failure>;

/// What the caller does next.
#[derive(Debug)]
pub enum RunAction {
    /// Ask input guardrail `guardrail` about the run's input.
    CheckInput { guardrail: usize },
    /// Send an event (only when streaming).
    Emit { kind: EventKind },
    /// Call hook `hook` before the model, with the run's messages.
    BeforeLlm { hook: usize },
    /// Call the model.
    CallLlm { request: LlmRequest },
    /// Call hook `hook` after the model, with its answer (the run's last message).
    AfterLlm { hook: usize },
    /// Look up the tool `name`.
    LookupTool { name: String },
    /// Call hook `hook` before running a tool.
    BeforeTool { hook: usize, name: String, input: JsonValue },
    /// Run the tool.
    ExecuteTool { name: String, input: JsonValue },
    /// Call hook `hook` after a tool, with its result.
    AfterTool { hook: usize, name: String, output: JsonValue },
    /// Ask output guardrail `guardrail` about the run's output.
    CheckOutput { guardrail: usize },
    /// The run is over.
    Finish { result: Result<AgentOutput, NuroError> },
    /// Nothing left to do.
    Idle,
}

/// The model of an action.
pub ghost enum ActionView {
    CheckInput { guardrail: nat },
    Emit { kind: KindView },
    BeforeLlm { hook: nat },
    CallLlm { messages: Seq<MessageView> },
    AfterLlm { hook: nat },
    LookupTool { name: Seq<char> },
    BeforeTool { hook: nat, name: Seq<char>, input: Json },
    ExecuteTool { name: Seq<char>, input: Json },
    AfterTool { hook: nat, name: Seq<char>, output: Json },
    CheckOutput { guardrail: nat },
    Finish { result: Outcome },
    Idle,
}

/// The model of a run's result.
pub open spec fn outcome_view(r: Result<AgentOutput, NuroError>) -> Outcome {
    match r {
        Ok(o) => Ok(messages_view(o.messages@)),
        Err(e) => Err(e@),
    }
}

impl View for RunAction {
    type V = ActionView;

    open spec fn view(&self) -> ActionView {
        match self {
            RunAction::CheckInput { guardrail } => ActionView::CheckInput { guardrail: *guardrail as nat },
            RunAction::Emit { kind } => ActionView::Emit { kind: kind@ },
            RunAction::BeforeLlm { hook } => ActionView::BeforeLlm { hook: *hook as nat },
            RunAction::CallLlm { request } => ActionView::CallLlm {
                messages: messages_view(request.messages@),
            },
            RunAction::AfterLlm { hook } => ActionView::AfterLlm { hook: *hook as nat },
            RunAction::LookupTool { name } => ActionView::LookupTool { name: name@ },
            RunAction::BeforeTool { hook, name, input } => ActionView::BeforeTool {
                hook: *hook as nat,
                name: name@,
                input: input@,
            },
            RunAction::ExecuteTool { name, input } => ActionView::ExecuteTool {
                name: name@,
                input: input@,
            },
            RunAction::AfterTool { hook, name, output } => ActionView::AfterTool {
                hook: *hook as nat,
                name: name@,
                output: output@,
            },
            RunAction::CheckOutput { guardrail } => ActionView::CheckOutput {
                guardrail: *guardrail as nat,
            },
            RunAction::Finish { result } => ActionView::Finish { result: outcome_view(*result) },
            RunAction::Idle => ActionView::Idle,
        }
    }
}

/// What the caller reports after performing an action.
#[derive(Debug)]
pub enum RunEvent {
    /// The event was sent, the hook returned, or the guardrail allowed.
    Proceed,
    /// The guardrail blocked, for the given reason.
    Blocked { reason: String },
    /// The guardrail, hook or model returned an error.
    Failed { error: NuroError },
    /// The model answered.
    Replied { message: Message },
    /// Whether the tool is registered.
    Found { found: bool },
    /// The tool's result, or its error.
    ToolDone { result: Result<JsonValue, NuroError> },
}

/// The model of an event.
pub ghost enum RunEventView {
    Proceed,
    Blocked { reason: Seq<char> },
    Failed { error: Failure },
    Replied { message: MessageView },
    Found { found: bool },
    ToolDone { result: Result<Json, Failure> },
}

impl View for RunEvent {
    type V = RunEventView;

    open spec fn view(&self) -> RunEventView {
        match self {
            RunEvent::Proceed => RunEventView::Proceed,
            RunEvent::Blocked { reason } => RunEventView::Blocked { reason: reason@ },
            RunEvent::Failed { error } => RunEventView::Failed { error: error@ },
            RunEvent::Replied { message } => RunEventView::Replied { message: message@ },
            RunEvent::Found { found } => RunEventView::Found { found: *found },
            RunEvent::ToolDone { result } => RunEventView::ToolDone {
                result: match result {
                    Ok(v) => Ok(v@),
                    Err(e) => Err(e@),
                },
            },
        }
    }
}

/// Moves to `stage`.
pub open spec fn goto(r: RunView, stage: RunStage) -> (RunView, Option<Outcome>) {
    (RunView { stage, ..r }, None)
}

/// Ends the run with `o`.
pub open spec fn end(r: RunView, o: Outcome) -> (RunView, Option<Outcome>) {
    (RunView { stage: RunStage::Done, ..r }, Some(o))
}

/// Output guardrails from `i` on; with none left the run ends with its messages.
pub open spec fn enter_output(r: RunView, i: nat) -> (RunView, Option<Outcome>) {
    if i < r.guardrails {
        goto(r, RunStage::OutputGuard(i as usize))
    } else {
        end(r, Ok(r.messages))
    }
}

/// Tool calls from `c` on; with none left, the output guardrails.
pub open spec fn enter_tools(r: RunView, c: nat) -> (RunView, Option<Outcome>) {
    if c < r.calls.len() {
        goto(
            r,
            if r.streaming {
                RunStage::ToolStart(c as usize)
            } else {
                RunStage::ToolLookup(c as usize)
            },
        )
    } else {
        enter_output(r, 0)
    }
}

/// Streamed pieces of the answer from `k` on (when streaming); then the tool calls.
pub open spec fn enter_chunks(r: RunView, k: nat) -> (RunView, Option<Outcome>) {
    if r.streaming && k < r.chunks.len() {
        goto(r, RunStage::EmitChunk(k as usize))
    } else {
        enter_tools(r, 0)
    }
}

/// Hooks after the model from `i` on; then the streamed pieces.
pub open spec fn enter_after_llm(r: RunView, i: nat) -> (RunView, Option<Outcome>) {
    if i < r.hooks {
        goto(r, RunStage::AfterLlm(i as usize))
    } else {
        enter_chunks(r, 0)
    }
}

/// Hooks before the model from `i` on; then the model call.
pub open spec fn enter_before_llm(r: RunView, i: nat) -> (RunView, Option<Outcome>) {
    if i < r.hooks {
        goto(r, RunStage::BeforeLlm(i as usize))
    } else {
        goto(r, RunStage::AwaitLlm)
    }
}

/// After the input guardrails: the request event (when streaming), then the hooks.
pub open spec fn enter_request(r: RunView) -> (RunView, Option<Outcome>) {
    if r.streaming {
        goto(r, RunStage::EmitRequest)
    } else {
        enter_before_llm(r, 0)
    }
}

/// Input guardrails from `i` on; then the request.
pub open spec fn enter_input(r: RunView, i: nat) -> (RunView, Option<Outcome>) {
    if i < r.guardrails {
        goto(r, RunStage::InputGuard(i as usize))
    } else {
        enter_request(r)
    }
}

/// Hooks before tool call `c` from `i` on; then the tool.
pub open spec fn enter_before_tool(r: RunView, c: nat, i: nat) -> (RunView, Option<Outcome>) {
    if i < r.hooks {
        goto(r, RunStage::BeforeTool(c as usize, i as usize))
    } else {
        goto(r, RunStage::ToolExec(c as usize))
    }
}

/// The result of tool call `c` joins the messages; then the next call.
pub open spec fn finish_call(r: RunView, c: nat) -> (RunView, Option<Outcome>) {
    enter_tools(
        RunView {
            messages: r.messages.push(tool_result_view(r.calls[c as int].id, r.content, r.is_error)),
            ..r
        },
        (c + 1) as nat,
    )
}

/// Hooks after tool call `c` from `i` on; then its end event (when streaming) and its
/// result.
pub open spec fn enter_after_tool(r: RunView, c: nat, i: nat) -> (RunView, Option<Outcome>) {
    if i < r.hooks {
        goto(r, RunStage::AfterTool(c as usize, i as usize))
    } else if r.streaming {
        goto(r, RunStage::ToolEnd(c as usize))
    } else {
        finish_call(r, c)
    }
}

/// The run after an event; the outcome when it ends. An event that does not answer the
/// pending action changes nothing.
pub open spec fn advance(r: RunView, e: RunEventView) -> (RunView, Option<Outcome>) {
    match r.stage {
        RunStage::InputGuard(i) => match e {
            RunEventView::Proceed => enter_input(r, (i + 1) as nat),
            RunEventView::Blocked { reason } => end(
                r,
                Err(Failure::InvalidInput("input blocked by guardrail: "@ + reason)),
            ),
            RunEventView::Failed { error } => end(r, Err(error)),
            _ => (r, None),
        },
        RunStage::EmitRequest => match e {
            RunEventView::Proceed => enter_before_llm(r, 0),
            _ => (r, None),
        },
        RunStage::BeforeLlm(i) => match e {
            RunEventView::Proceed => enter_before_llm(r, (i + 1) as nat),
            RunEventView::Failed { error } => end(r, Err(error)),
            _ => (r, None),
        },
        RunStage::AwaitLlm => match e {
            RunEventView::Replied { message } => enter_after_llm(
                RunView {
                    messages: r.messages.push(message),
                    chunks: response_chunks(message),
                    calls: tool_uses_spec(message),
                    ..r
                },
                0,
            ),
            RunEventView::Failed { error } => end(r, Err(error)),
            _ => (r, None),
        },
        RunStage::AfterLlm(i) => match e {
            RunEventView::Proceed => enter_after_llm(r, (i + 1) as nat),
            RunEventView::Failed { error } => end(r, Err(error)),
            _ => (r, None),
        },
        RunStage::EmitChunk(k) => match e {
            RunEventView::Proceed => enter_chunks(r, (k + 1) as nat),
            _ => (r, None),
        },
        RunStage::ToolStart(c) => match e {
            RunEventView::Proceed => goto(r, RunStage::ToolLookup(c)),
            _ => (r, None),
        },
        RunStage::ToolLookup(c) => match e {
            RunEventView::Found { found } => if found {
                enter_before_tool(r, c as nat, 0)
            } else {
                enter_after_tool(
                    RunView {
                        content: not_found_content(r.calls[c as int].name),
                        is_error: true,
                        ..r
                    },
                    c as nat,
                    0,
                )
            },
            _ => (r, None),
        },
        RunStage::BeforeTool(c, i) => match e {
            RunEventView::Proceed => enter_before_tool(r, c as nat, (i + 1) as nat),
            RunEventView::Failed { error } => end(r, Err(error)),
            _ => (r, None),
        },
        RunStage::ToolExec(c) => match e {
            RunEventView::ToolDone { result } => match result {
                Ok(v) => enter_after_tool(RunView { content: v, is_error: false, ..r }, c as nat, 0),
                Err(f) => enter_after_tool(
                    RunView { content: error_content(f), is_error: true, ..r },
                    c as nat,
                    0,
                ),
            },
            _ => (r, None),
        },
        RunStage::AfterTool(c, i) => match e {
            RunEventView::Proceed => enter_after_tool(r, c as nat, (i + 1) as nat),
            RunEventView::Failed { error } => end(r, Err(error)),
            _ => (r, None),
        },
        RunStage::ToolEnd(c) => match e {
            RunEventView::Proceed => finish_call(r, c as nat),
            _ => (r, None),
        },
        RunStage::OutputGuard(i) => match e {
            RunEventView::Proceed => enter_output(r, (i + 1) as nat),
            RunEventView::Blocked { reason } => end(
                r,
                Err(Failure::Llm("output blocked by guardrail: "@ + reason)),
            ),
            RunEventView::Failed { error } => end(r, Err(error)),
            _ => (r, None),
        },
        RunStage::Done => (r, None),
    }
}

/// The action a run waits on.
pub open spec fn pending(r: RunView) -> ActionView {
    match r.stage {
        RunStage::InputGuard(i) => ActionView::CheckInput { guardrail: i as nat },
        RunStage::EmitRequest => ActionView::Emit { kind: KindView::LlmRequest { messages: r.messages } },
        RunStage::BeforeLlm(i) => ActionView::BeforeLlm { hook: i as nat },
        RunStage::AwaitLlm => ActionView::CallLlm { messages: r.messages },
        RunStage::AfterLlm(i) => ActionView::AfterLlm { hook: i as nat },
        RunStage::EmitChunk(k) => ActionView::Emit {
            kind: KindView::LlmResponse { message: r.chunks[k as int] },
        },
        RunStage::ToolStart(c) => ActionView::Emit {
            kind: KindView::ToolCallStart {
                tool_name: r.calls[c as int].name,
                input: r.calls[c as int].input,
            },
        },
        RunStage::ToolLookup(c) => ActionView::LookupTool { name: r.calls[c as int].name },
        RunStage::BeforeTool(c, i) => ActionView::BeforeTool {
            hook: i as nat,
            name: r.calls[c as int].name,
            input: r.calls[c as int].input,
        },
        RunStage::ToolExec(c) => ActionView::ExecuteTool {
            name: r.calls[c as int].name,
            input: r.calls[c as int].input,
        },
        RunStage::AfterTool(c, i) => ActionView::AfterTool {
            hook: i as nat,
            name: r.calls[c as int].name,
            output: r.content,
        },
        RunStage::ToolEnd(c) => ActionView::Emit {
            kind: KindView::ToolCallEnd { tool_name: r.calls[c as int].name, output: r.content },
        },
        RunStage::OutputGuard(i) => ActionView::CheckOutput { guardrail: i as nat },
        RunStage::Done => ActionView::Idle,
    }
}

/// The run and the action after an event: the end of the run when it ends, else what it
/// waits on next.
pub open spec fn step_spec(r: RunView, e: RunEventView) -> (RunView, ActionView) {
    let (r2, o) = advance(r, e);
    (
        r2,
        match o {
            Some(res) => ActionView::Finish { result: res },
            None => pending(r2),
        },
    )
}

/// The indices of a run's stage name existing guardrails, hooks, pieces and calls.
pub open spec fn run_wf(r: RunView) -> bool {
    match r.stage {
        RunStage::InputGuard(i) => i < r.guardrails,
        RunStage::BeforeLlm(i) => i < r.hooks,
        RunStage::AfterLlm(i) => i < r.hooks,
        RunStage::EmitChunk(k) => k < r.chunks.len(),
        RunStage::ToolStart(c) => c < r.calls.len(),
        RunStage::ToolLookup(c) => c < r.calls.len(),
        RunStage::BeforeTool(c, i) => c < r.calls.len() && i < r.hooks,
        RunStage::ToolExec(c) => c < r.calls.len(),
        RunStage::AfterTool(c, i) => c < r.calls.len() && i < r.hooks,
        RunStage::ToolEnd(c) => c < r.calls.len(),
        RunStage::OutputGuard(i) => i < r.guardrails,
        _ => true,
    }
}

/// The model of an optional run result.
pub open spec fn opt_outcome(o: Option<Result<AgentOutput, NuroError>>) -> Option<Outcome> {
    match o {
        Some(r) => Some(outcome_view(r)),
        None => None,
    }
}

/// A run before its first step: the messages built from the prompt and the input.
pub open spec fn initial_run(
    system_prompt: Option<Seq<char>>,
    input: InputView,
    hooks: nat,
    guardrails: nat,
    streaming: bool,
) -> RunView {
    RunView {
        stage: RunStage::Done,
        streaming,
        hooks,
        guardrails,
        input,
        messages: build_messages_spec(system_prompt, input),
        chunks: seq![],
        calls: seq![],
        content: Json::Null,
        is_error: false,
    }
}

/// One run of the agent loop.
#[derive(Debug)]
pub struct AgentRun {
    stage: RunStage,
    streaming: bool,
    hooks: usize,
    guardrails: usize,
    input: AgentInput,
    messages: Vec<Message>,
    chunks: Vec<Message>,
    calls: Vec<ToolCall>,
    content: JsonValue,
    is_error: bool,
}

impl View for AgentRun {
    type V = RunView;

    closed spec fn view(&self) -> RunView {
        RunView {
            stage: self.stage,
            streaming: self.streaming,
            hooks: self.hooks as nat,
            guardrails: self.guardrails as nat,
            input: self.input@,
            messages: messages_view(self.messages@),
            chunks: messages_view(self.chunks@),
            calls: self.calls@.map_values(|c: ToolCall| c@),
            content: self.content@,
            is_error: self.is_error,
        }
    }
}

impl AgentRun {
    /// Starts a run with `hooks` hooks and `guardrails` guardrails; events are emitted
    /// only when `streaming`. Returns the run and its first action.
    pub fn start(
        system_prompt: &Option<String>,
        input: AgentInput,
        hooks: usize,
        guardrails: usize,
        streaming: bool,
    ) -> (r: (AgentRun, RunAction))
        ensures
            r.0@ == enter_input(
                initial_run(
                    crate::error::opt_view(*system_prompt),
                    input@,
                    hooks as nat,
                    guardrails as nat,
                    streaming,
                ),
                0,
            ).0,
            r.1@ == pending(r.0@),
            run_wf(r.0@),
    {
        let kept = input.duplicate();
        let messages = build_messages(system_prompt, input);
        let mut run = AgentRun {
            stage: RunStage::Done,
            streaming,
            hooks,
            guardrails,
            input: kept,
            messages,
            chunks: Vec::new(),
            calls: Vec::new(),
            content: JsonValue::Null,
            is_error: false,
        };
        assert(run@.chunks =~= seq![]);
        assert(run@.calls =~= seq![]);
        let o = run.enter_input(0);
        let a = run.pending();
        (run, a)
    }

    /// The input of the run, for the input guardrails.
    pub fn input(&self) -> (r: &AgentInput)
        ensures
            r@ == self@.input,
    {
        &self.input
    }

    /// The messages so far, for the hooks before the model.
    pub fn messages(&self) -> (r: &Vec<Message>)
        ensures
            messages_view(r@) == self@.messages,
    {
        &self.messages
    }

    /// The last message (the model's answer, for the hooks after the model).
    pub fn last_message(&self) -> (r: Option<&Message>)
        ensures
            r matches Some(m) ==> self@.messages.len() > 0 && m@ == self@.messages.last(),
            r is None ==> self@.messages.len() == 0,
    {
        if self.messages.len() == 0 {
            None
        } else {
            Some(&self.messages[self.messages.len() - 1])
        }
    }

    /// The output as it stands, for the output guardrails.
    pub fn output(&self) -> (r: AgentOutput)
        ensures
            messages_view(r.messages@) == self@.messages,
    {
        AgentOutput::new(duplicate_messages(&self.messages))
    }

    fn end_run(&mut self, res: Result<AgentOutput, NuroError>) -> (o: Option<Result<AgentOutput, NuroError>>)
        ensures
            (final(self)@, opt_outcome(o)) == end(old(self)@, outcome_view(res)),
            run_wf(final(self)@),
    {
        self.stage = RunStage::Done;
        Some(res)
    }

    fn enter_output(&mut self, i: usize) -> (o: Option<Result<AgentOutput, NuroError>>)
        ensures
            (final(self)@, opt_outcome(o)) == enter_output(old(self)@, i as nat),
            run_wf(final(self)@),
    {
        if i < self.guardrails {
            self.stage = RunStage::OutputGuard(i);
            None
        } else {
            let out = AgentOutput::new(duplicate_messages(&self.messages));
            self.end_run(Ok(out))
        }
    }

    fn enter_tools(&mut self, c: usize) -> (o: Option<Result<AgentOutput, NuroError>>)
        ensures
            (final(self)@, opt_outcome(o)) == enter_tools(old(self)@, c as nat),
            run_wf(final(self)@),
    {
        if c < self.calls.len() {
            self.stage = if self.streaming {
                RunStage::ToolStart(c)
            } else {
                RunStage::ToolLookup(c)
            };
            None
        } else {
            self.enter_output(0)
        }
    }

    fn enter_chunks(&mut self, k: usize) -> (o: Option<Result<AgentOutput, NuroError>>)
        ensures
            (final(self)@, opt_outcome(o)) == enter_chunks(old(self)@, k as nat),
            run_wf(final(self)@),
    {
        if self.streaming && k < self.chunks.len() {
            self.stage = RunStage::EmitChunk(k);
            None
        } else {
            self.enter_tools(0)
        }
    }

    fn enter_after_llm(&mut self, i: usize) -> (o: Option<Result<AgentOutput, NuroError>>)
        ensures
            (final(self)@, opt_outcome(o)) == enter_after_llm(old(self)@, i as nat),
            run_wf(final(self)@),
    {
        if i < self.hooks {
            self.stage = RunStage::AfterLlm(i);
            None
        } else {
            self.enter_chunks(0)
        }
    }

    fn enter_before_llm(&mut self, i: usize) -> (o: Option<Result<AgentOutput, NuroError>>)
        ensures
            (final(self)@, opt_outcome(o)) == enter_before_llm(old(self)@, i as nat),
            run_wf(final(self)@),
    {
        if i < self.hooks {
            self.stage = RunStage::BeforeLlm(i);
        } else {
            self.stage = RunStage::AwaitLlm;
        }
        None
    }

    fn enter_input(&mut self, i: usize) -> (o: Option<Result<AgentOutput, NuroError>>)
        ensures
            (final(self)@, opt_outcome(o)) == enter_input(old(self)@, i as nat),
            run_wf(final(self)@),
    {
        if i < self.guardrails {
            self.stage = RunStage::InputGuard(i);
            None
        } else if self.streaming {
            self.stage = RunStage::EmitRequest;
            None
        } else {
            self.enter_before_llm(0)
        }
    }

    fn enter_before_tool(&mut self, c: usize, i: usize) -> (o: Option<Result<AgentOutput, NuroError>>)
        requires
            c < old(self)@.calls.len(),
        ensures
            (final(self)@, opt_outcome(o)) == enter_before_tool(old(self)@, c as nat, i as nat),
            run_wf(final(self)@),
    {
        if i < self.hooks {
            self.stage = RunStage::BeforeTool(c, i);
        } else {
            self.stage = RunStage::ToolExec(c);
        }
        None
    }

    fn finish_call(&mut self, c: usize) -> (o: Option<Result<AgentOutput, NuroError>>)
        requires
            c < old(self)@.calls.len(),
        ensures
            (final(self)@, opt_outcome(o)) == finish_call(old(self)@, c as nat),
            run_wf(final(self)@),
    {
        let m = Message::tool_result(self.calls[c].id.clone(), self.content.duplicate(), self.is_error);
        let ghost before = self@;
        let ghost mv = m@;
        assert(self.calls@.map_values(|x: ToolCall| x@)[c as int] == self.calls@[c as int]@);
        self.messages.push(m);
        assert(messages_view(self.messages@) =~= before.messages.push(mv));
        assert(self@ == (RunView {
            messages: before.messages.push(
                tool_result_view(before.calls[c as int].id, before.content, before.is_error),
            ),
            ..before
        }));
        let n = self.calls.len();
        assert(c < n);
        self.enter_tools(c + 1)
    }

    fn enter_after_tool(&mut self, c: usize, i: usize) -> (o: Option<Result<AgentOutput, NuroError>>)
        requires
            c < old(self)@.calls.len(),
        ensures
            (final(self)@, opt_outcome(o)) == enter_after_tool(old(self)@, c as nat, i as nat),
            run_wf(final(self)@),
    {
        if i < self.hooks {
            self.stage = RunStage::AfterTool(c, i);
            None
        } else if self.streaming {
            self.stage = RunStage::ToolEnd(c);
            None
        } else {
            self.finish_call(c)
        }
    }

    /// The action the run waits on.
    pub fn pending(&self) -> (a: RunAction)
        requires
            run_wf(self@),
        ensures
            a@ == pending(self@),
    {
        match self.stage {
            RunStage::InputGuard(i) => RunAction::CheckInput { guardrail: i },
            RunStage::EmitRequest => RunAction::Emit {
                kind: EventKind::LlmRequest { messages: duplicate_messages(&self.messages) },
            },
            RunStage::BeforeLlm(i) => RunAction::BeforeLlm { hook: i },
            RunStage::AwaitLlm => RunAction::CallLlm {
                request: LlmRequest::new(duplicate_messages(&self.messages)),
            },
            RunStage::AfterLlm(i) => RunAction::AfterLlm { hook: i },
            RunStage::EmitChunk(k) => RunAction::Emit {
                kind: EventKind::LlmResponse { message: self.chunks[k].duplicate() },
            },
            RunStage::ToolStart(c) => RunAction::Emit {
                kind: EventKind::ToolCallStart {
                    tool_name: self.calls[c].name.clone(),
                    input: self.calls[c].input.duplicate(),
                },
            },
            RunStage::ToolLookup(c) => RunAction::LookupTool { name: self.calls[c].name.clone() },
            RunStage::BeforeTool(c, i) => RunAction::BeforeTool {
                hook: i,
                name: self.calls[c].name.clone(),
                input: self.calls[c].input.duplicate(),
            },
            RunStage::ToolExec(c) => RunAction::ExecuteTool {
                name: self.calls[c].name.clone(),
                input: self.calls[c].input.duplicate(),
            },
            RunStage::AfterTool(c, i) => RunAction::AfterTool {
                hook: i,
                name: self.calls[c].name.clone(),
                output: self.content.duplicate(),
            },
            RunStage::ToolEnd(c) => RunAction::Emit {
                kind: EventKind::ToolCallEnd {
                    tool_name: self.calls[c].name.clone(),
                    output: self.content.duplicate(),
                },
            },
            RunStage::OutputGuard(i) => RunAction::CheckOutput { guardrail: i },
            RunStage::Done => RunAction::Idle,
        }
    }

    /// Hands the outcome of the pending action to the run and returns the next action;
    /// see [`step_spec`].
    pub fn step(&mut self, event: RunEvent) -> (a: RunAction)
        requires
            run_wf(old(self)@),
        ensures
            (final(self)@, a@) == step_spec(old(self)@, event@),
            run_wf(final(self)@),
    {
        let o = match self.stage {
            RunStage::InputGuard(i) => match event {
                RunEvent::Proceed => self.enter_input(i + 1),
                RunEvent::Blocked { reason } => {
                    let m = concat_str("input blocked by guardrail: ", reason.as_str());
                    self.end_run(Err(NuroError::InvalidInput(m)))
                },
                RunEvent::Failed { error } => self.end_run(Err(error)),
                _ => None,
            },
            RunStage::EmitRequest => match event {
                RunEvent::Proceed => self.enter_before_llm(0),
                _ => None,
            },
            RunStage::BeforeLlm(i) => match event {
                RunEvent::Proceed => self.enter_before_llm(i + 1),
                RunEvent::Failed { error } => self.end_run(Err(error)),
                _ => None,
            },
            RunStage::AwaitLlm => match event {
                RunEvent::Replied { message } => {
                    let ghost mv = message@;
                    let ghost before = self@;
                    let chunks = llm_response_chunks(&message);
                    let calls = message.tool_uses();
                    self.messages.push(message);
                    self.chunks = chunks;
                    self.calls = calls;
                    assert(messages_view(self.messages@) =~= before.messages.push(mv));
                    assert(self@ == (RunView {
                        messages: before.messages.push(mv),
                        chunks: response_chunks(mv),
                        calls: tool_uses_spec(mv),
                        ..before
                    }));
                    self.enter_after_llm(0)
                },
                RunEvent::Failed { error } => self.end_run(Err(error)),
                _ => None,
            },
            RunStage::AfterLlm(i) => match event {
                RunEvent::Proceed => self.enter_after_llm(i + 1),
                RunEvent::Failed { error } => self.end_run(Err(error)),
                _ => None,
            },
            RunStage::EmitChunk(k) => match event {
                RunEvent::Proceed => {
                    let n = self.chunks.len();
                    assert(k < n);
                    self.enter_chunks(k + 1)
                },
                _ => None,
            },
            RunStage::ToolStart(c) => match event {
                RunEvent::Proceed => {
                    self.stage = RunStage::ToolLookup(c);
                    None
                },
                _ => None,
            },
            RunStage::ToolLookup(c) => match event {
                RunEvent::Found { found } => {
                    if found {
                        self.enter_before_tool(c, 0)
                    } else {
                        let text = concat3("tool '", self.calls[c].name.as_str(), "' not found");
                        self.content = JsonValue::object1("error", JsonValue::from_str(text.as_str()));
                        self.is_error = true;
                        self.enter_after_tool(c, 0)
                    }
                },
                _ => None,
            },
            RunStage::BeforeTool(c, i) => match event {
                RunEvent::Proceed => self.enter_before_tool(c, i + 1),
                RunEvent::Failed { error } => self.end_run(Err(error)),
                _ => None,
            },
            RunStage::ToolExec(c) => match event {
                RunEvent::ToolDone { result } => {
                    match result {
                        Ok(v) => {
                            self.content = v;
                            self.is_error = false;
                        },
                        Err(e) => {
                            let text = e.to_text();
                            self.content = JsonValue::object1("error", JsonValue::from_str(text.as_str()));
                            self.is_error = true;
                        },
                    }
                    self.enter_after_tool(c, 0)
                },
                _ => None,
            },
            RunStage::AfterTool(c, i) => match event {
                RunEvent::Proceed => self.enter_after_tool(c, i + 1),
                RunEvent::Failed { error } => self.end_run(Err(error)),
                _ => None,
            },
            RunStage::ToolEnd(c) => match event {
                RunEvent::Proceed => self.finish_call(c),
                _ => None,
            },
            RunStage::OutputGuard(i) => match event {
                RunEvent::Proceed => self.enter_output(i + 1),
                RunEvent::Blocked { reason } => {
                    let m = concat_str("output blocked by guardrail: ", reason.as_str());
                    self.end_run(Err(NuroError::Llm(m)))
                },
                RunEvent::Failed { error } => self.end_run(Err(error)),
                _ => None,
            },
            RunStage::Done => None,
        };
        match o {
            Some(res) => RunAction::Finish { result: res },
            None => self.pending(),
        }
    }
}

/// A middleware that traces agent runs.
#[derive(Debug)]
pub struct TracingMiddleware;

impl TracingMiddleware {
    /// The middleware.
    pub fn new() -> (m: TracingMiddleware) {
        TracingMiddleware
    }

    /// The session and run a trace names: their ids, or `-` when missing.
    pub fn trace_labels(&self, ctx: &AgentContext) -> (r: (String, String))
        ensures
            r.0@ == match ctx.session {
                Some(s) => s.session_id@,
                None => "-"@,
            },
            r.1@ == match ctx.session {
                Some(s) => match s.run_id {
                    Some(run) => run@,
                    None => "-"@,
                },
                None => "-"@,
            },
    {
        match &ctx.session {
            Some(s) => {
                let run = match &s.run_id {
                    Some(r) => r.clone(),
                    None => String::from_str("-"),
                };
                (s.session_id.clone(), run)
            },
            None => (String::from_str("-"), String::from_str("-")),
        }
    }
}

/// `m` is the tool message that answers call `c`.
pub open spec fn answers_call(m: MessageView, c: ToolCallView) -> bool {
    &&& m.role == crate::message::Role::Tool
    &&& m.content.len() == 1
    &&& (m.content[0] matches Block::ToolResult { tool_use_id, .. } && tool_use_id == c.id)
}

/// `ms` is the conversation `base`, then the model's answer (whose tool calls are
/// `calls`), then the answers to the first `c` calls, in order.
pub open spec fn answered(ms: Seq<MessageView>, base: Seq<MessageView>, calls: Seq<ToolCallView>, c: nat) -> bool {
    &&& ms.len() == base.len() + 1 + c
    &&& c <= calls.len()
    &&& ms.take(base.len() as int) == base
    &&& calls == tool_uses_spec(ms[base.len() as int])
    &&& forall|k: int| 0 <= k < c ==> answers_call(#[trigger] ms[base.len() + 1 + k], calls[k])
}

/// The model has answered in this stage.
pub open spec fn replied(stage: RunStage) -> bool {
    !(stage is InputGuard || stage is EmitRequest || stage is BeforeLlm || stage is AwaitLlm)
}

/// The number of tool calls whose answers are in the messages at this stage.
pub open spec fn calls_done(r: RunView) -> nat {
    match r.stage {
        RunStage::ToolStart(c) => c as nat,
        RunStage::ToolLookup(c) => c as nat,
        RunStage::BeforeTool(c, _) => c as nat,
        RunStage::ToolExec(c) => c as nat,
        RunStage::AfterTool(c, _) => c as nat,
        RunStage::ToolEnd(c) => c as nat,
        RunStage::OutputGuard(_) => r.calls.len(),
        _ => 0,
    }
}

/// What a run's messages are, for a run that started from the conversation `base`: the
/// conversation alone until the model answers; then the conversation, the answer and the
/// answers to the calls run so far.
pub open spec fn run_inv(r: RunView, base: Seq<MessageView>) -> bool {
    if !replied(r.stage) {
        r.messages == base
    } else if r.stage is Done {
        true
    } else {
        answered(r.messages, base, r.calls, calls_done(r)) && r.calls.len() <= usize::MAX
    }
}

proof fn lemma_enter_output(r: RunView, i: nat, base: Seq<MessageView>)
    requires
        r.calls.len() <= usize::MAX,
        answered(r.messages, base, r.calls, r.calls.len()),
    ensures
        ({
            let (r2, o) = enter_output(r, i);
            &&& o is None ==> run_inv(r2, base) && run_wf(r2) == (i < r.guardrails)
            &&& (o matches Some(res) ==> res == Ok::<Seq<MessageView>, Failure>(r.messages))
            &&& r2.calls == r.calls
        }),
{
}

proof fn lemma_enter_tools(r: RunView, c: nat, base: Seq<MessageView>)
    requires
        r.calls.len() <= usize::MAX,
        answered(r.messages, base, r.calls, c),
    ensures
        ({
            let (r2, o) = enter_tools(r, c);
            &&& o is None ==> run_inv(r2, base)
            &&& (o matches Some(res) ==> res == Ok::<Seq<MessageView>, Failure>(r.messages) && answered(
                r.messages,
                base,
                r.calls,
                r.calls.len(),
            ))
            &&& r2.calls == r.calls
        }),
{
    if c >= r.calls.len() {
        lemma_enter_output(r, 0, base);
    }
}

proof fn lemma_finish_call(r: RunView, c: nat, base: Seq<MessageView>)
    requires
        r.calls.len() <= usize::MAX,
        answered(r.messages, base, r.calls, c),
        c < r.calls.len(),
    ensures
        ({
            let (r2, o) = finish_call(r, c);
            &&& o is None ==> run_inv(r2, base)
            &&& (o matches Some(res) ==> res matches Ok(ms) && answered(ms, base, r.calls, r.calls.len()))
        }),
{
    let m = tool_result_view(r.calls[c as int].id, r.content, r.is_error);
    let r1 = RunView { messages: r.messages.push(m), ..r };
    assert(r1.messages.take(base.len() as int) =~= r.messages.take(base.len() as int));
    assert(r1.messages[base.len() as int] == r.messages[base.len() as int]);
    assert forall|k: int| 0 <= k < c + 1 implies answers_call(#[trigger] r1.messages[base.len() + 1 + k], r1.calls[k]) by {
        if k < c {
            assert(r1.messages[base.len() + 1 + k] == r.messages[base.len() + 1 + k]);
        }
    }
    lemma_enter_tools(r1, (c + 1) as nat, base);
}

proof fn lemma_enter_after_tool(r: RunView, c: nat, i: nat, base: Seq<MessageView>)
    requires
        r.calls.len() <= usize::MAX,
        answered(r.messages, base, r.calls, c),
        c < r.calls.len(),
    ensures
        ({
            let (r2, o) = enter_after_tool(r, c, i);
            &&& o is None ==> run_inv(r2, base)
            &&& (o matches Some(res) ==> res matches Ok(ms) && answered(ms, base, r.calls, r.calls.len()))
        }),
{
    if i >= r.hooks && !r.streaming {
        lemma_finish_call(r, c, base);
    }
}

proof fn lemma_enter_chunks(r: RunView, k: nat, base: Seq<MessageView>)
    requires
        r.calls.len() <= usize::MAX,
        answered(r.messages, base, r.calls, 0),
    ensures
        ({
            let (r2, o) = enter_chunks(r, k);
            &&& o is None ==> run_inv(r2, base)
            &&& (o matches Some(res) ==> res matches Ok(ms) && answered(ms, base, r.calls, r.calls.len()))
        }),
{
    if !(r.streaming && k < r.chunks.len()) {
        lemma_enter_tools(r, 0, base);
    }
}

proof fn lemma_enter_after_llm(r: RunView, i: nat, base: Seq<MessageView>)
    requires
        r.calls.len() <= usize::MAX,
        answered(r.messages, base, r.calls, 0),
    ensures
        ({
            let (r2, o) = enter_after_llm(r, i);
            &&& o is None ==> run_inv(r2, base)
            &&& (o matches Some(res) ==> res matches Ok(ms) && answered(ms, base, r.calls, r.calls.len()))
        }),
{
    if i >= r.hooks {
        lemma_enter_chunks(r, 0, base);
    }
}

/// Every tool call the model makes is answered, once and in order: a run that started
/// from the conversation `base` keeps `run_inv` through every step, and when it ends
/// with an output, the output is the conversation, the model's answer, and one tool
/// message answering each of the answer's tool calls, in the order of the calls.
pub proof fn lemma_tool_calls_answered_in_order(r: RunView, e: RunEventView, base: Seq<MessageView>)
    requires
        run_wf(r),
        run_inv(r, base),
        e matches RunEventView::Replied { message } ==> tool_uses_spec(message).len() <= usize::MAX,
    ensures
        ({
            let (r2, o) = advance(r, e);
            &&& o is None ==> run_inv(r2, base)
            &&& (o matches Some(Ok(ms)) ==> answered(ms, base, r2.calls, r2.calls.len()))
        }),
{
    match r.stage {
        RunStage::AwaitLlm => {
            match e {
                RunEventView::Replied { message } => {
                    let r1 = RunView {
                        messages: r.messages.push(message),
                        chunks: response_chunks(message),
                        calls: tool_uses_spec(message),
                        ..r
                    };
                    assert(r1.messages.take(base.len() as int) =~= base);
                    assert(r1.messages[base.len() as int] == message);
                    lemma_enter_after_llm(r1, 0, base);
                },
                _ => {},
            }
        },
        RunStage::AfterLlm(i) => {
            lemma_enter_after_llm(r, (i + 1) as nat, base);
        },
        RunStage::EmitChunk(k) => {
            lemma_enter_chunks(r, (k + 1) as nat, base);
        },
        RunStage::ToolLookup(c) => {
            match e {
                RunEventView::Found { found } => {
                    if !found {
                        let r1 = RunView {
                            content: not_found_content(r.calls[c as int].name),
                            is_error: true,
                            ..r
                        };
                        lemma_enter_after_tool(r1, c as nat, 0, base);
                    }
                },
                _ => {},
            }
        },
        RunStage::ToolExec(c) => {
            match e {
                RunEventView::ToolDone { result } => {
                    match result {
                        Ok(v) => {
                            lemma_enter_after_tool(RunView { content: v, is_error: false, ..r }, c as nat, 0, base);
                        },
                        Err(f) => {
                            lemma_enter_after_tool(
                                RunView { content: error_content(f), is_error: true, ..r },
                                c as nat,
                                0,
                                base,
                            );
                        },
                    }
                },
                _ => {},
            }
        },
        RunStage::AfterTool(c, i) => {
            lemma_enter_after_tool(r, c as nat, (i + 1) as nat, base);
        },
        RunStage::ToolEnd(c) => {
            lemma_finish_call(r, c as nat, base);
        },
        RunStage::OutputGuard(i) => {
            lemma_enter_output(r, (i + 1) as nat, base);
        },
        _ => {},
    }
}

/// A run starts from the conversation built from the prompt and the input, before the
/// model has answered.
pub proof fn lemma_run_starts_from_conversation(
    system_prompt: Option<Seq<char>>,
    input: InputView,
    hooks: nat,
    guardrails: nat,
    streaming: bool,
)
    ensures
        ({
            let r0 = initial_run(system_prompt, input, hooks, guardrails, streaming);
            let (r, o) = enter_input(r0, 0);
            &&& o is None
            &&& run_inv(r, build_messages_spec(system_prompt, input))
            &&& run_wf(r)
        }),
{
}

/// A blocking guardrail stops the run: on the input, before the model is called, with an
/// invalid-input error; on the output, with a model error.
pub proof fn lemma_guardrail_block_ends_run(r: RunView, reason: Seq<char>)
    requires
        r.stage is InputGuard || r.stage is OutputGuard,
    ensures
        advance(r, RunEventView::Blocked { reason }).0.stage == RunStage::Done,
        r.stage is InputGuard ==> advance(r, RunEventView::Blocked { reason }).1 == Some(
            Err::<Seq<MessageView>, _>(Failure::InvalidInput("input blocked by guardrail: "@ + reason)),
        ),
        r.stage is OutputGuard ==> advance(r, RunEventView::Blocked { reason }).1 == Some(
            Err::<Seq<MessageView>, _>(Failure::Llm("output blocked by guardrail: "@ + reason)),
        ),
{
}

/// A finished run stays finished: whatever it is told, it changes nothing and asks for
/// nothing.
pub proof fn lemma_finished_run_is_idle(r: RunView, e: RunEventView)
    requires
        r.stage == RunStage::Done,
    ensures
        step_spec(r, e) == (r, ActionView::Idle),
{
}

/// Building a run without a language model fails.
pub fn required_llm<L>(llm: Option<L>) -> (r: Result<L, NuroError>)
    ensures
        match llm {
            Some(l) => r == Ok::<L, NuroError>(l),
            None => r matches Err(e) && e@ == Failure::InvalidInput("LLM provider is required"@),
        },
{
    match llm {
        Some(l) => Ok(l),
        None => Err(NuroError::InvalidInput(String::from_str("LLM provider is required"))),
    }
}

} // verus!
