//! What an agent is given and what it gives back.
use vstd::prelude::*;

use crate::error::opt_view;
use crate::json::{json_text, Json, JsonValue};
use crate::message::{
    duplicate_messages, messages_view, text_content_spec, Block, Message, MessageView,
};

verus! {

/// The input of one agent run.
#[derive(Debug)]
pub enum AgentInput {
    Text(String),
    Messages(Vec<Message>),
}

/// The model of an agent input.
pub ghost enum InputView {
    Text(Seq<char>),
    Messages(Seq<MessageView>),
}

impl View for AgentInput {
    type V = InputView;

    open spec fn view(&self) -> InputView {
        match self {
            AgentInput::Text(t) => InputView::Text(t@),
            AgentInput::Messages(ms) => InputView::Messages(messages_view(ms@)),
        }
    }
}

impl AgentInput {
    /// A plain text input.
    pub fn text(text: String) -> (r: AgentInput)
        ensures
            r@ == InputView::Text(text@),
    {
        AgentInput::Text(text)
    }

    /// An input made of ready messages.
    pub fn messages(messages: Vec<Message>) -> (r: AgentInput)
        ensures
            r@ == InputView::Messages(messages_view(messages@)),
    {
        AgentInput::Messages(messages)
    }

    /// A deep copy of the input.
    pub fn duplicate(&self) -> (r: AgentInput)
        ensures
            r@ == self@,
    {
        match self {
            AgentInput::Text(t) => AgentInput::Text(t.clone()),
            AgentInput::Messages(ms) => AgentInput::Messages(duplicate_messages(ms)),
        }
    }
}

/// The messages an agent run produced, in order.
#[derive(Debug)]
pub struct AgentOutput {
    pub messages: Vec<Message>,
}

/// The content of the first result block in `bs` that is not an error.
pub open spec fn first_ok_result(bs: Seq<Block>) -> Option<Json>
    decreases bs.len(),
{
    if bs.len() == 0 {
        None
    } else {
        match bs[0] {
            Block::ToolResult { content, is_error, .. } if !is_error => Some(content),
            _ => first_ok_result(bs.drop_first()),
        }
    }
}

/// Searching the first `n` messages from the last one backwards, the first successful
/// tool result found.
pub open spec fn latest_ok_result(ms: Seq<MessageView>, n: int) -> Option<Json>
    decreases n,
{
    if n <= 0 || n > ms.len() {
        None
    } else {
        match first_ok_result(ms[n - 1].content) {
            Some(c) => Some(c),
            None => latest_ok_result(ms, n - 1),
        }
    }
}

/// The text of an output: the text of its last message, or else the JSON text of the
/// latest successful tool result.
pub open spec fn output_text_spec(ms: Seq<MessageView>) -> Option<Seq<char>> {
    if ms.len() > 0 && text_content_spec(ms.last()) is Some {
        text_content_spec(ms.last())
    } else {
        match latest_ok_result(ms, ms.len() as int) {
            Some(c) => Some(json_text(c)),
            None => None,
        }
    }
}

fn first_ok_in_blocks(m: &Message) -> (r: Option<&JsonValue>)
    ensures
        r matches Some(c) ==> first_ok_result(m@.content) == Some(c@),
        r is None ==> first_ok_result(m@.content) is None,
{
    let ghost bs = m@.content;
    let mut i: usize = 0;
    assert(bs.skip(0) =~= bs);
    while i < m.content.len()
        invariant
            bs == m@.content,
            bs.len() == m.content@.len(),
            i <= bs.len(),
            first_ok_result(bs) == first_ok_result(bs.skip(i as int)),
        decreases bs.len() - i,
    {
        let ghost rest = bs.skip(i as int);
        assert(rest[0] == m.content@[i as int]@);
        match &m.content[i] {
            crate::message::ContentBlock::ToolResult { content, is_error, .. } => {
                if !*is_error {
                    return Some(content);
                }
            },
            _ => {},
        }
        assert(rest.drop_first() =~= bs.skip(i + 1));
        i = i + 1;
    }
    None
}

impl AgentOutput {
    /// An output holding the given messages.
    pub fn new(messages: Vec<Message>) -> (r: AgentOutput)
        ensures
            messages_view(r.messages@) == messages_view(messages@),
    {
        AgentOutput { messages }
    }

    /// The last message, if any.
    pub fn last_message(&self) -> (r: Option<&Message>)
        ensures
            r matches Some(m) ==> self.messages@.len() > 0 && m@ == self.messages@.last()@,
            r is None ==> self.messages@.len() == 0,
    {
        if self.messages.len() == 0 {
            None
        } else {
            Some(&self.messages[self.messages.len() - 1])
        }
    }

    /// The text of the last message; when it has none, the JSON text of the most recent
    /// tool result that is not an error.
    pub fn text(&self) -> (r: Option<String>)
        ensures
            r matches Some(t) ==> output_text_spec(messages_view(self.messages@)) == Some(t@),
            r is None ==> output_text_spec(messages_view(self.messages@)) is None,
    {
        let ghost ms = messages_view(self.messages@);
        if let Some(last) = self.last_message() {
            assert(ms.last() == last@);
            if let Some(text) = last.text_content() {
                return Some(text);
            }
        }
        let mut n = self.messages.len();
        while n > 0
            invariant
                ms == messages_view(self.messages@),
                n <= self.messages@.len(),
                latest_ok_result(ms, ms.len() as int) == latest_ok_result(ms, n as int),
                !(ms.len() > 0 && text_content_spec(ms.last()) is Some),
            decreases n,
        {
            assert(ms[n - 1] == self.messages@[n - 1]@);
            if let Some(c) = first_ok_in_blocks(&self.messages[n - 1]) {
                return Some(c.to_json_string());
            }
            n = n - 1;
        }
        None
    }

    /// A deep copy of the output.
    pub fn duplicate(&self) -> (r: AgentOutput)
        ensures
            messages_view(r.messages@) == messages_view(self.messages@),
    {
        AgentOutput { messages: duplicate_messages(&self.messages) }
    }
}

/// Where a run belongs: its session, and optionally its run and resume token.
#[derive(Debug)]
pub struct SessionContext {
    pub session_id: String,
    pub run_id: Option<String>,
    pub resume_token: Option<String>,
    pub metadata: Vec<(String, JsonValue)>,
}

impl SessionContext {
    /// A session context with no run id, no resume token and no metadata.
    pub fn new(session_id: String) -> (r: SessionContext)
        ensures
            r.session_id@ == session_id@,
            r.run_id is None,
            r.resume_token is None,
            r.metadata@.len() == 0,
    {
        SessionContext { session_id, run_id: None, resume_token: None, metadata: Vec::new() }
    }

    /// The same context with the given run id.
    pub fn with_run_id(self, run_id: String) -> (r: SessionContext)
        ensures
            r.session_id == self.session_id,
            opt_view(r.run_id) == Some(run_id@),
            r.resume_token == self.resume_token,
            r.metadata == self.metadata,
    {
        SessionContext { run_id: Some(run_id), ..self }
    }

    /// The same context with the given resume token.
    pub fn with_resume_token(self, token: String) -> (r: SessionContext)
        ensures
            r.session_id == self.session_id,
            r.run_id == self.run_id,
            opt_view(r.resume_token) == Some(token@),
            r.metadata == self.metadata,
    {
        SessionContext { resume_token: Some(token), ..self }
    }
}

/// Context handed through one agent run.
#[derive(Debug)]
pub struct AgentContext {
    pub session: Option<SessionContext>,
    pub metadata: Vec<(String, JsonValue)>,
}

impl AgentContext {
    /// A context with no session and no metadata.
    pub fn new() -> (r: AgentContext)
        ensures
            r.session is None,
            r.metadata@.len() == 0,
    {
        AgentContext { session: None, metadata: Vec::new() }
    }

    /// The same context attached to `session`.
    pub fn with_session(self, session: SessionContext) -> (r: AgentContext)
        ensures
            r.session == Some(session),
            r.metadata == self.metadata,
    {
        AgentContext { session: Some(session), ..self }
    }
}

} // verus!
