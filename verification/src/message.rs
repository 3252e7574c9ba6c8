//! Chat messages: roles, content blocks and tool calls.
use vstd::prelude::*;

use crate::json::{Json, JsonValue};

verus! {

/// Who produced a message.
#[derive(PartialEq, Eq, Structural, Clone, Copy, Debug)]
pub enum Role {
    System,
    User,
    Assistant,
    Tool,
}

/// One piece of a message.
#[derive(Debug)]
pub enum ContentBlock {
    Text(String),
    ToolUse { id: String, name: String, input: JsonValue },
    ToolResult { tool_use_id: String, content: JsonValue, is_error: bool },
}

/// The model of a content block.
pub ghost enum Block {
    Text(Seq<char>),
    ToolUse { id: Seq<char>, name: Seq<char>, input: Json },
    ToolResult { tool_use_id: Seq<char>, content: Json, is_error: bool },
}

impl View for ContentBlock {
    type V = Block;

    open spec fn view(&self) -> Block {
        match self {
            ContentBlock::Text(t) => Block::Text(t@),
            ContentBlock::ToolUse { id, name, input } => Block::ToolUse {
                id: id@,
                name: name@,
                input: input@,
            },
            ContentBlock::ToolResult { tool_use_id, content, is_error } => Block::ToolResult {
                tool_use_id: tool_use_id@,
                content: content@,
                is_error: *is_error,
            },
        }
    }
}

/// The models of a sequence of blocks.
pub open spec fn blocks_view(bs: Seq<ContentBlock>) -> Seq<Block> {
    bs.map_values(|b: ContentBlock| b@)
}

/// A request from the model to run a tool.
#[derive(Debug)]
pub struct ToolCall {
    pub id: String,
    pub name: String,
    pub input: JsonValue,
}

/// The model of a tool call: id, tool name and input.
pub ghost struct ToolCallView {
    pub id: Seq<char>,
    pub name: Seq<char>,
    pub input: Json,
}

impl View for ToolCall {
    type V = ToolCallView;

    open spec fn view(&self) -> ToolCallView {
        ToolCallView { id: self.id@, name: self.name@, input: self.input@ }
    }
}

/// A chat message.
#[derive(Debug)]
pub struct Message {
    pub role: Role,
    pub content: Vec<ContentBlock>,
}

/// The model of a message.
pub ghost struct MessageView {
    pub role: Role,
    pub content: Seq<Block>,
}

impl View for Message {
    type V = MessageView;

    open spec fn view(&self) -> MessageView {
        MessageView { role: self.role, content: blocks_view(self.content@) }
    }
}

/// The models of a sequence of messages.
pub open spec fn messages_view(ms: Seq<Message>) -> Seq<MessageView> {
    ms.map_values(|m: Message| m@)
}

/// The texts of the first `n` blocks that are text, concatenated.
pub open spec fn texts_concat(bs: Seq<Block>, n: int) -> Seq<char>
    decreases n,
{
    if n <= 0 || n > bs.len() {
        seq![]
    } else {
        texts_concat(bs, n - 1) + match bs[n - 1] {
            Block::Text(t) => t,
            _ => seq![],
        }
    }
}

/// Some block is text.
pub open spec fn has_text(bs: Seq<Block>) -> bool {
    exists|i: int| 0 <= i < bs.len() && bs[i] is Text
}

/// The text content of a message: its text blocks joined, or `None` when it has none.
pub open spec fn text_content_spec(m: MessageView) -> Option<Seq<char>> {
    if has_text(m.content) {
        Some(texts_concat(m.content, m.content.len() as int))
    } else {
        None
    }
}

/// The tool calls of the first `n` blocks, in order.
pub open spec fn tool_uses_upto(bs: Seq<Block>, n: int) -> Seq<ToolCallView>
    decreases n,
{
    if n <= 0 || n > bs.len() {
        seq![]
    } else {
        tool_uses_upto(bs, n - 1) + match bs[n - 1] {
            Block::ToolUse { id, name, input } => seq![ToolCallView { id, name, input }],
            _ => seq![],
        }
    }
}

/// The tool calls of a message, in order.
pub open spec fn tool_uses_spec(m: MessageView) -> Seq<ToolCallView> {
    tool_uses_upto(m.content, m.content.len() as int)
}

impl ContentBlock {
    /// A deep copy of the block.
    pub fn duplicate(&self) -> (r: ContentBlock)
        ensures
            r@ == self@,
    {
        match self {
            ContentBlock::Text(t) => ContentBlock::Text(t.clone()),
            ContentBlock::ToolUse { id, name, input } => ContentBlock::ToolUse {
                id: id.clone(),
                name: name.clone(),
                input: input.duplicate(),
            },
            ContentBlock::ToolResult { tool_use_id, content, is_error } => ContentBlock::ToolResult {
                tool_use_id: tool_use_id.clone(),
                content: content.duplicate(),
                is_error: *is_error,
            },
        }
    }
}

impl ToolCall {
    /// A deep copy of the call.
    pub fn duplicate(&self) -> (r: ToolCall)
        ensures
            r@ == self@,
    {
        ToolCall { id: self.id.clone(), name: self.name.clone(), input: self.input.duplicate() }
    }
}

/// A deep copy of a sequence of blocks.
pub fn duplicate_blocks(bs: &Vec<ContentBlock>) -> (r: Vec<ContentBlock>)
    ensures
        blocks_view(r@) == blocks_view(bs@),
{
    let mut out: Vec<ContentBlock> = Vec::new();
    let mut i: usize = 0;
    while i < bs.len()
        invariant
            i <= bs@.len(),
            out@.len() == i,
            forall|k: int| 0 <= k < i ==> #[trigger] out@[k]@ == bs@[k]@,
        decreases bs@.len() - i,
    {
        out.push(bs[i].duplicate());
        i = i + 1;
    }
    assert(blocks_view(out@) =~= blocks_view(bs@));
    out
}

/// A deep copy of a sequence of messages.
pub fn duplicate_messages(ms: &Vec<Message>) -> (r: Vec<Message>)
    ensures
        messages_view(r@) == messages_view(ms@),
{
    let mut out: Vec<Message> = Vec::new();
    let mut i: usize = 0;
    while i < ms.len()
        invariant
            i <= ms@.len(),
            out@.len() == i,
            forall|k: int| 0 <= k < i ==> #[trigger] out@[k]@ == ms@[k]@,
        decreases ms@.len() - i,
    {
        out.push(ms[i].duplicate());
        i = i + 1;
    }
    assert(messages_view(out@) =~= messages_view(ms@));
    out
}

impl Message {
    /// A message with the given role and content.
    pub fn new(role: Role, content: Vec<ContentBlock>) -> (m: Message)
        ensures
            m@ == (MessageView { role, content: blocks_view(content@) }),
    {
        Message { role, content }
    }

    /// A message holding one text block.
    pub fn text_message(role: Role, text: &str) -> (m: Message)
        ensures
            m@ == (MessageView { role, content: seq![Block::Text(text@)] }),
    {
        let mut content = Vec::new();
        content.push(ContentBlock::Text(String::from_str(text)));
        let m = Message { role, content };
        assert(m@.content =~= seq![Block::Text(text@)]);
        m
    }

    /// A system message holding `text`.
    pub fn system(text: &str) -> (m: Message)
        ensures
            m@ == (MessageView { role: Role::System, content: seq![Block::Text(text@)] }),
    {
        Message::text_message(Role::System, text)
    }

    /// A user message holding `text`.
    pub fn user(text: &str) -> (m: Message)
        ensures
            m@ == (MessageView { role: Role::User, content: seq![Block::Text(text@)] }),
    {
        Message::text_message(Role::User, text)
    }

    /// An assistant message holding `text`.
    pub fn assistant(text: &str) -> (m: Message)
        ensures
            m@ == (MessageView { role: Role::Assistant, content: seq![Block::Text(text@)] }),
    {
        Message::text_message(Role::Assistant, text)
    }

    /// A tool message carrying the result of the call `tool_use_id`.
    pub fn tool_result(tool_use_id: String, content: JsonValue, is_error: bool) -> (m: Message)
        ensures
            m@ == (MessageView {
                role: Role::Tool,
                content: seq![
                    Block::ToolResult { tool_use_id: tool_use_id@, content: content@, is_error },
                ],
            }),
    {
        let mut blocks = Vec::new();
        blocks.push(ContentBlock::ToolResult { tool_use_id, content, is_error });
        let m = Message { role: Role::Tool, content: blocks };
        assert(m@.content =~= seq![
            Block::ToolResult { tool_use_id: tool_use_id@, content: content@, is_error },
        ]);
        m
    }

    /// A deep copy of the message.
    pub fn duplicate(&self) -> (r: Message)
        ensures
            r@ == self@,
    {
        Message { role: self.role, content: duplicate_blocks(&self.content) }
    }

    /// The text blocks of the message joined together, or `None` when it has no text block.
    pub fn text_content(&self) -> (r: Option<String>)
        ensures
            r matches Some(t) ==> text_content_spec(self@) == Some(t@),
            r is None ==> text_content_spec(self@) is None,
    {
        let ghost bs = self@.content;
        let mut out = String::new();
        let mut found = false;
        let mut i: usize = 0;
        while i < self.content.len()
            invariant
                bs == blocks_view(self.content@),
                i <= self.content@.len(),
                out@ == texts_concat(bs, i as int),
                found <==> exists|k: int| 0 <= k < i && bs[k] is Text,
            decreases self.content@.len() - i,
        {
            match &self.content[i] {
                ContentBlock::Text(t) => {
                    out.append(t.as_str());
                    found = true;
                },
                _ => {},
            }
            i = i + 1;
        }
        if found {
            Some(out)
        } else {
            None
        }
    }

    /// The tool calls requested by the message, in order.
    pub fn tool_uses(&self) -> (r: Vec<ToolCall>)
        ensures
            r@.map_values(|c: ToolCall| c@) == tool_uses_spec(self@),
    {
        let ghost bs = self@.content;
        let mut out: Vec<ToolCall> = Vec::new();
        let mut i: usize = 0;
        while i < self.content.len()
            invariant
                bs == blocks_view(self.content@),
                i <= self.content@.len(),
                out@.map_values(|c: ToolCall| c@) == tool_uses_upto(bs, i as int),
            decreases self.content@.len() - i,
        {
            match &self.content[i] {
                ContentBlock::ToolUse { id, name, input } => {
                    out.push(ToolCall { id: id.clone(), name: name.clone(), input: input.duplicate() });
                },
                _ => {},
            }
            i = i + 1;
            assert(out@.map_values(|c: ToolCall| c@) =~= tool_uses_upto(bs, i as int));
        }
        out
    }
}

} // verus!
