//! The library's error type.
use vstd::prelude::*;

use crate::text::concat_str;

verus! {

/// What can go wrong while running agents, tools and storage.
#[derive(Debug)]
pub enum NuroError {
    Llm(String),
    Tool(String),
    ToolNotFound(String),
    InvalidInput(String),
    Storage(String),
}

/// The model of an error: its kind and message.
pub ghost enum Failure {
    Llm(Seq<char>),
    Tool(Seq<char>),
    ToolNotFound(Seq<char>),
    InvalidInput(Seq<char>),
    Storage(Seq<char>),
}

impl View for NuroError {
    type V = Failure;

    open spec fn view(&self) -> Failure {
        match self {
            NuroError::Llm(m) => Failure::Llm(m@),
            NuroError::Tool(m) => Failure::Tool(m@),
            NuroError::ToolNotFound(m) => Failure::ToolNotFound(m@),
            NuroError::InvalidInput(m) => Failure::InvalidInput(m@),
            NuroError::Storage(m) => Failure::Storage(m@),
        }
    }
}

/// The text the error displays.
pub open spec fn failure_text(f: Failure) -> Seq<char> {
    match f {
        Failure::Llm(m) => "LLM error: "@ + m,
        Failure::Tool(m) => "Tool error: "@ + m,
        Failure::ToolNotFound(m) => "Tool not found: "@ + m,
        Failure::InvalidInput(m) => "Invalid input: "@ + m,
        Failure::Storage(m) => "Storage error: "@ + m,
    }
}

/// The model of an optional string.
pub open spec fn opt_view(o: Option<String>) -> Option<Seq<char>> {
    match o {
        Some(s) => Some(s@),
        None => None,
    }
}

impl NuroError {
    /// The text the error displays, such as `Invalid input: <message>`.
    pub fn to_text(&self) -> (s: String)
        ensures
            s@ == failure_text(self@),
    {
        match self {
            NuroError::Llm(m) => concat_str("LLM error: ", m.as_str()),
            NuroError::Tool(m) => concat_str("Tool error: ", m.as_str()),
            NuroError::ToolNotFound(m) => concat_str("Tool not found: ", m.as_str()),
            NuroError::InvalidInput(m) => concat_str("Invalid input: ", m.as_str()),
            NuroError::Storage(m) => concat_str("Storage error: ", m.as_str()),
        }
    }

    /// A deep copy of the error.
    pub fn duplicate(&self) -> (r: NuroError)
        ensures
            r@ == self@,
    {
        match self {
            NuroError::Llm(m) => NuroError::Llm(m.clone()),
            NuroError::Tool(m) => NuroError::Tool(m.clone()),
            NuroError::ToolNotFound(m) => NuroError::ToolNotFound(m.clone()),
            NuroError::InvalidInput(m) => NuroError::InvalidInput(m.clone()),
            NuroError::Storage(m) => NuroError::Storage(m.clone()),
        }
    }
}

/// A deep copy of an optional string.
pub fn duplicate_opt(o: &Option<String>) -> (r: Option<String>)
    ensures
        opt_view(r) == opt_view(*o),
{
    match o {
        Some(s) => Some(s.clone()),
        None => None,
    }
}

} // verus!
