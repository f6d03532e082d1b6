//! Conversation data: messages, tool calls and models, with their views.

use vstd::prelude::*;

verus! {

/// Who wrote a message.
#[derive(Clone, Copy, Debug, PartialEq, Eq, Structural)]
pub enum Role {
    User,
    Assistant,
}

/// A tool call made by the model during an answer.
pub struct ToolCallInfo {
    pub id: String,
    pub name: String,
    pub arguments: String,
    pub result: String,
    pub is_error: bool,
}

/// Abstract tool call.
pub struct ToolCallView {
    pub id: Seq<char>,
    pub name: Seq<char>,
    pub arguments: Seq<char>,
    pub result: Seq<char>,
    pub is_error: bool,
}

impl View for ToolCallInfo {
    type V = ToolCallView;

    open spec fn view(&self) -> ToolCallView {
        ToolCallView {
            id: self.id@,
            name: self.name@,
            arguments: self.arguments@,
            result: self.result@,
            is_error: self.is_error,
        }
    }
}

/// One message of the conversation.
pub struct Msg {
    pub role: Role,
    /// What is shown to the user (and sent back to the model as history).
    pub content: String,
    /// The model's reasoning, shown apart and never sent back.
    pub reasoning: String,
    /// The model that wrote an answer.
    pub model: Option<String>,
    /// Tool calls made while answering.
    pub tool_calls: Vec<ToolCallInfo>,
}

/// Abstract message.
pub struct MsgView {
    pub role: Role,
    pub content: Seq<char>,
    pub reasoning: Seq<char>,
    pub model: Option<Seq<char>>,
    pub tool_calls: Seq<ToolCallView>,
}

/// View of an optional string.
pub open spec fn opt_view(o: Option<String>) -> Option<Seq<char>> {
    match o {
        Some(s) => Some(s@),
        None => None,
    }
}

impl View for Msg {
    type V = MsgView;

    open spec fn view(&self) -> MsgView {
        MsgView {
            role: self.role,
            content: self.content@,
            reasoning: self.reasoning@,
            model: opt_view(self.model),
            tool_calls: self.tool_calls@.map_values(|t: ToolCallInfo| t@),
        }
    }
}

/// A model the server offers.
pub struct ModelInfo {
    pub id: String,
    pub loaded: bool,
}

} // verus!
