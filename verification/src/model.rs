//! Provider-neutral model messages.

use vstd::prelude::*;

verus! {

/// Author role of a model message.
#[derive(PartialEq, Eq, Structural, Clone, Copy, Debug)]
pub enum ModelRole {
    System,
    User,
    Assistant,
    Tool,
}

/// A tool call requested by the model.
#[derive(Clone, Debug)]
pub struct ModelToolCall {
    pub id: String,
    pub name: String,
}

/// An image attached to a message; the payload bytes are held by the caller.
#[derive(Clone, Debug)]
pub struct ModelInputImage {
    pub media_type: String,
    pub source_label: String,
}

/// One message of a model request.
#[derive(Clone, Debug)]
pub struct ModelMessage {
    pub role: ModelRole,
    pub content: String,
    pub name: Option<String>,
    pub tool_call_id: Option<String>,
    pub tool_calls: Vec<ModelToolCall>,
    pub input_images: Vec<ModelInputImage>,
}

/// The mathematical value of a message: tool calls as (id, name), images as
/// (media type, source label).
pub struct MessageView {
    pub role: ModelRole,
    pub content: Seq<char>,
    pub name: Option<Seq<char>>,
    pub tool_call_id: Option<Seq<char>>,
    pub calls: Seq<(Seq<char>, Seq<char>)>,
    pub images: Seq<(Seq<char>, Seq<char>)>,
}

pub open spec fn opt_str(value: Option<String>) -> Option<Seq<char>> {
    match value {
        Some(s) => Some(s@),
        None => None,
    }
}

pub open spec fn call_views(calls: Seq<ModelToolCall>) -> Seq<(Seq<char>, Seq<char>)> {
    calls.map_values(|c: ModelToolCall| (c.id@, c.name@))
}

pub open spec fn image_views(images: Seq<ModelInputImage>) -> Seq<(Seq<char>, Seq<char>)> {
    images.map_values(|i: ModelInputImage| (i.media_type@, i.source_label@))
}

impl View for ModelMessage {
    type V = MessageView;

    open spec fn view(&self) -> MessageView {
        MessageView {
            role: self.role,
            content: self.content@,
            name: opt_str(self.name),
            tool_call_id: opt_str(self.tool_call_id),
            calls: call_views(self.tool_calls@),
            images: image_views(self.input_images@),
        }
    }
}

pub open spec fn message_views(ms: Seq<ModelMessage>) -> Seq<MessageView> {
    ms.map_values(|m: ModelMessage| m@)
}

/// A message with the given role and content and nothing else.
pub open spec fn is_plain(message: ModelMessage, role: ModelRole, content: Seq<char>) -> bool {
    &&& message.role == role
    &&& message.content@ == content
    &&& message.name is None
    &&& message.tool_call_id is None
    &&& message.tool_calls@.len() == 0
    &&& message.input_images@.len() == 0
}

/// A plain message of `role` holding `content`.
pub fn plain_message(role: ModelRole, content: String) -> (message: ModelMessage)
    ensures
        is_plain(message, role, content@),
{
    ModelMessage {
        role,
        content,
        name: None,
        tool_call_id: None,
        tool_calls: Vec::new(),
        input_images: Vec::new(),
    }
}

} // verus!
