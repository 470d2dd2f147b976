//! A chat request.
use vstd::prelude::*;

verus! {

/// A message sent to the chat, the conversation it belongs to and the
/// files attached to it.
pub struct ChatRequest {
    pub content: String,
    pub conversation_id: String,
    pub files: Vec<String>,
}

impl ChatRequest {
    /// A request with `content` in `conversation_id` and no attached files.
    pub fn new(content: String, conversation_id: String) -> (r: ChatRequest)
        ensures
            r.content == content,
            r.conversation_id == conversation_id,
            r.files@.len() == 0,
    {
        ChatRequest { content, conversation_id, files: Vec::new() }
    }
}

} // verus!
