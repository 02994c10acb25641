//! The chat messages GQY exchanges with a model service, and the token usage
//! it reports.
use vstd::prelude::*;
use crate::text::{trim, trim_str};

verus! {

/// One message of a conversation.
#[derive(Debug, Clone)]
pub struct ChatMessage {
    pub role: String,
    pub content: Option<ChatContent>,
    pub tool_call_id: Option<String>,
    pub tool_calls: Option<Vec<ToolCall>>,
}

/// Plain text, or text and images.
#[derive(Debug, Clone)]
pub enum ChatContent {
    Text(String),
    Parts(Vec<ChatContentPart>),
}

#[derive(Debug, Clone)]
pub enum ChatContentPart {
    Text { text: String },
    ImageUrl { image_url: ImageUrlContent },
}

#[derive(Debug, Clone)]
pub struct ImageUrlContent {
    pub url: String,
}

/// A tool call the model asked for.
#[derive(Debug, Clone)]
pub struct ToolCall {
    pub id: String,
    pub kind: String,
    pub function: ToolCallFunction,
}

#[derive(Debug, Clone)]
pub struct ToolCallFunction {
    pub name: String,
    pub arguments: String,
}

/// Whether a message carries at least one tool call.
pub open spec fn has_tool_calls(calls: Option<Vec<ToolCall>>) -> bool {
    match calls {
        Some(c) => c@.len() > 0,
        None => false,
    }
}

impl ChatMessage {
    pub fn system(content: String) -> (r: ChatMessage)
        ensures
            r.role@ == "system"@,
            r.content == Some(ChatContent::Text(content)),
            r.tool_call_id is None,
            r.tool_calls is None,
    {
        ChatMessage {
            role: "system".to_string(),
            content: Some(ChatContent::Text(content)),
            tool_call_id: None,
            tool_calls: None,
        }
    }

    /// An assistant message; its text is left out when it is blank and the
    /// message carries at least one tool call.
    pub fn assistant(content: String, tool_calls: Option<Vec<ToolCall>>) -> (r: ChatMessage)
        ensures
            r.role@ == "assistant"@,
            r.tool_call_id is None,
            r.tool_calls == tool_calls,
            (trim(content@).len() == 0 && has_tool_calls(tool_calls)) ==> r.content is None,
            !(trim(content@).len() == 0 && has_tool_calls(tool_calls)) ==> r.content == Some(
                ChatContent::Text(content),
            ),
    {
        let has_tool_calls = match &tool_calls {
            Some(c) => c.len() > 0,
            None => false,
        };
        let blank = trim_str(content.as_str()).len() == 0;
        let content = if blank && has_tool_calls {
            None
        } else {
            Some(ChatContent::Text(content))
        };
        ChatMessage { role: "assistant".to_string(), content, tool_call_id: None, tool_calls }
    }

    /// The result of a tool call, answering the call with this id.
    pub fn tool(tool_call_id: String, content: String) -> (r: ChatMessage)
        ensures
            r.role@ == "tool"@,
            r.content == Some(ChatContent::Text(content)),
            r.tool_call_id == Some(tool_call_id),
            r.tool_calls is None,
    {
        ChatMessage {
            role: "tool".to_string(),
            content: Some(ChatContent::Text(content)),
            tool_call_id: Some(tool_call_id),
            tool_calls: None,
        }
    }

    pub fn plain(role: String, content: String) -> (r: ChatMessage)
        ensures
            r.role == role,
            r.content == Some(ChatContent::Text(content)),
            r.tool_call_id is None,
            r.tool_calls is None,
    {
        ChatMessage {
            role,
            content: Some(ChatContent::Text(content)),
            tool_call_id: None,
            tool_calls: None,
        }
    }

    /// A user message made of a text part followed by an image part.
    pub fn user_with_image(text: String, image_url: String) -> (r: ChatMessage)
        ensures
            r.role@ == "user"@,
            r.tool_call_id is None,
            r.tool_calls is None,
            r.content matches Some(ChatContent::Parts(parts)) && parts@ == seq![
                ChatContentPart::Text { text },
                ChatContentPart::ImageUrl { image_url: ImageUrlContent { url: image_url } },
            ],
    {
        let mut parts: Vec<ChatContentPart> = Vec::new();
        parts.push(ChatContentPart::Text { text });
        parts.push(ChatContentPart::ImageUrl { image_url: ImageUrlContent { url: image_url } });
        ChatMessage {
            role: "user".to_string(),
            content: Some(ChatContent::Parts(parts)),
            tool_call_id: None,
            tool_calls: None,
        }
    }
}

/// Token counts a model service reported for one request.
#[derive(Debug, Clone, Copy)]
pub struct Usage {
    pub prompt_tokens: u64,
    pub completion_tokens: u64,
    pub total_tokens: u64,
    /// Prompt tokens served from the provider's prefix cache.
    pub cache_read_input_tokens: Option<u64>,
    /// Tokens written to the provider's prefix cache by this request.
    pub cache_creation_input_tokens: Option<u64>,
}

impl Default for Usage {
    fn default() -> (r: Usage)
        ensures
            r.prompt_tokens == 0,
            r.completion_tokens == 0,
            r.total_tokens == 0,
            r.cache_read_input_tokens is None,
            r.cache_creation_input_tokens is None,
    {
        Usage {
            prompt_tokens: 0,
            completion_tokens: 0,
            total_tokens: 0,
            cache_read_input_tokens: None,
            cache_creation_input_tokens: None,
        }
    }
}

/// `u64::saturating_add`.
pub open spec fn sat_add(a: u64, b: u64) -> u64 {
    if a + b > u64::MAX {
        u64::MAX
    } else {
        (a + b) as u64
    }
}

impl Usage {
    /// The reported total, or prompt plus completion tokens when the service
    /// reported no total.
    pub open spec fn effective_total_spec(self) -> u64 {
        if self.total_tokens > 0 {
            self.total_tokens
        } else {
            sat_add(self.prompt_tokens, self.completion_tokens)
        }
    }

    pub fn effective_total_tokens(&self) -> (r: u64)
        ensures
            r == self.effective_total_spec(),
    {
        if self.total_tokens > 0 {
            self.total_tokens
        } else {
            self.prompt_tokens.saturating_add(self.completion_tokens)
        }
    }
}

/// What one model request produced.
#[derive(Debug, Clone)]
pub struct ChatResult {
    pub content: String,
    pub reasoning: Option<String>,
    pub usage: Option<Usage>,
    pub usage_estimated: bool,
    pub tool_calls: Vec<ToolCall>,
    pub provider_id: Option<String>,
    pub model: Option<String>,
}

/// What a streamed piece of a reply carries.
#[derive(Debug, Clone, Copy, PartialEq, Eq, Structural)]
pub enum ChatStreamKind {
    Content,
    Reasoning,
    ReasoningReset,
    ReasoningPartStart,
    ReasoningPartEnd,
    ToolCall,
    /// Progress of a tool the `pi` agent base runs (`{name, args}` or
    /// `{name, output}` as JSON text).
    ToolProgress,
    /// The result of such a tool (`{name, ok, output}` as JSON text).
    ToolResult,
}

#[derive(Debug, Clone)]
pub struct ChatStreamChunk {
    pub kind: ChatStreamKind,
    pub text: String,
}

} // verus!
