//! Message-API value types: request options, content sources, tool choices,
//! stop reasons, usage counts and stream deltas.

use std::collections::HashMap;
use vstd::prelude::*;

verus! {

/// The output budget used when a request names none.
pub fn default_max_tokens() -> (r: u32)
    ensures
        r == 8192,
{
    8192
}

/// Output configuration (effort hints).
#[derive(Debug, Clone, Copy, PartialEq, Eq, Structural)]
pub struct OutputConfig {
    pub effort: Option<OutputEffort>,
}

#[derive(Debug, Clone, Copy, PartialEq, Eq, Structural)]
pub enum OutputEffort {
    Low,
    Medium,
    High,
}

/// Service tier selection.
#[derive(Debug, Clone, Copy, PartialEq, Eq, Structural)]
pub enum ServiceTier {
    Auto,
    StandardOnly,
}

/// Extended thinking configuration of a request.
#[derive(Debug, Clone, Copy, PartialEq, Eq, Structural)]
pub enum Thinking {
    Enabled { budget_tokens: u64 },
    Disabled,
}

impl Thinking {
    /// Thinking enabled with the given token budget.
    pub fn new(budget_tokens: u64) -> (r: Thinking)
        ensures
            r == (Thinking::Enabled { budget_tokens }),
    {
        Thinking::Enabled { budget_tokens }
    }
}

/// Role of a message sender.
#[derive(Debug, Clone, Copy, PartialEq, Eq, Structural)]
pub enum Role {
    System,
    User,
    Assistant,
}

impl Default for Role {
    fn default() -> (r: Role)
        ensures
            r == Role::Assistant,
    {
        Role::Assistant
    }
}

/// Source of an image.
#[derive(Debug, Clone)]
pub enum ImageSource {
    /// Inline image data, base64-encoded.
    Base64 { media_type: String, data: String },
    /// A remote image.
    Url { url: String },
    /// An uploaded file.
    File { file_id: String },
}

impl ImageSource {
    /// The source named by a kind: `"url"` takes `data` as the address,
    /// `"file"` as the file id, and any other kind takes it as base64 data of
    /// the given media type.
    pub fn from_parts(kind: &str, media_type: String, data: String) -> (r: ImageSource)
        ensures
            kind@ == "url"@ ==> r == (ImageSource::Url { url: data }),
            kind@ == "file"@ ==> r == (ImageSource::File { file_id: data }),
            kind@ != "url"@ && kind@ != "file"@ ==> r == (ImageSource::Base64 {
                media_type,
                data,
            }),
    {
        proof {
            reveal_strlit("url");
            reveal_strlit("file");
            assert("url"@ != "file"@) by {
                assert("url"@.len() != "file"@.len());
            }
        }
        let k = kind.to_owned();
        if k == "url".to_owned() {
            ImageSource::Url { url: data }
        } else if k == "file".to_owned() {
            ImageSource::File { file_id: data }
        } else {
            ImageSource::Base64 { media_type, data }
        }
    }
}

/// An image given by address, as chat-completions clients send it.
#[derive(Debug, Clone)]
pub struct ImageUrl {
    pub url: String,
}

/// Cache control breakpoint configuration.
#[derive(Debug, Clone)]
pub struct CacheControlEphemeral {
    pub type_: CacheControlType,
    pub ttl: Option<String>,
}

#[derive(Debug, Clone, Copy, PartialEq, Eq, Structural)]
pub enum CacheControlType {
    Ephemeral,
}

#[derive(Debug, Clone, Copy, PartialEq, Eq, Structural)]
pub struct CitationsConfig {
    pub enabled: Option<bool>,
}

#[derive(Debug, Clone, Copy, PartialEq, Eq, Structural)]
pub enum CustomToolType {
    Custom,
}

#[derive(Debug, Clone, Copy, PartialEq, Eq, Structural)]
pub enum ToolNameBash {
    Bash,
}

#[derive(Debug, Clone, Copy, PartialEq, Eq, Structural)]
pub enum ToolNameStrReplaceEditor {
    StrReplaceEditor,
}

#[derive(Debug, Clone, Copy, PartialEq, Eq, Structural)]
pub enum ToolNameStrReplaceBasedEditTool {
    StrReplaceBasedEditTool,
}

#[derive(Debug, Clone, Copy, PartialEq, Eq, Structural)]
pub enum ToolNameWebSearch {
    WebSearch,
}

/// Approximate location for web search.
#[derive(Debug, Clone)]
pub struct WebSearchUserLocation {
    pub type_: WebSearchUserLocationType,
    pub city: Option<String>,
    pub country: Option<String>,
    pub region: Option<String>,
    pub timezone: Option<String>,
}

#[derive(Debug, Clone, Copy, PartialEq, Eq, Structural)]
pub enum WebSearchUserLocationType {
    Approximate,
}

/// How the model should use tools.
#[derive(Debug, Clone)]
pub enum ToolChoice {
    /// The model chooses whether to use tools.
    Auto { disable_parallel_tool_use: Option<bool> },
    /// The model must use one of the tools.
    Any { disable_parallel_tool_use: Option<bool> },
    /// The model must use the named tool.
    Tool { name: String, disable_parallel_tool_use: Option<bool> },
    /// The model may not use tools.
    NoTools,
}

impl ToolChoice {
    /// The tool choice a bare string stands for: `"auto"`, `"any"` (or its
    /// synonym `"required"`) and `"none"`; any other string stands for none.
    pub fn from_choice_str(choice: &str) -> (r: Option<ToolChoice>)
        ensures
            choice@ == "auto"@ ==> r == Some(ToolChoice::Auto { disable_parallel_tool_use: None }),
            choice@ == "any"@ || choice@ == "required"@ ==> r == Some(
                ToolChoice::Any { disable_parallel_tool_use: None },
            ),
            choice@ == "none"@ ==> r == Some(ToolChoice::NoTools),
            choice@ != "auto"@ && choice@ != "any"@ && choice@ != "required"@ && choice@
                != "none"@ ==> r is None,
    {
        proof {
            reveal_strlit("auto");
            reveal_strlit("any");
            reveal_strlit("required");
            reveal_strlit("none");
            assert("auto"@ != "any"@ && "auto"@ != "required"@ && "auto"@ != "none"@) by {
                assert("auto"@[0] != "required"@[0] && "auto"@[0] != "none"@[0]);
                assert("auto"@.len() != "any"@.len());
            }
            assert("none"@ != "any"@ && "none"@ != "required"@) by {
                assert("none"@[0] != "required"@[0] && "none"@.len() != "any"@.len());
            }
        }
        let c = choice.to_owned();
        if c == "auto".to_owned() {
            Some(ToolChoice::Auto { disable_parallel_tool_use: None })
        } else if c == "any".to_owned() || c == "required".to_owned() {
            Some(ToolChoice::Any { disable_parallel_tool_use: None })
        } else if c == "none".to_owned() {
            Some(ToolChoice::NoTools)
        } else {
            None
        }
    }
}

/// Request metadata.
#[derive(Debug, Clone)]
pub struct Metadata {
    pub fields: HashMap<String, String>,
}

/// Why generation stopped.
#[derive(Debug, Clone, Copy, PartialEq, Eq, Structural)]
pub enum StopReason {
    EndTurn,
    MaxTokens,
    StopSequence,
    ToolUse,
    PauseTurn,
    Refusal,
    ModelContextWindowExceeded,
}

/// Token usage of a response.
#[derive(Debug, Clone, Copy, PartialEq, Eq, Structural)]
pub struct Usage {
    pub input_tokens: u32,
    pub output_tokens: u32,
}

/// Token usage reported in a stream event.
#[derive(Debug, Clone, Copy, PartialEq, Eq, Structural)]
pub struct StreamUsage {
    pub input_tokens: u32,
    pub output_tokens: u32,
}

/// Answer of the token counting endpoint.
#[derive(Debug, Clone, Copy, PartialEq, Eq, Structural)]
pub struct CountMessageTokensResponse {
    pub input_tokens: u32,
}

/// Increment of a content block in a stream.
#[derive(Debug, Clone)]
pub enum ContentBlockDelta {
    TextDelta { text: String },
    InputJsonDelta { partial_json: String },
    ThinkingDelta { thinking: String },
    SignatureDelta { signature: String },
}

/// Final fields of a message in a stream.
#[derive(Debug, Clone)]
pub struct MessageDeltaContent {
    pub stop_reason: Option<StopReason>,
    pub stop_sequence: Option<String>,
}

/// An error event in a stream.
#[derive(Debug, Clone)]
pub struct StreamError {
    pub type_: String,
    pub message: String,
}

} // verus!
