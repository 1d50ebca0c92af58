//! Messages, content blocks and responses of the message API, with the text a
//! response is measured by and its token count.

use std::collections::HashMap;
use vstd::prelude::*;
use crate::claude::{
    CacheControlEphemeral, CitationsConfig, ContentBlockDelta, CustomToolType, ImageSource,
    ImageUrl, MessageDeltaContent, Role, StopReason, StreamError, StreamUsage,
    ToolNameBash, ToolNameStrReplaceBasedEditTool, ToolNameStrReplaceEditor, ToolNameWebSearch,
    Usage, WebSearchUserLocation,
};

verus! {

#[verifier::external_type_specification]
#[verifier::external_body]
pub struct ExValue(serde_json::Value);

/// Relies on serde_json's `Clone` for `Value`, used by the derived `Clone` of
/// the types that hold one; nothing is claimed of the copy.
pub assume_specification[ <serde_json::Value as Clone>::clone ](v: &serde_json::Value) -> serde_json::Value;

pub type Citation = serde_json::Value;

pub type ToolCaller = serde_json::Value;

pub type DocumentSource = serde_json::Value;

/// The number of tokens of the text in the o200k_base encoding, special
/// tokens included; `None` for a text the encoder gives up on.
pub uninterp spec fn o200k_token_count(text: Seq<char>) -> Option<nat>;

/// Relies on tiktoken-rs: `o200k_base_singleton`, `CoreBPE::special_tokens`
/// and `CoreBPE::encode` with every special token allowed; the count depends
/// on the text alone. `encode` fails when its pattern engine gives up (on a
/// very long run of whitespace, for one); there is then no count. Whether it
/// fails depends on the text alone.
#[verifier::external_body]
fn count_o200k(text: &str) -> (r: Option<usize>)
    ensures
        r is Some <==> o200k_token_count(text@) is Some,
        r is Some ==> o200k_token_count(text@) == Some(r->0 as nat),
{
    let bpe = tiktoken_rs::o200k_base_singleton();
    bpe.encode(text, &bpe.special_tokens()).ok().map(|(tokens, _)| tokens.len())
}

/// Relies on uuid's `Uuid::new_v4` and its `to_string`: a random identifier.
#[verifier::external_body]
fn new_message_id() -> (r: String) {
    uuid::Uuid::new_v4().to_string()
}

/// The required fields of a request.
#[derive(Debug)]
pub struct RequiredMessageParams {
    pub model: String,
    pub messages: Vec<Message>,
    pub max_tokens: u32,
}

/// Requested output format.
#[derive(Debug, Clone)]
pub enum OutputFormat {
    JsonSchema { schema: serde_json::Value },
}

/// An MCP server a request may use.
#[derive(Debug, Clone)]
pub struct McpServer {
    pub name: String,
    pub type_: String,
    pub url: String,
    pub authorization_token: Option<String>,
    pub tool_configuration: Option<serde_json::Value>,
}

/// A message of a conversation.
#[derive(Debug)]
pub struct Message {
    pub role: Role,
    pub content: MessageContent,
}

/// Content of a message: plain text or content blocks.
#[derive(Debug)]
pub enum MessageContent {
    Text { content: String },
    Blocks { content: Vec<ContentBlock> },
}

/// A content block of a message or response.
#[derive(Debug)]
pub enum ContentBlock {
    Text {
        text: String,
        cache_control: Option<CacheControlEphemeral>,
        citations: Option<Vec<Citation>>,
    },
    Image { source: ImageSource, cache_control: Option<CacheControlEphemeral> },
    ImageUrl { image_url: ImageUrl },
    Document {
        source: DocumentSource,
        cache_control: Option<CacheControlEphemeral>,
        citations: Option<CitationsConfig>,
        context: Option<String>,
        title: Option<String>,
    },
    SearchResult {
        content: Vec<ContentBlock>,
        source: String,
        title: String,
        cache_control: Option<CacheControlEphemeral>,
        citations: Option<CitationsConfig>,
    },
    Thinking { signature: String, thinking: String },
    RedactedThinking { data: String },
    ToolUse {
        id: String,
        name: String,
        input: serde_json::Value,
        cache_control: Option<CacheControlEphemeral>,
        caller: Option<ToolCaller>,
    },
    ToolResult {
        tool_use_id: String,
        content: serde_json::Value,
        cache_control: Option<CacheControlEphemeral>,
        is_error: Option<bool>,
    },
    ToolReference { tool_name: String, cache_control: Option<CacheControlEphemeral> },
    ServerToolUse {
        id: String,
        name: String,
        input: serde_json::Value,
        cache_control: Option<CacheControlEphemeral>,
        caller: Option<ToolCaller>,
    },
    WebSearchToolResult {
        tool_use_id: String,
        content: serde_json::Value,
        cache_control: Option<CacheControlEphemeral>,
    },
    WebFetchToolResult {
        tool_use_id: String,
        content: serde_json::Value,
        cache_control: Option<CacheControlEphemeral>,
    },
    CodeExecutionToolResult {
        tool_use_id: String,
        content: serde_json::Value,
        cache_control: Option<CacheControlEphemeral>,
    },
    BashCodeExecutionToolResult {
        tool_use_id: String,
        content: serde_json::Value,
        cache_control: Option<CacheControlEphemeral>,
    },
    TextEditorCodeExecutionToolResult {
        tool_use_id: String,
        content: serde_json::Value,
        cache_control: Option<CacheControlEphemeral>,
    },
    ToolSearchToolResult {
        tool_use_id: String,
        content: serde_json::Value,
        cache_control: Option<CacheControlEphemeral>,
    },
    McpToolUse {
        id: String,
        name: String,
        server_name: String,
        input: serde_json::Value,
        cache_control: Option<CacheControlEphemeral>,
    },
    McpToolResult {
        tool_use_id: String,
        content: serde_json::Value,
        cache_control: Option<CacheControlEphemeral>,
        is_error: Option<bool>,
    },
    ContainerUpload { file_id: String, cache_control: Option<CacheControlEphemeral> },
}

/// A tool definition: custom, built in, or passed through as given.
#[derive(Debug, Clone)]
pub enum Tool {
    Custom(CustomTool),
    Known(KnownTool),
    Raw(serde_json::Value),
}

/// A custom tool, described by its input schema.
#[derive(Debug, Clone)]
pub struct CustomTool {
    pub name: String,
    pub description: Option<String>,
    pub input_schema: serde_json::Value,
    pub allowed_callers: Option<Vec<String>>,
    pub cache_control: Option<CacheControlEphemeral>,
    pub defer_loading: Option<bool>,
    pub input_examples: Option<Vec<serde_json::Value>>,
    pub strict: Option<bool>,
    pub type_: Option<CustomToolType>,
    pub extra: HashMap<String, serde_json::Value>,
}

/// Built-in tools.
#[derive(Debug, Clone)]
pub enum KnownTool {
    Bash20250124 {
        name: ToolNameBash,
        cache_control: Option<CacheControlEphemeral>,
        extra: HashMap<String, serde_json::Value>,
    },
    TextEditor20250124 {
        name: ToolNameStrReplaceEditor,
        cache_control: Option<CacheControlEphemeral>,
        extra: HashMap<String, serde_json::Value>,
    },
    TextEditor20250429 {
        name: ToolNameStrReplaceBasedEditTool,
        cache_control: Option<CacheControlEphemeral>,
        extra: HashMap<String, serde_json::Value>,
    },
    TextEditor20250728 {
        name: ToolNameStrReplaceBasedEditTool,
        cache_control: Option<CacheControlEphemeral>,
        max_characters: Option<u32>,
        extra: HashMap<String, serde_json::Value>,
    },
    WebSearch20250305 {
        name: ToolNameWebSearch,
        allowed_domains: Option<Vec<String>>,
        blocked_domains: Option<Vec<String>>,
        cache_control: Option<CacheControlEphemeral>,
        max_uses: Option<u32>,
        user_location: Option<WebSearchUserLocation>,
        extra: HashMap<String, serde_json::Value>,
    },
}

/// A complete response.
#[derive(Debug)]
pub struct CreateMessageResponse {
    pub content: Vec<ContentBlock>,
    pub id: String,
    pub model: String,
    pub role: Role,
    pub stop_reason: Option<StopReason>,
    pub stop_sequence: Option<String>,
    pub type_: String,
    pub usage: Option<Usage>,
}

/// Parameters of the token counting endpoint.
#[derive(Debug)]
pub struct CountMessageTokensParams {
    pub model: String,
    pub messages: Vec<Message>,
}

/// An event of a streamed response.
#[derive(Debug)]
pub enum StreamEvent {
    MessageStart { message: MessageStartContent },
    ContentBlockStart { index: usize, content_block: ContentBlock },
    ContentBlockDelta { index: usize, delta: ContentBlockDelta },
    ContentBlockStop { index: usize },
    MessageDelta { delta: MessageDeltaContent, usage: Option<StreamUsage> },
    MessageStop,
    Ping,
    Error { error: StreamError },
}

/// The message that opens a stream.
#[derive(Debug)]
pub struct MessageStartContent {
    pub id: String,
    pub type_: String,
    pub role: Role,
    pub content: Vec<ContentBlock>,
    pub model: String,
    pub stop_reason: Option<StopReason>,
    pub stop_sequence: Option<String>,
    pub usage: Option<Usage>,
}

/// The text a response block is measured by: a text block's text, the data of
/// an inline image, nothing for any other block.
pub open spec fn block_text(b: ContentBlock) -> Seq<char> {
    match b {
        ContentBlock::Text { text, .. } => text@,
        ContentBlock::Image { source: ImageSource::Base64 { data, .. }, .. } => data@,
        _ => Seq::empty(),
    }
}

/// The texts of `blocks`, one line each.
pub open spec fn joined_text(blocks: Seq<ContentBlock>) -> Seq<char>
    decreases blocks.len(),
{
    if blocks.len() == 0 {
        Seq::empty()
    } else if blocks.len() == 1 {
        block_text(blocks[0])
    } else {
        joined_text(blocks.drop_last()) + seq!['\n'] + block_text(blocks.last())
    }
}

/// The text of the text blocks among `blocks`, run together.
pub open spec fn blocks_text(blocks: Seq<ContentBlock>) -> Seq<char>
    decreases blocks.len(),
{
    if blocks.len() == 0 {
        Seq::empty()
    } else {
        blocks_text(blocks.drop_last()) + match blocks.last() {
            ContentBlock::Text { text, .. } => text@,
            _ => Seq::empty(),
        }
    }
}

/// The text of a message: its plain text, or the text of its text blocks.
pub open spec fn message_text(m: Message) -> Seq<char> {
    match m.content {
        MessageContent::Text { content } => content@,
        MessageContent::Blocks { content } => blocks_text(content@),
    }
}

/// The texts of the messages, one line each.
pub open spec fn conversation_text(messages: Seq<Message>) -> Seq<char>
    decreases messages.len(),
{
    if messages.len() == 0 {
        Seq::empty()
    } else if messages.len() == 1 {
        message_text(messages[0])
    } else {
        conversation_text(messages.drop_last()) + seq!['\n'] + message_text(messages.last())
    }
}

/// The text of a message (see `message_text`).
pub fn message_text_of(m: &Message) -> (r: String)
    ensures
        r@ == message_text(*m),
{
    match &m.content {
        MessageContent::Text { content } => content.clone(),
        MessageContent::Blocks { content } => {
            let mut out = String::new();
            let mut i: usize = 0;
            while i < content.len()
                invariant
                    i <= content@.len(),
                    out@ == blocks_text(content@.subrange(0, i as int)),
                decreases content@.len() - i,
            {
                let ghost sub = content@.subrange(0, i + 1);
                proof {
                    assert(sub.drop_last() =~= content@.subrange(0, i as int));
                    assert(sub.last() == content@[i as int]);
                }
                match &content[i] {
                    ContentBlock::Text { text, .. } => out.append(text.as_str()),
                    _ => {},
                }
                proof {
                    assert(out@ =~= blocks_text(sub));
                }
                i += 1;
            }
            proof {
                assert(content@.subrange(0, content@.len() as int) =~= content@);
            }
            out
        },
    }
}

/// The texts of the messages, one line each (see `conversation_text`).
pub fn conversation_text_of(messages: &Vec<Message>) -> (r: String)
    ensures
        r@ == conversation_text(messages@),
{
    let mut out = String::new();
    let mut i: usize = 0;
    while i < messages.len()
        invariant
            i <= messages@.len(),
            out@ == conversation_text(messages@.subrange(0, i as int)),
        decreases messages@.len() - i,
    {
        let ghost sub = messages@.subrange(0, i + 1);
        proof {
            assert(sub.drop_last() =~= messages@.subrange(0, i as int));
            assert(sub.last() == messages@[i as int]);
        }
        if i > 0 {
            out.append("\n");
            proof {
                reveal_strlit("\n");
            }
        }
        let t = message_text_of(&messages[i]);
        out.append(t.as_str());
        proof {
            assert(out@ =~= conversation_text(sub));
        }
        i += 1;
    }
    proof {
        assert(messages@.subrange(0, messages@.len() as int) =~= messages@);
    }
    out
}

/// `a + b`, saturating at the largest `u32`.
pub open spec fn sat_add_u32(a: u32, b: u32) -> u32 {
    if a + b <= u32::MAX {
        (a + b) as u32
    } else {
        u32::MAX
    }
}

/// The prompt's size in o200k_base tokens: the system text's count plus the
/// conversation text's (see `conversation_text`), each truncated to 32 bits,
/// the sum saturating. `None` exactly when the encoder gives up on one of
/// the two texts.
pub fn count_prompt_tokens(system: &str, messages: &Vec<Message>) -> (r: Option<u32>)
    ensures
        r == (match (o200k_token_count(system@), o200k_token_count(conversation_text(messages@))) {
            (Some(a), Some(b)) => Some(sat_add_u32(a as u32, b as u32)),
            _ => None,
        }),
{
    let a = match count_o200k(system) {
        Some(n) => n as u32,
        None => return None,
    };
    let text = conversation_text_of(messages);
    let b = match count_o200k(text.as_str()) {
        Some(n) => n as u32,
        None => return None,
    };
    Some(a.saturating_add(b))
}

impl Message {
    /// A message with plain text content.
    pub fn new_text(role: Role, text: String) -> (r: Message)
        ensures
            r.role == role,
            r.content == (MessageContent::Text { content: text }),
    {
        Message { role, content: MessageContent::Text { content: text } }
    }

    /// A message with content blocks.
    pub fn new_blocks(role: Role, blocks: Vec<ContentBlock>) -> (r: Message)
        ensures
            r.role == role,
            r.content == (MessageContent::Blocks { content: blocks }),
    {
        Message { role, content: MessageContent::Blocks { content: blocks } }
    }
}

impl ContentBlock {
    /// A text block.
    pub fn text(text: String) -> (r: ContentBlock)
        ensures
            r == (ContentBlock::Text { text, cache_control: None, citations: None }),
    {
        ContentBlock::Text { text, cache_control: None, citations: None }
    }

    /// An image block whose source is named by `kind` (see
    /// `ImageSource::from_parts`).
    pub fn image(kind: &str, media_type: String, data: String) -> (r: ContentBlock)
        ensures
            r matches ContentBlock::Image { source, cache_control } && cache_control is None && (
            kind@ == "url"@ ==> source == (ImageSource::Url { url: data })) && (kind@ == "file"@
                ==> source == (ImageSource::File { file_id: data })) && (kind@ != "url"@ && kind@
                != "file"@ ==> source == (ImageSource::Base64 { media_type, data })),
    {
        let source = ImageSource::from_parts(kind, media_type, data);
        ContentBlock::Image { source, cache_control: None }
    }
}

impl CreateMessageResponse {
    /// A response holding one text block, with a fresh random id.
    pub fn text(content: String, model: String, usage: Usage) -> (r: CreateMessageResponse)
        ensures
            r.content@ == seq![ContentBlock::Text { text: content, cache_control: None, citations: None }],
            r.model == model,
            r.role == Role::Assistant,
            r.stop_reason is None,
            r.stop_sequence is None,
            r.type_@ == "message"@,
            r.usage == Some(usage),
    {
        let block = ContentBlock::text(content);
        let mut blocks: Vec<ContentBlock> = Vec::new();
        blocks.push(block);
        proof {
            assert(blocks@ =~= seq![ContentBlock::Text { text: content, cache_control: None, citations: None }]);
        }
        CreateMessageResponse {
            content: blocks,
            id: new_message_id(),
            model,
            role: Role::Assistant,
            stop_reason: None,
            stop_sequence: None,
            type_: "message".to_owned(),
            usage: Some(usage),
        }
    }

    /// The text the response is measured by: the text of each block, one line
    /// each (see `block_text`).
    pub fn measured_text(&self) -> (r: String)
        ensures
            r@ == joined_text(self.content@),
    {
        let mut out = String::new();
        let mut i: usize = 0;
        while i < self.content.len()
            invariant
                i <= self.content@.len(),
                out@ == joined_text(self.content@.subrange(0, i as int)),
            decreases self.content@.len() - i,
        {
            let ghost sub = self.content@.subrange(0, i + 1);
            proof {
                assert(sub.drop_last() =~= self.content@.subrange(0, i as int));
                assert(sub.last() == self.content@[i as int]);
            }
            if i > 0 {
                out.append("\n");
                proof {
                    reveal_strlit("\n");
                }
            }
            match &self.content[i] {
                ContentBlock::Text { text, .. } => out.append(text.as_str()),
                ContentBlock::Image { source: ImageSource::Base64 { data, .. }, .. } => out.append(
                    data.as_str(),
                ),
                _ => {},
            }
            proof {
                assert(out@ =~= joined_text(sub));
            }
            i += 1;
        }
        proof {
            assert(self.content@.subrange(0, self.content@.len() as int) =~= self.content@);
        }
        out
    }

    /// The number of o200k_base tokens of the measured text (see
    /// `measured_text`), truncated to 32 bits; `None` exactly when the encoder
    /// gives up on it.
    pub fn count_tokens(&self) -> (r: Option<u32>)
        ensures
            r == (match o200k_token_count(joined_text(self.content@)) {
                Some(n) => Some(n as u32),
                None => None,
            }),
    {
        let text = self.measured_text();
        match count_o200k(text.as_str()) {
            Some(n) => Some(n as u32),
            None => None,
        }
    }
}

} // verus!
