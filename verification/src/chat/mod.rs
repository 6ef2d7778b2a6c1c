//! Conversations: their messages, and the streams that providers answer with.
//!
//! A message is a list of content blocks, which keeps the order of text, tool
//! calls and reasoning. Providers hold no state: each request carries the whole
//! conversation.

pub mod error_codes;

use vstd::prelude::*;

use crate::config::agent_types::Float32;
use crate::text::same_text;

verus! {

/// Plugin kind of the chat providers.
pub const PLUGIN_KIND_CHAT_PROVIDER: &'static str = "chat_provider";

/// Subject-kind wire string for conversations.
pub const SUBJECT_KIND_CONVERSATION: &'static str = "conversation";

/// Per-crate semver protocol version.
pub const PROTOCOL_VERSION: &'static str = "0.1.0";

/// Schema discriminator value carried by every [`ChatMessage`].
pub const MESSAGE_SCHEMA: &'static str = "animus.chat.message.v1";

/// Schema discriminator value carried by every [`ConversationMeta`].
pub const CONVERSATION_SCHEMA: &'static str = "animus.chat.conversation.v1";

/// Stream a chat turn.
pub const METHOD_CHAT_STREAM: &'static str = "chat/stream";

/// List the models this provider exposes.
pub const METHOD_CHAT_MODELS: &'static str = "chat/models";

/// Count the input tokens a request would consume without running it.
pub const METHOD_CHAT_COUNT_TOKENS: &'static str = "chat/count_tokens";

/// JSON-RPC method name for the streaming notifications a
/// [`METHOD_CHAT_STREAM`] request fans out.
pub const NOTIFICATION_CHAT_DELTA: &'static str = "chat/delta";
/// The role of a [`ChatMessage`]'s author.
#[derive(Debug, Clone, Copy, PartialEq, Eq, Structural)]
pub enum ChatRole {
    /// A human (or external client) turn.
    User,
    /// A model-authored turn.
    Assistant,
    /// A system prompt / instruction turn.
    System,
    /// A tool-result-bearing turn.
    Tool,
}

/// Why the model stopped generating.
#[derive(Debug, Clone, PartialEq, Eq)]
#[non_exhaustive]
pub enum StopReason {
    /// The model reached a natural end of turn.
    EndTurn,
    /// The model emitted a tool-use block and is waiting for a result.
    ToolUse,
    /// The model hit the `max_tokens` ceiling.
    MaxTokens,
    /// The model emitted a configured stop sequence.
    StopSequence,
    /// The model declined to respond.
    Refusal,
    /// The model paused a long-running turn and expects to be re-invoked with
    /// the same history to continue.
    PauseTurn,
    /// Any stop reason not understood by this crate version.
    Other(String),
}

/// Token accounting for a model turn.
#[derive(Debug, Clone, Copy, PartialEq, Eq)]
pub struct Usage {
    /// Input (prompt) tokens billed for this turn.
    pub input_tokens: u64,
    /// Output (completion) tokens generated this turn.
    pub output_tokens: u64,
    /// Tokens served from the prompt cache (billed at the cache-read rate).
    pub cache_read_input_tokens: u64,
    /// Tokens written into the prompt cache (billed at the cache-write rate).
    pub cache_creation_input_tokens: u64,
}

impl Default for Usage {
    fn default() -> (r: Self)
        ensures
            r.input_tokens == 0,
            r.output_tokens == 0,
            r.cache_read_input_tokens == 0,
            r.cache_creation_input_tokens == 0,
    {
        Usage {
            input_tokens: 0,
            output_tokens: 0,
            cache_read_input_tokens: 0,
            cache_creation_input_tokens: 0,
        }
    }
}

/// Source of an [`Image`] block.
#[derive(Debug, Clone, PartialEq, Eq)]
pub enum ImageSource {
    /// Inline base64-encoded image bytes.
    Base64 {
        /// MIME media type.
        media_type: String,
        /// Base64-encoded image data (no data-URL prefix).
        data: String,
    },
    /// A fetchable image URL.
    Url {
        /// Absolute URL of the image.
        url: String,
    },
}

/// A single content block within a [`ChatMessage`].
#[derive(Debug, PartialEq)]
pub enum ContentBlock {
    /// Plain text.
    Text {
        /// The text content.
        text: String,
    },
    /// A model request to invoke a tool.
    ToolUse {
        /// Provider-issued id correlating this call to its result.
        id: String,
        /// Tool name.
        name: String,
        /// Tool arguments as a JSON object.
        input: serde_json::Value,
    },
    /// The result of executing a tool, fed back to the model.
    ToolResult {
        /// The `id` of the [`ToolUse`] this answers.
        tool_use_id: String,
        /// `true` if the tool errored (including RBAC denials) - the model
        /// sees the error and can recover; it does not crash the
        /// conversation.
        is_error: bool,
        /// The tool's output as content blocks.
        content: Vec<ContentBlock>,
    },
    /// Extended-thinking reasoning.
    Thinking {
        /// The model's reasoning text.
        thinking: String,
        /// Opaque provider signature authenticating the thinking block.
        signature: String,
    },
    /// An image.
    Image {
        /// Where the image bytes come from.
        source: ImageSource,
    },
}

/// A single conversation message - one line of `messages.jsonl`.
#[derive(Debug, Clone, PartialEq)]
pub struct ChatMessage {
    /// Schema discriminator.
    pub schema: String,
    /// Message id (ULID, monotonic within a conversation).
    pub id: String,
    /// Owning conversation id.
    pub conversation_id: String,
    /// Author role.
    pub role: ChatRole,
    /// Ordered content blocks.
    pub content: Vec<ContentBlock>,
    /// Model id that produced an assistant turn; `None` for user/system/tool.
    pub model: Option<String>,
    /// Why generation stopped; `None` for non-assistant turns or in-progress.
    pub stop_reason: Option<StopReason>,
    /// Token accounting; `None` for non-assistant turns.
    pub usage: Option<Usage>,
    /// RFC3339 creation timestamp.
    pub created_at: String,
    /// RBAC principal that authored this turn; `None` when unattributed.
    pub principal_id: Option<String>,
}

/// The shell of a content block as it opens in a stream, before any deltas.
#[derive(Debug, Clone, PartialEq)]
pub enum ContentBlockStart {
    /// A text block opens (text accumulates via [`TextDelta`]).
    Text {
        /// Initial text (usually empty).
        text: String,
    },
    /// A tool-use block opens.
    ToolUse {
        /// Provider-issued tool-call id.
        id: String,
        /// Tool name.
        name: String,
    },
    /// A thinking block opens (accumulates via [`ThinkingDelta`] and
    /// [`SignatureDelta`]).
    Thinking {
        /// Initial thinking text (usually empty).
        thinking: String,
    },
}

/// An incremental update to an open content block.
#[derive(Debug, Clone, PartialEq)]
pub enum BlockDelta {
    /// Append text to a text block.
    TextDelta {
        /// Text fragment.
        text: String,
    },
    /// Append a fragment of the tool-use `input` JSON.
    InputJsonDelta {
        /// Partial JSON string fragment.
        partial_json: String,
    },
    /// Append text to a thinking block.
    ThinkingDelta {
        /// Thinking fragment.
        thinking: String,
    },
    /// Append to a thinking block's signature.
    SignatureDelta {
        /// Signature fragment.
        signature: String,
    },
}

/// One frame of the [`METHOD_CHAT_STREAM`] notification stream.
#[derive(Debug, Clone, PartialEq)]
pub enum ChatStreamEvent {
    /// The assistant message opens.
    MessageStart {
        /// New assistant message id.
        message_id: String,
        /// Author role (always [`Assistant`] in practice).
        role: ChatRole,
        /// Usage known at message start (input/cache tokens).
        usage: Usage,
    },
    /// A content block opens at `index`.
    ContentBlockStart {
        /// Block position within the message.
        index: u32,
        /// The opening block shell.
        block: ContentBlockStart,
    },
    /// An incremental update to the block at `index`.
    ContentBlockDelta {
        /// Block position within the message.
        index: u32,
        /// The delta to apply.
        delta: BlockDelta,
    },
    /// The block at `index` is complete (accumulated `input_json` should be
    /// parsed now).
    ContentBlockStop {
        /// Block position within the message.
        index: u32,
    },
    /// Top-level message metadata update - the final stop reason and the
    /// cumulative output usage.
    MessageDelta {
        /// Why the message stopped; `None` until known.
        stop_reason: Option<StopReason>,
        /// Cumulative usage (notably `output_tokens`).
        usage: Usage,
    },
    /// The stream is finished.
    MessageStop,
}

/// The `params` of a [`NOTIFICATION_CHAT_DELTA`] frame.
#[derive(Debug, Clone, PartialEq)]
pub struct ChatStreamNotification {
    /// The originating [`METHOD_CHAT_STREAM`] request id this frame belongs
    /// to.
    pub id: serde_json::Value,
    /// The streamed event.
    pub event: ChatStreamEvent,
}

/// A tool the model may call, advertised on a [`ChatStreamRequest`].
#[derive(Debug, Clone, PartialEq)]
pub struct ToolSchema {
    /// Tool name.
    pub name: String,
    /// Human-readable description shown to the model.
    pub description: String,
    /// JSON Schema for the tool's input object.
    pub input_schema: serde_json::Value,
}

/// Request params for [`METHOD_CHAT_STREAM`].
#[derive(Debug, Clone, PartialEq)]
pub struct ChatStreamRequest {
    /// Full conversation history to send to the model.
    pub messages: Vec<ChatMessage>,
    /// System prompt; `None` when no system turn applies.
    pub system: Option<String>,
    /// Tools the model may call this turn.
    pub tools: Vec<ToolSchema>,
    /// Model id to run against.
    pub model: String,
    /// Maximum output tokens to generate.
    pub max_tokens: u32,
    /// Sampling temperature; `None` lets the provider use its default.
    pub temperature: Option<Float32>,
}

/// One entry of the [`METHOD_CHAT_MODELS`] response.
#[derive(Debug, Clone, PartialEq)]
pub struct ChatModelInfo {
    /// Model id.
    pub id: String,
    /// Maximum context window in tokens.
    pub context_window: u32,
    /// Whether the model supports tool/function calling.
    pub supports_tools: bool,
    /// Whether the model supports image input.
    pub supports_vision: bool,
}

/// Response for [`METHOD_CHAT_COUNT_TOKENS`].
#[derive(Debug, Clone, Copy, PartialEq, Eq)]
pub struct CountTokensResponse {
    /// Number of input tokens the request would consume.
    pub input_tokens: u64,
}

/// Conversation metadata - the `meta.json` of a conversation subject.
#[derive(Debug, Clone, PartialEq)]
pub struct ConversationMeta {
    /// Schema discriminator.
    pub schema: String,
    /// Conversation id.
    pub id: String,
    /// Optional human-readable title.
    pub title: Option<String>,
    /// The agent profile (persona) bound to this conversation; `None` for
    /// ad-hoc.
    pub agent_profile: Option<String>,
    /// Default model id for this conversation.
    pub model: String,
    /// RFC3339 creation timestamp.
    pub created_at: String,
    /// RFC3339 timestamp of the most recent append.
    pub updated_at: String,
    /// RBAC principal that owns the conversation; `None` when unattributed.
    pub principal_id: Option<String>,
    /// Number of messages persisted in `messages.jsonl`.
    pub message_count: u64,
}

/// Capability flags a `chat_provider` plugin advertises.
#[derive(Debug, Clone, Copy, PartialEq, Eq)]
pub struct ChatProviderCapabilities {
    /// Streams responses token-by-token (always `true` for chat providers).
    pub streaming: bool,
    /// Supports tool/function calling.
    pub tool_use: bool,
    /// Supports image input.
    pub vision: bool,
    /// Supports prompt caching.
    pub prompt_caching: bool,
}

impl Default for ChatProviderCapabilities {
    fn default() -> (r: Self)
        ensures
            !r.streaming,
            !r.tool_use,
            !r.vision,
            !r.prompt_caching,
    {
        ChatProviderCapabilities {
            streaming: false,
            tool_use: false,
            vision: false,
            prompt_caching: false,
        }
    }
}

// ---------------------------------------------------------------------
// Stop reasons
// ---------------------------------------------------------------------

/// The reason that a word on the wire stands for. A word that is not known is
/// kept as it is.
pub open spec fn reason_of(word: String) -> StopReason {
    if word@ == "end_turn"@ {
        StopReason::EndTurn
    } else if word@ == "tool_use"@ {
        StopReason::ToolUse
    } else if word@ == "max_tokens"@ {
        StopReason::MaxTokens
    } else if word@ == "stop_sequence"@ {
        StopReason::StopSequence
    } else if word@ == "refusal"@ {
        StopReason::Refusal
    } else if word@ == "pause_turn"@ {
        StopReason::PauseTurn
    } else {
        StopReason::Other(word)
    }
}

impl StopReason {
    /// The word on the wire.
    pub open spec fn word(self) -> Seq<char> {
        match self {
            StopReason::EndTurn => "end_turn"@,
            StopReason::ToolUse => "tool_use"@,
            StopReason::MaxTokens => "max_tokens"@,
            StopReason::StopSequence => "stop_sequence"@,
            StopReason::Refusal => "refusal"@,
            StopReason::PauseTurn => "pause_turn"@,
            StopReason::Other(word) => word@,
        }
    }

    /// The word on the wire.
    pub fn as_str(&self) -> (r: &str)
        ensures
            r@ == self.word(),
    {
        match self {
            StopReason::EndTurn => "end_turn",
            StopReason::ToolUse => "tool_use",
            StopReason::MaxTokens => "max_tokens",
            StopReason::StopSequence => "stop_sequence",
            StopReason::Refusal => "refusal",
            StopReason::PauseTurn => "pause_turn",
            StopReason::Other(word) => word.as_str(),
        }
    }

    /// Whether the reason is one of those that are known.
    pub fn is_known(&self) -> (r: bool)
        ensures
            r == !(self is Other),
    {
        match self {
            StopReason::Other(_) => false,
            _ => true,
        }
    }

    /// The word on the wire, as a string of its own.
    pub fn into_string(self) -> (r: String)
        ensures
            r@ == self.word(),
    {
        self.as_str().to_owned()
    }
}

impl From<String> for StopReason {
    fn from(word: String) -> (r: Self) {
        if same_text(word.as_str(), "end_turn") {
            StopReason::EndTurn
        } else if same_text(word.as_str(), "tool_use") {
            StopReason::ToolUse
        } else if same_text(word.as_str(), "max_tokens") {
            StopReason::MaxTokens
        } else if same_text(word.as_str(), "stop_sequence") {
            StopReason::StopSequence
        } else if same_text(word.as_str(), "refusal") {
            StopReason::Refusal
        } else if same_text(word.as_str(), "pause_turn") {
            StopReason::PauseTurn
        } else {
            StopReason::Other(word)
        }
    }
}

impl vstd::std_specs::convert::FromSpecImpl<String> for StopReason {
    open spec fn obeys_from_spec() -> bool {
        true
    }

    open spec fn from_spec(word: String) -> Self {
        reason_of(word)
    }
}

/// Every word comes back from the reason it is read as, known or not.
pub proof fn words_round_trip(word: String)
    ensures
        reason_of(word).word() == word@,
{
}

/// Every known reason is read back from its word. So is one that is not known,
/// where its word is not a known reason's.
pub proof fn reasons_round_trip(reason: StopReason, word: String)
    requires
        word@ == reason.word(),
        reason is Other ==> reason_of(reason->Other_0) is Other,
    ensures
        reason is Other ==> reason_of(word) == StopReason::Other(word),
        !(reason is Other) ==> reason_of(word) == reason,
{
    reveal_strlit("end_turn");
    reveal_strlit("tool_use");
    reveal_strlit("max_tokens");
    reveal_strlit("stop_sequence");
    reveal_strlit("refusal");
    reveal_strlit("pause_turn");
    assert("end_turn"@[0] == 'e' && "tool_use"@[0] == 't' && "max_tokens"@[0] == 'm');
    assert("stop_sequence"@[0] == 's' && "refusal"@[0] == 'r' && "pause_turn"@[0] == 'p');
}

// ---------------------------------------------------------------------
// Messages, conversations and notifications
// ---------------------------------------------------------------------

impl ChatMessage {
    /// A message under [`MESSAGE_SCHEMA`], without what only some messages have.
    pub fn new(
        id: String,
        conversation_id: String,
        role: ChatRole,
        content: Vec<ContentBlock>,
        created_at: String,
    ) -> (r: Self)
        ensures
            r.schema@ == MESSAGE_SCHEMA@,
            r.id == id,
            r.conversation_id == conversation_id,
            r.role == role,
            r.content == content,
            r.model is None,
            r.stop_reason is None,
            r.usage is None,
            r.created_at == created_at,
            r.principal_id is None,
    {
        ChatMessage {
            schema: MESSAGE_SCHEMA.to_owned(),
            id,
            conversation_id,
            role,
            content,
            model: None,
            stop_reason: None,
            usage: None,
            created_at,
            principal_id: None,
        }
    }
}

impl ChatStreamNotification {
    /// An event, under the id of the request that it answers.
    pub fn new(id: serde_json::Value, event: ChatStreamEvent) -> (r: Self)
        ensures
            r.id == id,
            r.event == event,
    {
        ChatStreamNotification { id, event }
    }
}

impl ConversationMeta {
    /// A conversation under [`CONVERSATION_SCHEMA`], without messages and
    /// without what only some conversations have.
    pub fn new(id: String, model: String, created_at: String, updated_at: String) -> (r: Self)
        ensures
            r.schema@ == CONVERSATION_SCHEMA@,
            r.id == id,
            r.title is None,
            r.agent_profile is None,
            r.model == model,
            r.created_at == created_at,
            r.updated_at == updated_at,
            r.principal_id is None,
            r.message_count == 0,
    {
        ConversationMeta {
            schema: CONVERSATION_SCHEMA.to_owned(),
            id,
            title: None,
            agent_profile: None,
            model,
            created_at,
            updated_at,
            principal_id: None,
            message_count: 0,
        }
    }
}

// ---------------------------------------------------------------------
// Copies of content blocks
// ---------------------------------------------------------------------

/// Whether two images come from the same source.
pub open spec fn same_source(a: ImageSource, b: ImageSource) -> bool {
    match (a, b) {
        (
            ImageSource::Base64 { media_type: a_type, data: a_data },
            ImageSource::Base64 { media_type: b_type, data: b_data },
        ) => a_type@ == b_type@ && a_data@ == b_data@,
        (ImageSource::Url { url: a_url }, ImageSource::Url { url: b_url }) => a_url@ == b_url@,
        _ => false,
    }
}

/// Whether two blocks hold the same.
pub open spec fn same_block(a: ContentBlock, b: ContentBlock) -> bool
    decreases a,
{
    match (a, b) {
        (ContentBlock::Text { text: a_text }, ContentBlock::Text { text: b_text }) => a_text@
            == b_text@,
        (
            ContentBlock::ToolUse { id: a_id, name: a_name, input: a_input },
            ContentBlock::ToolUse { id: b_id, name: b_name, input: b_input },
        ) => a_id@ == b_id@ && a_name@ == b_name@ && a_input == b_input,
        (
            ContentBlock::ToolResult { tool_use_id: a_id, is_error: a_error, content: a_content },
            ContentBlock::ToolResult { tool_use_id: b_id, is_error: b_error, content: b_content },
        ) => {
            &&& a_id@ == b_id@
            &&& a_error == b_error
            &&& a_content@.len() == b_content@.len()
            &&& forall|i: int|
                0 <= i < a_content@.len() ==> same_block(
                    #[trigger] a_content@[i],
                    #[trigger] b_content@[i],
                )
        },
        (
            ContentBlock::Thinking { thinking: a_thinking, signature: a_signature },
            ContentBlock::Thinking { thinking: b_thinking, signature: b_signature },
        ) => a_thinking@ == b_thinking@ && a_signature@ == b_signature@,
        (ContentBlock::Image { source: a_source }, ContentBlock::Image { source: b_source })
        => same_source(a_source, b_source),
        _ => false,
    }
}

fn copy_source(source: &ImageSource) -> (r: ImageSource)
    ensures
        same_source(*source, r),
{
    match source {
        ImageSource::Base64 { media_type, data } => ImageSource::Base64 {
            media_type: media_type.clone(),
            data: data.clone(),
        },
        ImageSource::Url { url } => ImageSource::Url { url: url.clone() },
    }
}

fn copy_block(block: &ContentBlock) -> (r: ContentBlock)
    ensures
        same_block(*block, r),
    decreases *block,
{
    match block {
        ContentBlock::Text { text } => ContentBlock::Text { text: text.clone() },
        ContentBlock::ToolUse { id, name, input } => ContentBlock::ToolUse {
            id: id.clone(),
            name: name.clone(),
            input: input.clone(),
        },
        ContentBlock::ToolResult { tool_use_id, is_error, content } => {
            let mut copies: Vec<ContentBlock> = Vec::new();
            let mut i: usize = 0;
            while i < content.len()
                invariant
                    i <= content@.len(),
                    copies@.len() == i,
                    *block matches ContentBlock::ToolResult { content: whole, .. } && whole
                        == *content,
                    forall|j: int|
                        0 <= j < i ==> same_block(
                            #[trigger] content@[j],
                            #[trigger] copies@[j],
                        ),
                decreases content@.len() - i,
            {
                let copy = copy_block(&content[i]);
                copies.push(copy);
                i += 1;
            }
            ContentBlock::ToolResult {
                tool_use_id: tool_use_id.clone(),
                is_error: *is_error,
                content: copies,
            }
        },
        ContentBlock::Thinking { thinking, signature } => ContentBlock::Thinking {
            thinking: thinking.clone(),
            signature: signature.clone(),
        },
        ContentBlock::Image { source } => ContentBlock::Image { source: copy_source(source) },
    }
}

impl Clone for ContentBlock {
    fn clone(&self) -> (r: Self)
        ensures
            same_block(*self, r),
    {
        copy_block(self)
    }
}

/// Each known reason goes by its one word, and any other word is kept.
pub proof fn reasons_go_by_their_words(word: String)
    ensures
        word@ == "end_turn"@ <==> reason_of(word) == StopReason::EndTurn,
        StopReason::EndTurn.word() == "end_turn"@,
        word@ == "tool_use"@ <==> reason_of(word) == StopReason::ToolUse,
        StopReason::ToolUse.word() == "tool_use"@,
        word@ == "max_tokens"@ <==> reason_of(word) == StopReason::MaxTokens,
        StopReason::MaxTokens.word() == "max_tokens"@,
        word@ == "stop_sequence"@ <==> reason_of(word) == StopReason::StopSequence,
        StopReason::StopSequence.word() == "stop_sequence"@,
        word@ == "refusal"@ <==> reason_of(word) == StopReason::Refusal,
        StopReason::Refusal.word() == "refusal"@,
        word@ == "pause_turn"@ <==> reason_of(word) == StopReason::PauseTurn,
        StopReason::PauseTurn.word() == "pause_turn"@,
        reason_of(word) is Other <==> word@ != "end_turn"@ && word@ != "tool_use"@ && word@ != "max_tokens"@ && word@ != "stop_sequence"@ && word@ != "refusal"@ && word@ != "pause_turn"@,
        reason_of(word) is Other ==> reason_of(word) == StopReason::Other(word),
        StopReason::Other(word).word() == word@,
{
    reveal_strlit("end_turn");
    reveal_strlit("tool_use");
    reveal_strlit("max_tokens");
    reveal_strlit("stop_sequence");
    reveal_strlit("refusal");
    reveal_strlit("pause_turn");
    assert("end_turn"@[0] == 'e' && "tool_use"@[0] == 't' && "max_tokens"@[0] == 'm');
    assert("stop_sequence"@[0] == 's' && "refusal"@[0] == 'r' && "pause_turn"@[0] == 'p');
}

} // verus!
