//! Conversations and requests, in the neutral form that routing works on.

use serde_json::Value;
use vstd::prelude::*;
use vstd::string::*;

verus! {

/// Who speaks in a message.
#[derive(Clone, Copy, Debug, PartialEq, Eq, Structural)]
pub enum Role {
    /// Instructions from the operator.
    System,
    /// Instructions from the developer of the client.
    Developer,
    /// The person or program asking.
    User,
    /// The model answering.
    Assistant,
    /// A tool reporting back.
    Tool,
}

/// The wire format that a request arrived in.
#[derive(Clone, Copy, Debug, PartialEq, Eq, Structural)]
pub enum WireFormat {
    /// OpenAI Chat Completions.
    OpenAiChat,
    /// OpenAI Responses.
    OpenAiResponses,
    /// Anthropic Messages.
    AnthropicMessages,
}

/// A call that the model asks for.
#[derive(Debug, PartialEq)]
pub struct ToolCall {
    /// Names the call, so that a result can answer it.
    pub id: String,
    /// The tool to run.
    pub name: String,
    /// What to run it with.
    pub arguments: Value,
}

/// What a tool reported for one call.
#[derive(Debug, PartialEq)]
pub struct ToolResult {
    /// The call that this answers.
    pub tool_call_id: String,
    /// The report.
    pub content: Vec<ContentBlock>,
    /// Whether the tool failed, where it said so.
    pub is_error: Option<bool>,
}

/// One piece of a message.
#[derive(Debug, PartialEq)]
pub enum ContentBlock {
    /// Plain text.
    Text {
        /// The text.
        text: String,
    },
    /// A call that the model asks for.
    ToolCall(ToolCall),
    /// What a tool reported.
    ToolResult(ToolResult),
}

/// One message of a conversation.
#[derive(Debug, PartialEq)]
pub struct Message {
    /// Who speaks.
    pub role: Role,
    /// What is said, piece by piece.
    pub content: Vec<ContentBlock>,
}

/// One block of standing instructions.
#[derive(Debug, PartialEq)]
pub struct InstructionBlock {
    /// Who instructs.
    pub role: Role,
    /// The instruction, piece by piece.
    pub content: Vec<ContentBlock>,
}

/// How the answer should be shaped.
#[derive(Debug, PartialEq)]
pub struct OutputParams {
    /// Schema that the answer has to follow.
    pub response_format: Option<Value>,
    /// What else is said of the answer, carried unread.
    pub rest: Option<Value>,
}

/// What is asked of a model.
#[derive(Debug, PartialEq)]
pub struct LlmRequest {
    /// Model named by the caller.
    pub model: Option<String>,
    /// Standing instructions.
    pub instructions: Vec<InstructionBlock>,
    /// The conversation so far.
    pub messages: Vec<Message>,
    /// How the answer should be shaped.
    pub output: OutputParams,
    /// What else is asked, carried unread.
    pub rest: Option<Value>,
}

/// What is known of a request besides its content.
#[derive(Debug, PartialEq)]
pub struct Metadata {
    /// Session that the request belongs to.
    pub session_id: Option<String>,
    /// Format that it arrived in.
    pub wire_format: Option<WireFormat>,
    /// What else is known, carried unread.
    pub rest: Option<Value>,
}

/// A request on its way to a model.
#[derive(Debug, PartialEq)]
pub struct Request {
    /// What is asked.
    pub llm_request: LlmRequest,
    /// The body as it arrived.
    pub raw_request: Option<Value>,
    /// What else is known of it.
    pub metadata: Option<Metadata>,
}

/// What a client gets back; `R` is a model's response.
#[derive(Debug, PartialEq)]
pub struct Response<R> {
    /// The model's response.
    pub llm_response: R,
    /// What else is known of it.
    pub metadata: Option<Metadata>,
}

/// The content of a block.
pub enum BlockView {
    /// Plain text.
    Text {
        /// The text.
        text: Seq<char>,
    },
    /// A call that the model asks for.
    ToolCall {
        /// Names the call.
        id: Seq<char>,
        /// The tool to run.
        name: Seq<char>,
        /// What to run it with.
        arguments: Value,
    },
    /// What a tool reported.
    ToolResult {
        /// The call that this answers.
        tool_call_id: Seq<char>,
        /// The report.
        content: Seq<BlockView>,
        /// Whether the tool failed, where it said so.
        is_error: Option<bool>,
    },
}

/// The content of a message.
pub struct MessageView {
    /// Who speaks.
    pub role: Role,
    /// What is said.
    pub content: Seq<BlockView>,
}

/// The content of an instruction block.
pub struct InstructionView {
    /// Who instructs.
    pub role: Role,
    /// The instruction.
    pub content: Seq<BlockView>,
}

/// What is known of a request besides its content.
pub struct MetadataView {
    /// Session that the request belongs to.
    pub session_id: Option<Seq<char>>,
    /// Format that it arrived in.
    pub wire_format: Option<WireFormat>,
    /// What else is known.
    pub rest: Option<Value>,
}

/// The content of a request.
pub struct RequestView {
    /// Model named by the caller.
    pub model: Option<Seq<char>>,
    /// Standing instructions.
    pub instructions: Seq<InstructionView>,
    /// The conversation so far.
    pub messages: Seq<MessageView>,
    /// Schema that the answer has to follow.
    pub response_format: Option<Value>,
    /// What else is said of the answer.
    pub output_rest: Option<Value>,
    /// What else is asked.
    pub rest: Option<Value>,
    /// The body as it arrived.
    pub raw_request: Option<Value>,
    /// What else is known of it.
    pub metadata: Option<MetadataView>,
}

/// An optional text, by its characters.
pub open spec fn optional_text(text: Option<String>) -> Option<Seq<char>> {
    match text {
        Some(text) => Some(text@),
        None => None,
    }
}

/// The content of a block.
pub open spec fn block_view(block: ContentBlock) -> BlockView
    decreases block,
{
    match block {
        ContentBlock::Text { text } => BlockView::Text { text: text@ },
        ContentBlock::ToolCall(call) => BlockView::ToolCall {
            id: call.id@,
            name: call.name@,
            arguments: call.arguments,
        },
        ContentBlock::ToolResult(result) => BlockView::ToolResult {
            tool_call_id: result.tool_call_id@,
            content: blocks_view(result.content@),
            is_error: result.is_error,
        },
    }
}

/// The content of a run of blocks, block by block.
pub open spec fn blocks_view(blocks: Seq<ContentBlock>) -> Seq<BlockView>
    decreases blocks,
{
    Seq::new(
        blocks.len(),
        |i: int|
            if 0 <= i < blocks.len() {
                block_view(blocks[i])
            } else {
                arbitrary()
            },
    )
}

impl View for ContentBlock {
    type V = BlockView;

    open spec fn view(&self) -> BlockView {
        block_view(*self)
    }
}

impl View for Message {
    type V = MessageView;

    open spec fn view(&self) -> MessageView {
        MessageView { role: self.role, content: blocks_view(self.content@) }
    }
}

impl View for InstructionBlock {
    type V = InstructionView;

    open spec fn view(&self) -> InstructionView {
        InstructionView { role: self.role, content: blocks_view(self.content@) }
    }
}

impl View for Metadata {
    type V = MetadataView;

    open spec fn view(&self) -> MetadataView {
        MetadataView {
            session_id: optional_text(self.session_id),
            wire_format: self.wire_format,
            rest: self.rest,
        }
    }
}

/// The content of a conversation, message by message.
pub open spec fn messages_view(messages: Seq<Message>) -> Seq<MessageView> {
    messages.map_values(|message: Message| message@)
}

impl View for Request {
    type V = RequestView;

    open spec fn view(&self) -> RequestView {
        RequestView {
            model: optional_text(self.llm_request.model),
            instructions: self.llm_request.instructions@.map_values(
                |block: InstructionBlock| block@,
            ),
            messages: messages_view(self.llm_request.messages@),
            response_format: self.llm_request.output.response_format,
            output_rest: self.llm_request.output.rest,
            rest: self.llm_request.rest,
            raw_request: self.raw_request,
            metadata: match self.metadata {
                Some(metadata) => Some(metadata@),
                None => None,
            },
        }
    }
}

/// A block that holds plain text.
pub open spec fn text_block(text: Seq<char>) -> BlockView {
    BlockView::Text { text }
}

/// A message that says one text.
pub open spec fn text_message(role: Role, text: Seq<char>) -> MessageView {
    MessageView { role, content: seq![text_block(text)] }
}

/// A copy of a block.
pub fn copy_block(block: &ContentBlock) -> (copy: ContentBlock)
    ensures
        copy@ == block@,
    decreases block,
{
    match block {
        ContentBlock::Text { text } => ContentBlock::Text { text: text.clone() },
        ContentBlock::ToolCall(call) => ContentBlock::ToolCall(
            ToolCall {
                id: call.id.clone(),
                name: call.name.clone(),
                arguments: call.arguments.clone(),
            },
        ),
        ContentBlock::ToolResult(result) => ContentBlock::ToolResult(
            ToolResult {
                tool_call_id: result.tool_call_id.clone(),
                content: copy_blocks(&result.content),
                is_error: result.is_error,
            },
        ),
    }
}

/// A copy of a run of blocks.
pub fn copy_blocks(blocks: &Vec<ContentBlock>) -> (copy: Vec<ContentBlock>)
    ensures
        blocks_view(copy@) == blocks_view(blocks@),
    decreases blocks,
{
    let mut copy: Vec<ContentBlock> = Vec::new();
    let mut i: usize = 0;
    while i < blocks.len()
        invariant
            i <= blocks@.len(),
            copy@.len() == i,
            forall|j: int| 0 <= j < i ==> block_view(#[trigger] copy@[j]) == block_view(blocks@[j]),
        decreases blocks@.len() - i,
    {
        copy.push(copy_block(&blocks[i]));
        i += 1;
    }
    proof {
        assert(blocks_view(copy@) =~= blocks_view(blocks@));
    }
    copy
}

impl Message {
    /// A message that says one text.
    pub fn text(role: Role, text: &str) -> (message: Message)
        ensures
            message@ == text_message(role, text@),
    {
        let message = Message { role, content: vec![ContentBlock::Text { text: text.to_owned() }] };
        proof {
            assert(message@.content =~= seq![text_block(text@)]);
        }
        message
    }

    /// A copy of the message.
    pub fn copy(&self) -> (copy: Message)
        ensures
            copy@ == self@,
    {
        Message { role: self.role, content: copy_blocks(&self.content) }
    }
}

impl Metadata {
    /// A copy of the metadata.
    pub fn copy(&self) -> (copy: Metadata)
        ensures
            copy == *self,
    {
        Metadata {
            session_id: copy_text(&self.session_id),
            wire_format: self.wire_format,
            rest: copy_value(&self.rest),
        }
    }
}

/// A copy of an optional text.
pub fn copy_text(text: &Option<String>) -> (copy: Option<String>)
    ensures
        copy == *text,
{
    match text {
        Some(text) => Some(text.clone()),
        None => None,
    }
}

/// A copy of an optional value.
pub fn copy_value(value: &Option<Value>) -> (copy: Option<Value>)
    ensures
        copy == *value,
{
    match value {
        Some(value) => Some(value.clone()),
        None => None,
    }
}

/// A request that asks nothing.
pub open spec fn empty_request() -> RequestView {
    RequestView {
        model: None,
        instructions: seq![],
        messages: seq![],
        response_format: None,
        output_rest: None,
        rest: None,
        raw_request: None,
        metadata: None,
    }
}

impl Default for Request {
    fn default() -> (request: Request)
        ensures
            request@ == empty_request(),
    {
        let request = Request {
            llm_request: LlmRequest {
                model: None,
                instructions: Vec::new(),
                messages: Vec::new(),
                output: OutputParams { response_format: None, rest: None },
                rest: None,
            },
            raw_request: None,
            metadata: None,
        };
        proof {
            assert(request@.messages =~= empty_request().messages);
            assert(request@.instructions =~= empty_request().instructions);
        }
        request
    }
}

/// A block is seen with all that it holds.
pub proof fn law_blocks_are_seen(
    text: String,
    call: ToolCall,
    result: ToolResult,
    blocks: Seq<ContentBlock>,
)
    ensures
        block_view(ContentBlock::Text { text }) == (BlockView::Text { text: text@ }),
        block_view(ContentBlock::ToolCall(call)) == (BlockView::ToolCall {
            id: call.id@,
            name: call.name@,
            arguments: call.arguments,
        }),
        block_view(ContentBlock::ToolResult(result)) matches BlockView::ToolResult {
            tool_call_id,
            content,
            is_error,
        } && tool_call_id == result.tool_call_id@ && is_error == result.is_error && content
            == blocks_view(result.content@),
        blocks_view(blocks).len() == blocks.len(),
        forall|i: int|
            0 <= i < blocks.len() ==> #[trigger] blocks_view(blocks)[i] == block_view(blocks[i]),
{
}

/// A conversation is seen message by message, with role and content.
pub proof fn law_messages_are_seen(messages: Seq<Message>)
    ensures
        messages_view(messages).len() == messages.len(),
        forall|i: int|
            0 <= i < messages.len() ==> (#[trigger] messages_view(messages)[i]).role
                == messages[i].role && messages_view(messages)[i].content == blocks_view(
                messages[i].content@,
            ),
{
}

/// A request is seen with all that it holds.
pub proof fn law_requests_are_seen(request: Request, text: String)
    ensures
        optional_text(Some(text)) == Some(text@),
        optional_text(None) is None,
        request@.model == optional_text(request.llm_request.model),
        request@.messages == messages_view(request.llm_request.messages@),
        request@.instructions.len() == request.llm_request.instructions@.len(),
        forall|i: int|
            0 <= i < request@.instructions.len() ==> (#[trigger] request@.instructions[i]).role
                == request.llm_request.instructions@[i].role && request@.instructions[i].content
                == blocks_view(request.llm_request.instructions@[i].content@),
        request@.response_format == request.llm_request.output.response_format,
        request@.output_rest == request.llm_request.output.rest,
        request@.rest == request.llm_request.rest,
        request@.raw_request == request.raw_request,
        request@.metadata is Some <==> request.metadata is Some,
        request.metadata matches Some(metadata) ==> request@.metadata == Some(
            MetadataView {
                session_id: optional_text(metadata.session_id),
                wire_format: metadata.wire_format,
                rest: metadata.rest,
            },
        ),
{
}

/// A message of one text has that role and that one block, and an empty request
/// holds nothing.
pub proof fn law_simple_messages(role: Role, text: Seq<char>)
    ensures
        text_message(role, text).role == role,
        text_message(role, text).content.len() == 1,
        text_message(role, text).content[0] == (BlockView::Text { text }),
        text_block(text) == (BlockView::Text { text }),
        empty_request().model is None,
        empty_request().instructions.len() == 0,
        empty_request().messages.len() == 0,
        empty_request().response_format is None,
        empty_request().output_rest is None,
        empty_request().rest is None,
        empty_request().raw_request is None,
        empty_request().metadata is None,
{
}

} // verus!
