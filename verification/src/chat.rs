//! Conversation entries as the client holds them, and the decisions of the
//! request/response protocol spoken with the conversation actor.

use vstd::prelude::*;
use vstd::string::*;
use crate::text::clone_opt_string;

verus! {

/// Who authored a message.
#[derive(Debug, Clone, Copy, PartialEq, Eq, Structural)]
pub enum Role {
    User,
    Assistant,
    System,
}

/// One piece of what a tool handed back.
#[derive(Debug, PartialEq, Eq)]
pub enum ToolContent {
    /// Plain text output.
    Text { text: String },
    /// An image, as encoded data of a media type.
    Image { data: String, mime_type: String },
    /// Sound, as encoded data of a media type.
    Audio { data: String, mime_type: String },
    /// A resource, as JSON text.
    Resource { resource: String },
}

pub ghost enum ToolContentView {
    Text { text: Seq<char> },
    Image { data: Seq<char>, mime_type: Seq<char> },
    Audio { data: Seq<char>, mime_type: Seq<char> },
    Resource { resource: Seq<char> },
}

impl DeepView for ToolContent {
    type V = ToolContentView;

    open spec fn deep_view(&self) -> ToolContentView {
        match self {
            ToolContent::Text { text } => ToolContentView::Text { text: text@ },
            ToolContent::Image { data, mime_type } => ToolContentView::Image {
                data: data@,
                mime_type: mime_type@,
            },
            ToolContent::Audio { data, mime_type } => ToolContentView::Audio {
                data: data@,
                mime_type: mime_type@,
            },
            ToolContent::Resource { resource } => ToolContentView::Resource {
                resource: resource@,
            },
        }
    }
}

impl Clone for ToolContent {
    fn clone(&self) -> (r: Self)
        ensures
            r.deep_view() == self.deep_view(),
    {
        match self {
            ToolContent::Text { text } => ToolContent::Text { text: text.clone() },
            ToolContent::Image { data, mime_type } => ToolContent::Image {
                data: data.clone(),
                mime_type: mime_type.clone(),
            },
            ToolContent::Audio { data, mime_type } => ToolContent::Audio {
                data: data.clone(),
                mime_type: mime_type.clone(),
            },
            ToolContent::Resource { resource } => ToolContent::Resource {
                resource: resource.clone(),
            },
        }
    }
}

fn clone_tool_contents(items: &Vec<ToolContent>) -> (r: Vec<ToolContent>)
    ensures
        r.deep_view() == items.deep_view(),
{
    let mut out: Vec<ToolContent> = Vec::new();
    let mut i: usize = 0;
    while i < items.len()
        invariant
            i <= items.len(),
            out.len() == i,
            forall|j: int| 0 <= j < i ==> out@[j].deep_view() == items@[j].deep_view(),
        decreases items.len() - i,
    {
        out.push(items[i].clone());
        i += 1;
    }
    assert(out.deep_view() =~= items.deep_view());
    out
}

/// One block of a message's content.
#[derive(Debug, PartialEq, Eq)]
pub enum MessageContent {
    /// Plain text.
    Text { text: String },
    /// A tool invocation; `input` is the argument document as JSON text.
    ToolUse { id: String, name: String, input: String },
    /// What a tool invocation produced.
    ToolResult { tool_use_id: String, content: Vec<ToolContent>, is_error: bool },
}

pub ghost enum MessageContentView {
    Text { text: Seq<char> },
    ToolUse { id: Seq<char>, name: Seq<char>, input: Seq<char> },
    ToolResult { tool_use_id: Seq<char>, content: Seq<ToolContentView>, is_error: bool },
}

impl DeepView for MessageContent {
    type V = MessageContentView;

    open spec fn deep_view(&self) -> MessageContentView {
        match self {
            MessageContent::Text { text } => MessageContentView::Text { text: text@ },
            MessageContent::ToolUse { id, name, input } => MessageContentView::ToolUse {
                id: id@,
                name: name@,
                input: input@,
            },
            MessageContent::ToolResult {
                tool_use_id,
                content,
                is_error,
            } => MessageContentView::ToolResult {
                tool_use_id: tool_use_id@,
                content: content.deep_view(),
                is_error: *is_error,
            },
        }
    }
}

impl MessageContentView {
    /// A block that invokes a tool or carries a tool's result.
    pub open spec fn is_tool_block(self) -> bool {
        self is ToolUse || self is ToolResult
    }
}

impl Clone for MessageContent {
    fn clone(&self) -> (r: Self)
        ensures
            r.deep_view() == self.deep_view(),
    {
        match self {
            MessageContent::Text { text } => MessageContent::Text { text: text.clone() },
            MessageContent::ToolUse { id, name, input } => MessageContent::ToolUse {
                id: id.clone(),
                name: name.clone(),
                input: input.clone(),
            },
            MessageContent::ToolResult {
                tool_use_id,
                content,
                is_error,
            } => MessageContent::ToolResult {
                tool_use_id: tool_use_id.clone(),
                content: clone_tool_contents(content),
                is_error: *is_error,
            },
        }
    }
}

fn clone_contents(items: &Vec<MessageContent>) -> (r: Vec<MessageContent>)
    ensures
        r.deep_view() == items.deep_view(),
{
    let mut out: Vec<MessageContent> = Vec::new();
    let mut i: usize = 0;
    while i < items.len()
        invariant
            i <= items.len(),
            out.len() == i,
            forall|j: int| 0 <= j < i ==> out@[j].deep_view() == items@[j].deep_view(),
        decreases items.len() - i,
    {
        out.push(items[i].clone());
        i += 1;
    }
    assert(out.deep_view() =~= items.deep_view());
    out
}

/// A message of the conversation: an author and ordered content blocks.
#[derive(Debug, PartialEq, Eq)]
pub struct Message {
    pub role: Role,
    pub content: Vec<MessageContent>,
}

pub ghost struct MessageView {
    pub role: Role,
    pub content: Seq<MessageContentView>,
}

impl DeepView for Message {
    type V = MessageView;

    open spec fn deep_view(&self) -> MessageView {
        MessageView { role: self.role, content: self.content.deep_view() }
    }
}

impl Clone for Message {
    fn clone(&self) -> (r: Self)
        ensures
            r.deep_view() == self.deep_view(),
    {
        Message { role: self.role, content: clone_contents(&self.content) }
    }
}

/// The outcome of a completion: the generated message together with the
/// model that produced it, why it stopped, and what it cost.
#[derive(Debug, PartialEq, Eq)]
pub struct CompletionResponse {
    pub id: String,
    pub model: String,
    pub role: Role,
    pub content: Vec<MessageContent>,
    pub stop_reason: String,
    pub input_tokens: u32,
    pub output_tokens: u32,
}

pub ghost struct CompletionResponseView {
    pub id: Seq<char>,
    pub model: Seq<char>,
    pub role: Role,
    pub content: Seq<MessageContentView>,
    pub stop_reason: Seq<char>,
    pub input_tokens: u32,
    pub output_tokens: u32,
}

impl CompletionResponseView {
    /// The message that a completion carries: its author and its content.
    pub open spec fn message(self) -> MessageView {
        MessageView { role: self.role, content: self.content }
    }
}

impl DeepView for CompletionResponse {
    type V = CompletionResponseView;

    open spec fn deep_view(&self) -> CompletionResponseView {
        CompletionResponseView {
            id: self.id@,
            model: self.model@,
            role: self.role,
            content: self.content.deep_view(),
            stop_reason: self.stop_reason@,
            input_tokens: self.input_tokens,
            output_tokens: self.output_tokens,
        }
    }
}

impl Clone for CompletionResponse {
    fn clone(&self) -> (r: Self)
        ensures
            r.deep_view() == self.deep_view(),
    {
        CompletionResponse {
            id: self.id.clone(),
            model: self.model.clone(),
            role: self.role,
            content: clone_contents(&self.content),
            stop_reason: self.stop_reason.clone(),
            input_tokens: self.input_tokens,
            output_tokens: self.output_tokens,
        }
    }
}

/// The payload of a conversation entry.
#[derive(Debug, PartialEq, Eq)]
pub enum ChatEntry {
    Message(Message),
    Completion(CompletionResponse),
}

pub ghost enum ChatEntryView {
    Message(MessageView),
    Completion(CompletionResponseView),
}

impl ChatEntryView {
    /// The message an entry shows, whichever kind it is.
    pub open spec fn message(self) -> MessageView {
        match self {
            ChatEntryView::Message(m) => m,
            ChatEntryView::Completion(c) => c.message(),
        }
    }
}

impl DeepView for ChatEntry {
    type V = ChatEntryView;

    open spec fn deep_view(&self) -> ChatEntryView {
        match self {
            ChatEntry::Message(m) => ChatEntryView::Message(m.deep_view()),
            ChatEntry::Completion(c) => ChatEntryView::Completion(c.deep_view()),
        }
    }
}

impl Clone for ChatEntry {
    fn clone(&self) -> (r: Self)
        ensures
            r.deep_view() == self.deep_view(),
    {
        match self {
            ChatEntry::Message(m) => ChatEntry::Message(m.clone()),
            ChatEntry::Completion(c) => ChatEntry::Completion(c.clone()),
        }
    }
}

/// An immutable node of the conversation chain.
///
/// `id` is assigned by the server and absent only until the server has
/// acknowledged the entry; `parent_id` names the entry this one was appended
/// after, and is `None` at the chain's origin.
#[derive(Debug, PartialEq, Eq)]
pub struct ChatMessage {
    pub id: Option<String>,
    pub parent_id: Option<String>,
    pub entry: ChatEntry,
}

pub ghost struct ChatMessageView {
    pub id: Option<Seq<char>>,
    pub parent_id: Option<Seq<char>>,
    pub entry: ChatEntryView,
}

impl DeepView for ChatMessage {
    type V = ChatMessageView;

    open spec fn deep_view(&self) -> ChatMessageView {
        ChatMessageView {
            id: self.id.deep_view(),
            parent_id: self.parent_id.deep_view(),
            entry: self.entry.deep_view(),
        }
    }
}

impl Clone for ChatMessage {
    fn clone(&self) -> (r: Self)
        ensures
            r.deep_view() == self.deep_view(),
    {
        ChatMessage {
            id: clone_opt_string(&self.id),
            parent_id: clone_opt_string(&self.parent_id),
            entry: self.entry.clone(),
        }
    }
}

impl ChatMessage {
    /// The entry as a plain message: a message as it is, a completion
    /// reduced to its author and content.
    pub fn as_message(&self) -> (r: Message)
        ensures
            r.deep_view() == self.deep_view().entry.message(),
    {
        match &self.entry {
            ChatEntry::Message(msg) => msg.clone(),
            ChatEntry::Completion(completion) => Message {
                role: completion.role,
                content: clone_contents(&completion.content),
            },
        }
    }

    /// Whether the entry is a completion result.
    pub fn is_completion(&self) -> (r: bool)
        ensures
            r == (self.entry is Completion),
    {
        match &self.entry {
            ChatEntry::Completion(_) => true,
            ChatEntry::Message(_) => false,
        }
    }

    /// The completion result, if the entry is one.
    pub fn as_completion(&self) -> (r: Option<&CompletionResponse>)
        ensures
            match r {
                Some(c) => self.entry == ChatEntry::Completion(*c),
                None => self.entry is Message,
            },
    {
        match &self.entry {
            ChatEntry::Completion(completion) => Some(completion),
            _ => None,
        }
    }
}

/// An error as the conversation actor reports it.
#[derive(Debug, PartialEq, Eq)]
pub struct ErrorInfo {
    pub code: String,
    pub message: String,
    pub details: Option<Vec<(String, String)>>,
}

/// The code by which the actor says that an entry does not exist.
pub const NOT_FOUND_CODE: &'static str = "404";

/// What the conversation actor answers, and what it pushes over a channel.
#[derive(Debug, PartialEq, Eq)]
pub enum ChatStateResponse {
    Head { head: Option<String> },
    History { messages: Vec<ChatMessage> },
    ChatMessage { message: ChatMessage },
    Error { error: ErrorInfo },
    Metadata { conversation_id: String, store_id: String },
    Success,
}

/// What is asked of the conversation actor.
#[derive(Debug, PartialEq, Eq)]
pub enum ChatStateRequest {
    GetHead,
    GetMessage { message_id: String },
    GetHistory,
    GetMetadata,
    AddMessage { message: Message },
    GenerateCompletion,
    UpdateSettings,
}

impl ChatStateRequest {
    /// The tag that names the request on the wire.
    pub open spec fn type_tag_spec(self) -> Seq<char> {
        match self {
            ChatStateRequest::GetHead => "get_head"@,
            ChatStateRequest::GetMessage { .. } => "get_message"@,
            ChatStateRequest::GetHistory => "get_history"@,
            ChatStateRequest::GetMetadata => "get_metadata"@,
            ChatStateRequest::AddMessage { .. } => "add_message"@,
            ChatStateRequest::GenerateCompletion => "generate_completion"@,
            ChatStateRequest::UpdateSettings => "update_settings"@,
        }
    }

    pub fn type_tag(&self) -> (r: &'static str)
        ensures
            r@ == self.type_tag_spec(),
    {
        match self {
            ChatStateRequest::GetHead => "get_head",
            ChatStateRequest::GetMessage { .. } => "get_message",
            ChatStateRequest::GetHistory => "get_history",
            ChatStateRequest::GetMetadata => "get_metadata",
            ChatStateRequest::AddMessage { .. } => "add_message",
            ChatStateRequest::GenerateCompletion => "generate_completion",
            ChatStateRequest::UpdateSettings => "update_settings",
        }
    }

    /// The request that adds a user's text to the conversation.
    pub fn user_message(text: String) -> (r: ChatStateRequest)
        ensures
            r == (ChatStateRequest::AddMessage {
                message: Message { role: Role::User, content: r->message.content },
            }),
            r->message.content.deep_view() == seq![MessageContentView::Text { text: text@ }],
    {
        let mut content: Vec<MessageContent> = Vec::new();
        content.push(MessageContent::Text { text });
        let r = ChatStateRequest::AddMessage { message: Message { role: Role::User, content } };
        assert(r->message.content.deep_view() =~= seq![MessageContentView::Text { text: text@ }]);
        r
    }
}

/// The kinds of response that the server sends over the connection.
#[derive(Debug, Clone, Copy, PartialEq, Eq, Structural)]
pub enum ResponseKind {
    ActorStarted,
    ActorStopped,
    RequestedMessage,
    ChannelOpened,
    ChannelMessage,
    ChannelClosed,
    Error,
    Other,
}

/// A response of the server, reduced to what the client reads of it.
#[derive(Debug, PartialEq, Eq)]
pub enum ServerResponse {
    ActorStarted { id: String },
    ActorStopped,
    RequestedMessage { message: Vec<u8> },
    ChannelOpened { channel_id: String },
    ChannelMessage { channel_id: String, message: Vec<u8> },
    ChannelClosed,
    Error { error: String },
    Other,
}

impl ServerResponse {
    pub open spec fn kind_spec(self) -> ResponseKind {
        match self {
            ServerResponse::ActorStarted { .. } => ResponseKind::ActorStarted,
            ServerResponse::ActorStopped => ResponseKind::ActorStopped,
            ServerResponse::RequestedMessage { .. } => ResponseKind::RequestedMessage,
            ServerResponse::ChannelOpened { .. } => ResponseKind::ChannelOpened,
            ServerResponse::ChannelMessage { .. } => ResponseKind::ChannelMessage,
            ServerResponse::ChannelClosed => ResponseKind::ChannelClosed,
            ServerResponse::Error { .. } => ResponseKind::Error,
            ServerResponse::Other => ResponseKind::Other,
        }
    }

    pub fn kind(&self) -> (r: ResponseKind)
        ensures
            r == self.kind_spec(),
    {
        match self {
            ServerResponse::ActorStarted { .. } => ResponseKind::ActorStarted,
            ServerResponse::ActorStopped => ResponseKind::ActorStopped,
            ServerResponse::RequestedMessage { .. } => ResponseKind::RequestedMessage,
            ServerResponse::ChannelOpened { .. } => ResponseKind::ChannelOpened,
            ServerResponse::ChannelMessage { .. } => ResponseKind::ChannelMessage,
            ServerResponse::ChannelClosed => ResponseKind::ChannelClosed,
            ServerResponse::Error { .. } => ResponseKind::Error,
            ServerResponse::Other => ResponseKind::Other,
        }
    }

    /// Whether the response ends a wait for a response of kind `expected`:
    /// it is of that kind, or it is an error. Anything else is not meant for
    /// the waiting request, and is passed over.
    pub open spec fn settles(self, expected: ResponseKind) -> bool {
        self.kind_spec() == expected || self.kind_spec() == ResponseKind::Error
    }
}

/// What a waiting request does with one response.
#[derive(Debug, Clone, Copy, PartialEq, Eq, Structural)]
pub enum WaitStep {
    /// The response is the awaited one: the wait ends with it.
    Deliver,
    /// The response is an error: the wait fails with it.
    Fail,
    /// The response is something else: it is dropped, and the wait goes on.
    Discard,
}

/// What a request that awaits a response of kind `expected` does with
/// `response`. Every wait of the client decides by this one rule.
pub open spec fn wait_step_spec(expected: ResponseKind, response: ServerResponse) -> WaitStep {
    if response.kind_spec() == expected {
        WaitStep::Deliver
    } else if response.kind_spec() == ResponseKind::Error {
        WaitStep::Fail
    } else {
        WaitStep::Discard
    }
}

pub fn wait_step(expected: ResponseKind, response: &ServerResponse) -> (r: WaitStep)
    ensures
        r == wait_step_spec(expected, *response),
        (r != WaitStep::Discard) == response.settles(expected),
{
    let kind = response.kind();
    if kind == expected {
        WaitStep::Deliver
    } else if kind == ResponseKind::Error {
        WaitStep::Fail
    } else {
        WaitStep::Discard
    }
}

/// `i` is the position of the first response of `stream`, from `from` on,
/// that ends a wait for `expected`.
pub open spec fn first_settling(
    stream: Seq<ServerResponse>,
    expected: ResponseKind,
    from: int,
    i: int,
) -> bool {
    &&& from <= i < stream.len()
    &&& stream[i].settles(expected)
    &&& forall|j: int| from <= j < i ==> !(#[trigger] stream[j]).settles(expected)
}

/// Runs a wait for a response of kind `expected` over responses that have
/// arrived already, starting at position `from`. Returns the position of the
/// response that ends the wait, all responses before it having been passed
/// over; or `None` where none of the responses ends it.
pub fn await_response(stream: &Vec<ServerResponse>, expected: ResponseKind, from: usize) -> (r:
    Option<usize>)
    ensures
        match r {
            Some(i) => first_settling(stream@, expected, from as int, i as int),
            None => forall|j: int| from <= j < stream.len() ==> !(#[trigger] stream@[j]).settles(
                expected,
            ),
        },
{
    let mut i: usize = from;
    while i < stream.len()
        invariant
            from <= i,
            forall|j: int| from <= j < i && j < stream.len() ==> !(#[trigger] stream@[j]).settles(
                expected,
            ),
        decreases stream.len() - i,
    {
        match wait_step(expected, &stream[i]) {
            WaitStep::Discard => {},
            _ => {
                return Some(i);
            },
        }
        i += 1;
    }
    None
}

/// Why an exchange with the server or the actor failed.
#[derive(Debug, PartialEq, Eq)]
pub enum ChatError {
    /// The connection failed: it was refused, it broke, or what it carried
    /// could not be read. The connection is in an unknown state afterwards.
    Transport { detail: String },
    /// The server answered the command with an error.
    Server { error: String },
    /// The actor answered the request with an error.
    Actor { code: String, message: String },
    /// The actor's answer could not be decoded.
    Decode { detail: String },
    /// A response that ended a wait was neither the awaited one nor an
    /// error that can be told.
    UnexpectedReply,
}

/// What a request makes of one answer of the actor.
#[derive(Debug, PartialEq, Eq)]
pub enum Reply<T> {
    /// The answer completes the request with this value.
    Done(T),
    /// The answer fails the request.
    Failed(ChatError),
    /// The answer belongs to something else; the request keeps waiting.
    KeepWaiting,
}

/// The failure that an error response of the server stands for.
pub fn server_failure(response: ServerResponse) -> (r: Option<ChatError>)
    ensures
        r == match response {
            ServerResponse::Error { error } => Some(ChatError::Server { error }),
            _ => None::<ChatError>,
        },
{
    match response {
        ServerResponse::Error { error } => Some(ChatError::Server { error }),
        _ => None,
    }
}

/// The failure that an error of the actor stands for.
pub open spec fn actor_failure(error: ErrorInfo) -> ChatError {
    ChatError::Actor { code: error.code, message: error.message }
}

/// What a request for the head makes of the actor's answer. A head answer
/// completes the request, with no head where there is no conversation yet.
/// An error of the actor fails it, unchanged in kind. An answer of any
/// other kind belongs to something else, and is passed over as at every
/// other wait.
pub open spec fn head_reply_spec(decoded: Result<ChatStateResponse, String>) -> Reply<
    Option<String>,
> {
    match decoded {
        Err(detail) => Reply::Failed(ChatError::Decode { detail }),
        Ok(ChatStateResponse::Head { head }) => Reply::Done(head),
        Ok(ChatStateResponse::Error { error }) => Reply::Failed(actor_failure(error)),
        Ok(_) => Reply::KeepWaiting,
    }
}

pub fn head_reply(decoded: Result<ChatStateResponse, String>) -> (r: Reply<Option<String>>)
    ensures
        r == head_reply_spec(decoded),
{
    match decoded {
        Err(detail) => Reply::Failed(ChatError::Decode { detail }),
        Ok(ChatStateResponse::Head { head }) => Reply::Done(head),
        Ok(ChatStateResponse::Error { error }) => Reply::Failed(
            ChatError::Actor { code: error.code, message: error.message },
        ),
        Ok(_) => Reply::KeepWaiting,
    }
}

/// Every request decides alike on what it does not await: an answer that
/// is neither of the shape the request completes with nor an error is
/// passed over, and an error of the actor fails the request with that
/// error.
pub proof fn lemma_replies_discard_alike(decoded: Result<ChatStateResponse, String>)
    ensures
        decoded matches Ok(ChatStateResponse::Success) ==> {
            &&& head_reply_spec(decoded) == Reply::<Option<String>>::KeepWaiting
            &&& history_reply_spec(decoded) == Reply::<Vec<ChatMessage>>::KeepWaiting
            &&& metadata_reply_spec(decoded) == Reply::<(String, String)>::KeepWaiting
            &&& completion_reply_spec(decoded) == Reply::<String>::KeepWaiting
        },
        decoded matches Ok(ChatStateResponse::ChatMessage { .. }) ==> {
            &&& head_reply_spec(decoded) == Reply::<Option<String>>::KeepWaiting
            &&& history_reply_spec(decoded) == Reply::<Vec<ChatMessage>>::KeepWaiting
            &&& metadata_reply_spec(decoded) == Reply::<(String, String)>::KeepWaiting
            &&& completion_reply_spec(decoded) == Reply::<String>::KeepWaiting
        },
        decoded matches Ok(ChatStateResponse::Error { error }) ==> {
            &&& head_reply_spec(decoded) == Reply::<Option<String>>::Failed(actor_failure(error))
            &&& history_reply_spec(decoded) == Reply::<Vec<ChatMessage>>::Failed(
                actor_failure(error),
            )
            &&& metadata_reply_spec(decoded) == Reply::<(String, String)>::Failed(
                actor_failure(error),
            )
            &&& completion_reply_spec(decoded) == Reply::<String>::Failed(actor_failure(error))
        },
{
}

/// What a request for the whole history makes of the actor's answer.
pub open spec fn history_reply_spec(decoded: Result<ChatStateResponse, String>) -> Reply<
    Vec<ChatMessage>,
> {
    match decoded {
        Err(detail) => Reply::Failed(ChatError::Decode { detail }),
        Ok(ChatStateResponse::History { messages }) => Reply::Done(messages),
        Ok(ChatStateResponse::Error { error }) => Reply::Failed(actor_failure(error)),
        Ok(_) => Reply::KeepWaiting,
    }
}

pub fn history_reply(decoded: Result<ChatStateResponse, String>) -> (r: Reply<Vec<ChatMessage>>)
    ensures
        r == history_reply_spec(decoded),
{
    match decoded {
        Err(detail) => Reply::Failed(ChatError::Decode { detail }),
        Ok(ChatStateResponse::History { messages }) => Reply::Done(messages),
        Ok(ChatStateResponse::Error { error }) => Reply::Failed(
            ChatError::Actor { code: error.code, message: error.message },
        ),
        Ok(_) => Reply::KeepWaiting,
    }
}

/// What a request for the conversation's identity makes of the actor's
/// answer: the conversation id and the store id.
pub open spec fn metadata_reply_spec(decoded: Result<ChatStateResponse, String>) -> Reply<
    (String, String),
> {
    match decoded {
        Err(detail) => Reply::Failed(ChatError::Decode { detail }),
        Ok(ChatStateResponse::Metadata { conversation_id, store_id }) => Reply::Done(
            (conversation_id, store_id),
        ),
        Ok(ChatStateResponse::Error { error }) => Reply::Failed(actor_failure(error)),
        Ok(_) => Reply::KeepWaiting,
    }
}

pub fn metadata_reply(decoded: Result<ChatStateResponse, String>) -> (r: Reply<(String, String)>)
    ensures
        r == metadata_reply_spec(decoded),
{
    match decoded {
        Err(detail) => Reply::Failed(ChatError::Decode { detail }),
        Ok(ChatStateResponse::Metadata { conversation_id, store_id }) => Reply::Done(
            (conversation_id, store_id),
        ),
        Ok(ChatStateResponse::Error { error }) => Reply::Failed(
            ChatError::Actor { code: error.code, message: error.message },
        ),
        Ok(_) => Reply::KeepWaiting,
    }
}

/// What a request for a completion makes of the actor's answer: the new head
/// once the actor names one.
pub open spec fn completion_reply_spec(decoded: Result<ChatStateResponse, String>) -> Reply<
    String,
> {
    match decoded {
        Err(detail) => Reply::Failed(ChatError::Decode { detail }),
        Ok(ChatStateResponse::Head { head: Some(new_head) }) => Reply::Done(new_head),
        Ok(ChatStateResponse::Error { error }) => Reply::Failed(actor_failure(error)),
        Ok(_) => Reply::KeepWaiting,
    }
}

pub fn completion_reply(decoded: Result<ChatStateResponse, String>) -> (r: Reply<String>)
    ensures
        r == completion_reply_spec(decoded),
{
    match decoded {
        Err(detail) => Reply::Failed(ChatError::Decode { detail }),
        Ok(ChatStateResponse::Head { head: Some(new_head) }) => Reply::Done(new_head),
        Ok(ChatStateResponse::Error { error }) => Reply::Failed(
            ChatError::Actor { code: error.code, message: error.message },
        ),
        Ok(_) => Reply::KeepWaiting,
    }
}

/// The state an actor is started with.
#[derive(Debug, PartialEq, Eq)]
pub enum InitialState {
    /// A new conversation.
    Fresh,
    /// The conversation of an earlier session, by its store and its id.
    Resume { store_id: String, conversation_id: String },
}

/// The state to start the actor with: that of the earlier session where
/// there is one, else a fresh one.
pub fn initial_state_for(session: Option<&crate::persistence::SessionData>) -> (r: InitialState)
    ensures
        match session {
            Some(data) => r matches InitialState::Resume { store_id, conversation_id }
                && store_id@ == data.store_id@ && conversation_id@ == data.conversation_id@,
            None => r == InitialState::Fresh,
        },
{
    match session {
        Some(data) => InitialState::Resume {
            store_id: data.store_id.clone(),
            conversation_id: data.conversation_id.clone(),
        },
        None => InitialState::Fresh,
    }
}

/// How stopping the actor went.
#[derive(Debug, PartialEq, Eq)]
pub enum StopOutcome {
    /// The server confirmed that the actor has stopped.
    Stopped,
    /// The stop command could not be sent.
    SendFailed { detail: String },
    /// The server answered with an error, or the connection failed.
    Failed { detail: String },
    /// No confirmation arrived in time.
    TimedOut,
}

/// Seconds to wait for the server to confirm that the actor has stopped.
pub const STOP_TIMEOUT_SECS: u64 = 5;

/// What to tell the user about how stopping the actor went, if anything.
/// Cleaning up never fails: whatever went wrong is reported as a warning,
/// and shutting down goes on.
pub fn cleanup_report(outcome: &StopOutcome, debug: bool) -> (r: Option<String>)
    ensures
        match *outcome {
            StopOutcome::Stopped => if debug {
                r is Some && r.unwrap()@ == "Actor stopped successfully"@
            } else {
                r is None
            },
            StopOutcome::SendFailed { detail } => r is Some && r.unwrap()@
                == "Warning: Failed to send stop actor command: "@ + detail@,
            StopOutcome::Failed { detail } => r is Some && r.unwrap()@
                == "Warning: Error during actor cleanup: "@ + detail@,
            StopOutcome::TimedOut => r is Some && r.unwrap()@ == "Warning: Actor cleanup timed out"@,
        },
{
    match outcome {
        StopOutcome::Stopped => {
            if debug {
                Some("Actor stopped successfully".to_owned())
            } else {
                None
            }
        },
        StopOutcome::SendFailed { detail } => {
            let mut text = "Warning: Failed to send stop actor command: ".to_owned();
            text.append(detail.as_str());
            Some(text)
        },
        StopOutcome::Failed { detail } => {
            let mut text = "Warning: Error during actor cleanup: ".to_owned();
            text.append(detail.as_str());
            Some(text)
        },
        StopOutcome::TimedOut => Some("Warning: Actor cleanup timed out".to_owned()),
    }
}

/// What the steady-state loop does with a response that arrives on the
/// push channel.
#[derive(Debug, Clone, Copy, PartialEq, Eq, Structural)]
pub enum ChannelStep {
    /// The response carries a push of the actor: process its payload.
    Process,
    /// The channel has been opened: nothing to do.
    Ignore,
    /// The channel is closed, or the response has no place on it: leave the
    /// loop.
    Stop,
}

pub open spec fn channel_step_spec(response: ServerResponse) -> ChannelStep {
    match response {
        ServerResponse::ChannelMessage { .. } => ChannelStep::Process,
        ServerResponse::ChannelOpened { .. } => ChannelStep::Ignore,
        _ => ChannelStep::Stop,
    }
}

pub fn channel_step(response: &ServerResponse) -> (r: ChannelStep)
    ensures
        r == channel_step_spec(*response),
{
    match response {
        ServerResponse::ChannelMessage { .. } => ChannelStep::Process,
        ServerResponse::ChannelOpened { .. } => ChannelStep::Ignore,
        _ => ChannelStep::Stop,
    }
}

} // verus!
