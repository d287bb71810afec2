//! Domain model types shared across the library: messages, sessions, settings
//! and the payloads exchanged with an LLM.

use vstd::prelude::*;
use vstd::string::*;

use crate::attach::{copy_files, files_view, AttachedFile, AttachedFileView};
use crate::compat_provider::LlmProvider;
use crate::compat_resilience::ToolResultFormat;
use crate::json_model::{empty_object, group_json, json_seq, Json, JsonView};
use crate::startup::Config;
use crate::text::opt_view;

verus! {

broadcast use group_json;

// ---------------------------------------------------------------------------
// Tool calls
// ---------------------------------------------------------------------------

/// The function that a tool call names, with its arguments.
#[derive(Debug, PartialEq, Eq)]
pub struct FunctionCall {
    pub name: String,
    pub arguments: Json,
}

/// A tool call requested by the model.
#[derive(Debug, PartialEq, Eq)]
pub struct ToolCall {
    pub id: String,
    pub tool_type: String,
    pub function: FunctionCall,
    pub thought_signature: Option<String>,
}

/// What a tool call is.
#[verifier::ext_equal]
pub struct ToolCallView {
    pub id: Seq<char>,
    pub tool_type: Seq<char>,
    pub name: Seq<char>,
    pub arguments: JsonView,
    pub thought_signature: Option<Seq<char>>,
}

impl View for ToolCall {
    type V = ToolCallView;

    open spec fn view(&self) -> ToolCallView {
        ToolCallView {
            id: self.id@,
            tool_type: self.tool_type@,
            name: self.function.name@,
            arguments: self.function.arguments@,
            thought_signature: opt_view(self.thought_signature),
        }
    }
}

/// The contents of a list of tool calls.
pub open spec fn calls_view(v: Seq<ToolCall>) -> Seq<ToolCallView> {
    v.map_values(|c: ToolCall| c@)
}

/// The contents of an optional list of tool calls.
pub open spec fn opt_calls_view(o: Option<Vec<ToolCall>>) -> Option<Seq<ToolCallView>> {
    match o {
        Some(v) => Some(calls_view(v@)),
        None => None,
    }
}

/// An optional string with the same contents.
pub fn copy_text(o: &Option<String>) -> (r: Option<String>)
    ensures
        opt_view(r) == opt_view(*o),
{
    match o {
        Some(s) => Some(s.clone()),
        None => None,
    }
}

impl ToolCall {
    /// A call with the same contents.
    pub fn copy(&self) -> (r: ToolCall)
        ensures
            r@ == self@,
    {
        ToolCall {
            id: self.id.clone(),
            tool_type: self.tool_type.clone(),
            function: FunctionCall {
                name: self.function.name.clone(),
                arguments: self.function.arguments.copy(),
            },
            thought_signature: copy_text(&self.thought_signature),
        }
    }
}

/// A list with the same contents.
pub fn copy_calls(calls: &Vec<ToolCall>) -> (r: Vec<ToolCall>)
    ensures
        calls_view(r@) == calls_view(calls@),
{
    let mut out: Vec<ToolCall> = Vec::new();
    let mut i: usize = 0;
    while i < calls.len()
        invariant
            i <= calls@.len(),
            out@.len() == i,
            forall|k: int| 0 <= k < i ==> #[trigger] out@[k]@ == calls@[k]@,
        decreases calls@.len() - i,
    {
        out.push(calls[i].copy());
        i = i + 1;
    }
    proof {
        assert(calls_view(out@) =~= calls_view(calls@));
    }
    out
}

/// How a tool call came to run, or not.
#[derive(Debug, Clone, Copy, PartialEq, Eq, Structural)]
pub enum ToolRunDecisionKind {
    UserConfirm,
    AutoConfirm,
    UserCancel,
    SystemError,
}

/// The decision taken on a tool call.
#[derive(Debug, PartialEq, Eq)]
pub struct ToolRunDecision {
    pub proceed: bool,
    pub kind: ToolRunDecisionKind,
    pub reason: Option<String>,
}

/// What a decision is.
pub struct DecisionView {
    pub proceed: bool,
    pub kind: ToolRunDecisionKind,
    pub reason: Option<Seq<char>>,
}

impl View for ToolRunDecision {
    type V = DecisionView;

    open spec fn view(&self) -> DecisionView {
        DecisionView { proceed: self.proceed, kind: self.kind, reason: opt_view(self.reason) }
    }
}

/// The contents of an optional decision.
pub open spec fn opt_decision(o: Option<ToolRunDecision>) -> Option<DecisionView> {
    match o {
        Some(d) => Some(d@),
        None => None,
    }
}

impl ToolRunDecision {
    /// A decision with the same contents.
    pub fn copy(&self) -> (r: ToolRunDecision)
        ensures
            r@ == self@,
    {
        ToolRunDecision {
            proceed: self.proceed,
            kind: self.kind,
            reason: copy_text(&self.reason),
        }
    }
}

// ---------------------------------------------------------------------------
// Messages
// ---------------------------------------------------------------------------

/// One message of a conversation.
#[derive(Debug, PartialEq, Eq)]
pub struct Message {
    pub role: String,
    pub content: String,
    pub reasoning_content: Option<String>,
    pub tool_calls: Option<Vec<ToolCall>>,
    pub tool_call_id: Option<String>,
    /// The tool that produced this message; never sent as such.
    pub tool_name: Option<String>,
    /// Seconds since the Unix epoch.
    pub timestamp: i64,
    pub model: Option<String>,
    pub tool_call_decision: Option<ToolRunDecision>,
    pub attached_files: Vec<AttachedFile>,
    /// The session that the message belongs to; never sent.
    pub session_id: String,
}

/// What a message is.
#[verifier::ext_equal]
pub struct MessageView {
    pub role: Seq<char>,
    pub content: Seq<char>,
    pub reasoning_content: Option<Seq<char>>,
    pub tool_calls: Option<Seq<ToolCallView>>,
    pub tool_call_id: Option<Seq<char>>,
    pub tool_name: Option<Seq<char>>,
    pub timestamp: i64,
    pub model: Option<Seq<char>>,
    pub tool_call_decision: Option<DecisionView>,
    pub attached_files: Seq<AttachedFileView>,
    pub session_id: Seq<char>,
}

impl View for Message {
    type V = MessageView;

    open spec fn view(&self) -> MessageView {
        MessageView {
            role: self.role@,
            content: self.content@,
            reasoning_content: opt_view(self.reasoning_content),
            tool_calls: opt_calls_view(self.tool_calls),
            tool_call_id: opt_view(self.tool_call_id),
            tool_name: opt_view(self.tool_name),
            timestamp: self.timestamp,
            model: opt_view(self.model),
            tool_call_decision: opt_decision(self.tool_call_decision),
            attached_files: files_view(self.attached_files@),
            session_id: self.session_id@,
        }
    }
}

/// The contents of a list of messages.
pub open spec fn messages_view(v: Seq<Message>) -> Seq<MessageView> {
    v.map_values(|m: Message| m@)
}

pub proof fn lemma_messages_push(v: Seq<Message>, m: Message)
    ensures
        messages_view(v.push(m)) == messages_view(v).push(m@),
{
    assert(messages_view(v.push(m)) =~= messages_view(v).push(m@));
}

/// A message that holds nothing but a role, a content and a time.
pub open spec fn plain_message(role: Seq<char>, content: Seq<char>, timestamp: i64) -> MessageView {
    MessageView {
        role,
        content,
        reasoning_content: None,
        tool_calls: None,
        tool_call_id: None,
        tool_name: None,
        timestamp,
        model: None,
        tool_call_decision: None,
        attached_files: Seq::empty(),
        session_id: Seq::empty(),
    }
}

/// `chrono::Utc::now().timestamp()`: the seconds since the Unix epoch, of which
/// nothing is known in advance.
#[verifier::external_body]
pub(crate) fn now_seconds() -> (r: i64) {
    chrono::Utc::now().timestamp()
}

impl Message {
    /// A message that holds nothing but a role, a content and a time.
    pub fn plain(role: &str, content: &str, timestamp: i64) -> (r: Message)
        ensures
            r@ == plain_message(role@, content@, timestamp),
    {
        let files: Vec<AttachedFile> = Vec::new();
        proof {
            assert(files_view(files@) =~= Seq::<AttachedFileView>::empty());
        }
        Message {
            role: role.to_owned(),
            content: content.to_owned(),
            reasoning_content: None,
            tool_calls: None,
            tool_call_id: None,
            tool_name: None,
            timestamp,
            model: None,
            tool_call_decision: None,
            attached_files: files,
            session_id: String::new(),
        }
    }

    /// A message with the same contents.
    pub fn copy(&self) -> (r: Message)
        ensures
            r@ == self@,
    {
        Message {
            role: self.role.clone(),
            content: self.content.clone(),
            reasoning_content: copy_text(&self.reasoning_content),
            tool_calls: match &self.tool_calls {
                Some(v) => Some(copy_calls(v)),
                None => None,
            },
            tool_call_id: copy_text(&self.tool_call_id),
            tool_name: copy_text(&self.tool_name),
            timestamp: self.timestamp,
            model: copy_text(&self.model),
            tool_call_decision: match &self.tool_call_decision {
                Some(d) => Some(d.copy()),
                None => None,
            },
            attached_files: copy_files(&self.attached_files),
            session_id: self.session_id.clone(),
        }
    }
}

impl Default for Message {
    /// An empty message of the present time.
    fn default() -> (r: Message)
        ensures
            r@ == plain_message(Seq::empty(), Seq::empty(), r.timestamp),
    {
        let mut m = Message::plain("", "", now_seconds());
        m.role = String::new();
        m.content = String::new();
        m
    }
}

/// A list with the same contents.
pub fn copy_messages(messages: &Vec<Message>) -> (r: Vec<Message>)
    ensures
        messages_view(r@) == messages_view(messages@),
{
    let mut out: Vec<Message> = Vec::new();
    let mut i: usize = 0;
    while i < messages.len()
        invariant
            i <= messages@.len(),
            out@.len() == i,
            forall|k: int| 0 <= k < i ==> #[trigger] out@[k]@ == messages@[k]@,
        decreases messages@.len() - i,
    {
        out.push(messages[i].copy());
        i = i + 1;
    }
    proof {
        assert(messages_view(out@) =~= messages_view(messages@));
    }
    out
}

// ---------------------------------------------------------------------------
// Messages as JSON
// ---------------------------------------------------------------------------

/// The JSON form of a tool call.
pub open spec fn call_json(c: ToolCallView) -> JsonView {
    let base = empty_object().with("id"@, JsonView::Str(c.id)).with(
        "type"@,
        JsonView::Str(c.tool_type),
    ).with(
        "function"@,
        empty_object().with("name"@, JsonView::Str(c.name)).with("arguments"@, c.arguments),
    );
    match c.thought_signature {
        Some(s) => base.with("thought_signature"@, JsonView::Str(s)),
        None => base,
    }
}

pub fn call_to_json(c: &ToolCall) -> (r: Json)
    ensures
        r@ == call_json(c@),
{
    let function = Json::object().with("name", Json::text(c.function.name.as_str())).with(
        "arguments",
        c.function.arguments.copy(),
    );
    let base = Json::object().with("id", Json::text(c.id.as_str())).with(
        "type",
        Json::text(c.tool_type.as_str()),
    ).with("function", function);
    match &c.thought_signature {
        Some(s) => base.with("thought_signature", Json::text(s.as_str())),
        None => base,
    }
}

/// The JSON form of a list of tool calls.
pub open spec fn calls_json(calls: Seq<ToolCallView>) -> Seq<JsonView> {
    calls.map_values(|c: ToolCallView| call_json(c))
}

/// An object with a text member where there is a text.
pub open spec fn with_text(j: JsonView, key: Seq<char>, o: Option<Seq<char>>) -> JsonView {
    match o {
        Some(s) => j.with(key, JsonView::Str(s)),
        None => j,
    }
}

/// The JSON form of a message: what is absent is left out, and so is what is
/// never sent.
pub open spec fn message_json(m: MessageView) -> JsonView {
    let a = empty_object().with("role"@, JsonView::Str(m.role)).with(
        "content"@,
        JsonView::Str(m.content),
    );
    let b = with_text(a, "reasoning_content"@, m.reasoning_content);
    let c = match m.tool_calls {
        Some(calls) => b.with("tool_calls"@, JsonView::Array(calls_json(calls))),
        None => b,
    };
    with_text(c, "tool_call_id"@, m.tool_call_id)
}

fn add_text(j: Json, key: &str, o: &Option<String>) -> (r: Json)
    ensures
        r@ == with_text(j@, key@, opt_view(*o)),
{
    match o {
        Some(s) => j.with(key, Json::text(s.as_str())),
        None => j,
    }
}

pub fn message_to_json(m: &Message) -> (r: Json)
    ensures
        r@ == message_json(m@),
{
    let a = Json::object().with("role", Json::text(m.role.as_str())).with(
        "content",
        Json::text(m.content.as_str()),
    );
    let b = add_text(a, "reasoning_content", &m.reasoning_content);
    let c = match &m.tool_calls {
        Some(calls) => {
            let mut list: Vec<Json> = Vec::new();
            let mut i: usize = 0;
            while i < calls.len()
                invariant
                    i <= calls@.len(),
                    list@.len() == i,
                    forall|k: int| 0 <= k < i ==> #[trigger] list@[k]@ == call_json(calls@[k]@),
                decreases calls@.len() - i,
            {
                list.push(call_to_json(&calls[i]));
                i = i + 1;
            }
            proof {
                assert(json_seq(list@) =~= calls_json(calls_view(calls@)));
            }
            b.with("tool_calls", Json::Array(list))
        },
        None => b,
    };
    add_text(c, "tool_call_id", &m.tool_call_id)
}

// ---------------------------------------------------------------------------
// Sessions
// ---------------------------------------------------------------------------

/// Append-only conversation state.
#[derive(Debug, PartialEq, Eq)]
pub struct Session {
    /// Session identifier, stamped on every message.
    pub id: String,
    pub label: String,
    pub messages: Vec<Message>,
    pub turn: i32,
}

/// What a session is.
#[verifier::ext_equal]
pub struct SessionView {
    pub id: Seq<char>,
    pub label: Seq<char>,
    pub messages: Seq<MessageView>,
    pub turn: i32,
}

impl View for Session {
    type V = SessionView;

    open spec fn view(&self) -> SessionView {
        SessionView {
            id: self.id@,
            label: self.label@,
            messages: messages_view(self.messages@),
            turn: self.turn,
        }
    }
}

/// Whether a character is a digit of a hexadecimal number in small letters.
pub open spec fn is_hex_digit(c: char) -> bool {
    ('0' <= c && c <= '9') || ('a' <= c && c <= 'f')
}

/// Whether a text is a random identifier: 32 hexadecimal digits in five groups,
/// the third of which starts with the version, 4.
pub open spec fn is_uuid(s: Seq<char>) -> bool {
    &&& s.len() == 36
    &&& s[14] == '4'
    &&& forall|i: int|
        0 <= i < 36 ==> if i == 8 || i == 13 || i == 18 || i == 23 {
            #[trigger] s[i] == '-'
        } else {
            is_hex_digit(s[i])
        }
}

/// `uuid::Uuid::new_v4().to_string()`: a random identifier, written with hyphens
/// and small letters.
#[verifier::external_body]
pub(crate) fn new_uuid() -> (r: String)
    ensures
        is_uuid(r@),
{
    uuid::Uuid::new_v4().to_string()
}

/// A message stamped with a session identifier.
pub open spec fn stamped(m: MessageView, id: Seq<char>) -> MessageView {
    MessageView { session_id: id, ..m }
}

impl Session {
    /// A session of the given identifier that starts at turn 1 with the system
    /// message.
    pub fn with_id(id: String, label: String, system_message: Message) -> (r: Session)
        ensures
            r@ == (SessionView {
                id: id@,
                label: label@,
                messages: seq![stamped(system_message@, id@)],
                turn: 1,
            }),
    {
        let mut first = system_message;
        first.session_id = id.clone();
        let ghost fv = first@;
        let mut messages: Vec<Message> = Vec::new();
        messages.push(first);
        proof {
            assert(messages_view(messages@) =~= seq![fv]);
            assert(fv == stamped(system_message@, id@));
        }
        Session { id, label, messages, turn: 1 }
    }

    /// A session of a new identifier that starts at turn 1 with the system
    /// message.
    pub fn new(label: String, system_message: Message) -> (r: Session)
        ensures
            is_uuid(r.id@),
            r@ == (SessionView {
                id: r.id@,
                label: label@,
                messages: seq![stamped(system_message@, r.id@)],
                turn: 1,
            }),
    {
        Session::with_id(new_uuid(), label, system_message)
    }

    /// Appends a message stamped with the identifier of this session.
    pub fn push_message(&mut self, msg: Message)
        ensures
            final(self)@ == (SessionView {
                messages: old(self)@.messages.push(stamped(msg@, old(self)@.id)),
                ..old(self)@
            }),
    {
        let mut m = msg;
        m.session_id = self.id.clone();
        proof {
            lemma_messages_push(self.messages@, m);
        }
        self.messages.push(m);
    }
}

// ---------------------------------------------------------------------------
// Settings
// ---------------------------------------------------------------------------

/// Runtime settings that slash commands change.
#[derive(Debug, PartialEq, Eq)]
pub struct Settings {
    pub llm_model: String,
    pub verbose_level: u8,
    pub pretty_level: u8,
    pub llm_rpm: u32,
    pub max_output_tokens: u32,
    pub max_reasoning_empty_responses: u32,
    /// Number of messages right after the last assistant message, which drives
    /// the incremental display of requests.
    pub last_sent_count: usize,
}

/// What the settings are.
pub struct SettingsView {
    pub llm_model: Seq<char>,
    pub verbose_level: u8,
    pub pretty_level: u8,
    pub llm_rpm: u32,
    pub max_output_tokens: u32,
    pub max_reasoning_empty_responses: u32,
    pub last_sent_count: usize,
}

impl View for Settings {
    type V = SettingsView;

    open spec fn view(&self) -> SettingsView {
        SettingsView {
            llm_model: self.llm_model@,
            verbose_level: self.verbose_level,
            pretty_level: self.pretty_level,
            llm_rpm: self.llm_rpm,
            max_output_tokens: self.max_output_tokens,
            max_reasoning_empty_responses: self.max_reasoning_empty_responses,
            last_sent_count: self.last_sent_count,
        }
    }
}

impl Settings {
    /// The runtime settings that a configuration starts with.
    pub fn from_config(config: &Config) -> (r: Settings)
        ensures
            r@ == (SettingsView {
                llm_model: config.llm_model@,
                verbose_level: config.verbose_level,
                pretty_level: config.pretty_level,
                llm_rpm: config.llm_rpm,
                max_output_tokens: config.max_output_tokens,
                max_reasoning_empty_responses: config.max_reasoning_empty_responses,
                last_sent_count: 0,
            }),
    {
        Settings {
            llm_model: config.llm_model.clone(),
            verbose_level: config.verbose_level,
            pretty_level: config.pretty_level,
            llm_rpm: config.llm_rpm,
            max_output_tokens: config.max_output_tokens,
            max_reasoning_empty_responses: config.max_reasoning_empty_responses,
            last_sent_count: 0,
        }
    }
}

// ---------------------------------------------------------------------------
// Requests and usage
// ---------------------------------------------------------------------------

/// A request to an LLM, before it takes the shape of a provider.
#[derive(Debug, PartialEq, Eq)]
pub struct ChatRequest {
    pub provider: LlmProvider,
    pub model: String,
    pub max_output_tokens: usize,
    pub tools: Vec<Json>,
    pub stream: bool,
    pub messages: Vec<Message>,
    pub tool_result_format: ToolResultFormat,
    /// Use `max_tokens` in place of `max_completion_tokens`, for legacy models.
    pub max_tokens_fallback: bool,
}

/// Breakdown of the prompt tokens.
#[derive(Debug, Clone, Copy, PartialEq, Eq, Structural)]
pub struct PromptTokensDetails {
    pub cached_tokens: u32,
    /// Tokens written to the cache by this request.
    pub cache_creation_tokens: u32,
    pub audio_tokens: u32,
}

/// Breakdown of the completion tokens.
#[derive(Debug, Clone, Copy, PartialEq, Eq, Structural)]
pub struct CompletionTokensDetails {
    pub reasoning_tokens: u32,
}

/// Token usage of one call.
#[derive(Debug, Clone, Copy, PartialEq, Eq, Structural)]
pub struct Usage {
    pub prompt_tokens: u32,
    pub completion_tokens: u32,
    pub prompt_tokens_details: Option<PromptTokensDetails>,
    pub completion_tokens_details: Option<CompletionTokensDetails>,
}

/// No usage at all.
pub open spec fn no_usage() -> Usage {
    Usage {
        prompt_tokens: 0,
        completion_tokens: 0,
        prompt_tokens_details: None,
        completion_tokens_details: None,
    }
}

impl Default for Usage {
    fn default() -> (r: Usage)
        ensures
            r == no_usage(),
    {
        Usage {
            prompt_tokens: 0,
            completion_tokens: 0,
            prompt_tokens_details: None,
            completion_tokens_details: None,
        }
    }
}

} // verus!
