//! The basic provider layer: plain conversations, without attachments or
//! reformatted tool results.

use vstd::prelude::*;
use vstd::string::*;

use crate::compat_provider::{
    add_list, add_opt_text, arguments_payload, copy_tools, delta_payload, event_index, find_system,
    get_event_index, get_inner, get_str, inner, make_arguments, make_delta, make_start, role_item,
    str_in, system_content, with_list,
};
use crate::compat_resilience::opt_owned;
use crate::json_model::{empty_object, group_json, json_seq, lemma_json_seq_push, Json, JsonView};
use crate::model::{message_json, message_to_json, messages_view, with_text, Message, MessageView};
use crate::text::{
    ascii_lower, ascii_upper, contains, lemma_case_forgotten, opt_is, text_contains, to_ascii_lower,
};

verus! {

broadcast use group_json;

/// The provider of an LLM API.
#[derive(Debug, Clone, Copy, PartialEq, Eq, Structural)]
pub enum LlmProvider {
    OpenAi,
    OpenAiCompatible,
    Ollama,
    Anthropic,
}

/// The name of a provider.
pub open spec fn provider_name(p: LlmProvider) -> Seq<char> {
    match p {
        LlmProvider::OpenAi => "openai"@,
        LlmProvider::OpenAiCompatible => "openai-compatible"@,
        LlmProvider::Ollama => "ollama"@,
        LlmProvider::Anthropic => "anthropic"@,
    }
}

impl LlmProvider {
    /// The name of the provider.
    pub fn name(&self) -> (r: &'static str)
        ensures
            r@ == provider_name(*self),
    {
        match self {
            LlmProvider::OpenAi => "openai",
            LlmProvider::OpenAiCompatible => "openai-compatible",
            LlmProvider::Ollama => "ollama",
            LlmProvider::Anthropic => "anthropic",
        }
    }
}

/// The provider of an URL given in lower case.
pub open spec fn provider_of(lower: Seq<char>) -> LlmProvider {
    if text_contains(lower, "api.anthropic.com"@) || text_contains(lower, "/v1/messages"@) {
        LlmProvider::Anthropic
    } else if text_contains(lower, "/api/chat"@) || text_contains(lower, ":11434"@) {
        LlmProvider::Ollama
    } else if text_contains(lower, "api.openai.com"@) {
        LlmProvider::OpenAi
    } else {
        LlmProvider::OpenAiCompatible
    }
}

/// Detects the provider of an URL given in lower case.
pub fn detect_lowered(lower: &str) -> (r: LlmProvider)
    ensures
        r == provider_of(lower@),
{
    if contains(lower, "api.anthropic.com") || contains(lower, "/v1/messages") {
        LlmProvider::Anthropic
    } else if contains(lower, "/api/chat") || contains(lower, ":11434") {
        LlmProvider::Ollama
    } else if contains(lower, "api.openai.com") {
        LlmProvider::OpenAi
    } else {
        LlmProvider::OpenAiCompatible
    }
}

/// Detects the provider from an URL, whatever its case.
pub fn detect_provider(url: &str) -> (r: LlmProvider)
    ensures
        r == provider_of(ascii_lower(url@)),
{
    let lower = to_ascii_lower(url);
    detect_lowered(lower.as_str())
}

/// The case of an URL does not decide its provider.
pub proof fn provider_ignores_case(url: Seq<char>)
    ensures
        provider_of(ascii_lower(ascii_upper(url))) == provider_of(ascii_lower(url)),
{
    lemma_case_forgotten(url);
}

// ---------------------------------------------------------------------------
// Requests
// ---------------------------------------------------------------------------

/// A request to an LLM, before it takes the shape of a provider.
#[derive(Debug, PartialEq, Eq)]
pub struct ChatRequest {
    pub provider: LlmProvider,
    pub model: String,
    pub max_output_tokens: usize,
    pub tools: Vec<Json>,
    pub stream: bool,
    pub messages: Vec<Message>,
}

/// A tool definition in the form of Anthropic.
pub open spec fn anthropic_tool(t: JsonView) -> Option<JsonView> {
    match t.get("function"@) {
        None => None,
        Some(func) => match (
            func.str_at("name"@),
            func.str_at("description"@),
            func.get("parameters"@),
        ) {
            (Some(name), Some(description), Some(p)) => Some(
                empty_object().with("name"@, JsonView::Str(name)).with(
                    "description"@,
                    JsonView::Str(description),
                ).with("input_schema"@, p),
            ),
            _ => None,
        },
    }
}

/// The definitions, among the first `n`, that have the form of Anthropic.
pub open spec fn anthropic_tools(tools: Seq<JsonView>, n: int) -> Seq<JsonView>
    decreases n,
{
    if n <= 0 {
        Seq::empty()
    } else {
        match anthropic_tool(tools[n - 1]) {
            Some(t) => anthropic_tools(tools, n - 1).push(t),
            None => anthropic_tools(tools, n - 1),
        }
    }
}

fn make_anthropic_tool(t: &Json) -> (r: Option<Json>)
    ensures
        opt_owned(r) == anthropic_tool(t@),
{
    match t.get("function") {
        None => None,
        Some(func) => match (
            func.str_at("name"),
            func.str_at("description"),
            func.get("parameters"),
        ) {
            (Some(name), Some(description), Some(p)) => Some(
                Json::object().with("name", Json::text(name)).with(
                    "description",
                    Json::text(description),
                ).with("input_schema", p.copy()),
            ),
            _ => None,
        },
    }
}

/// Converts tool definitions to the form of Anthropic; those without a name, a
/// description or parameters are left out.
pub fn convert_tools_to_anthropic(tools: &Vec<Json>) -> (r: Vec<Json>)
    ensures
        json_seq(r@) == anthropic_tools(json_seq(tools@), tools@.len() as int),
{
    let mut out: Vec<Json> = Vec::new();
    let mut i: usize = 0;
    proof {
        assert(json_seq(out@) =~= Seq::<JsonView>::empty());
    }
    while i < tools.len()
        invariant
            i <= tools@.len(),
            json_seq(out@) == anthropic_tools(json_seq(tools@), i as int),
        decreases tools@.len() - i,
    {
        match make_anthropic_tool(&tools[i]) {
            Some(t) => {
                proof {
                    lemma_json_seq_push(out@, t);
                }
                out.push(t);
            },
            None => {},
        }
        i = i + 1;
    }
    out
}

/// A message in the form of Anthropic: a tool result becomes a user message.
pub open spec fn anthropic_message(msg: JsonView) -> JsonView {
    if msg.str_at("role"@) == Some("tool"@) {
        role_item(
            "user"@,
            seq![
                empty_object().with("type"@, JsonView::Str("tool_result"@)).with(
                    "tool_use_id"@,
                    JsonView::Str(str_in(msg, "tool_call_id"@, ""@)),
                ).with(
                    "content"@,
                    match msg.get("content"@) {
                        Some(c) => c,
                        None => JsonView::Str(""@),
                    },
                ),
            ],
        )
    } else {
        msg
    }
}

/// Converts a message to the form of Anthropic.
pub fn convert_message_for_anthropic(msg: &Json) -> (r: Json)
    ensures
        r@ == anthropic_message(msg@),
{
    if opt_is(msg.str_at("role"), "tool") {
        let content = match msg.get("content") {
            Some(c) => c.copy(),
            None => Json::text(""),
        };
        let b = Json::object().with("type", Json::text("tool_result")).with(
            "tool_use_id",
            Json::text(get_str(msg, "tool_call_id", "")),
        ).with("content", content);
        Json::object().with("role", Json::text("user")).with("content", Json::list1(b))
    } else {
        msg.copy()
    }
}

/// The messages, among the first `n`, that are no system messages, in the form
/// of Anthropic.
pub open spec fn anthropic_upto(messages: Seq<JsonView>, n: int) -> Seq<JsonView>
    decreases n,
{
    if n <= 0 {
        Seq::empty()
    } else if messages[n - 1].str_at("role"@) == Some("system"@) {
        anthropic_upto(messages, n - 1)
    } else {
        anthropic_upto(messages, n - 1).push(anthropic_message(messages[n - 1]))
    }
}

fn anthropic_conversation(messages: &Vec<Json>) -> (r: Vec<Json>)
    ensures
        json_seq(r@) == anthropic_upto(json_seq(messages@), messages@.len() as int),
{
    let ghost mv = json_seq(messages@);
    let mut out: Vec<Json> = Vec::new();
    let mut i: usize = 0;
    proof {
        assert(json_seq(out@) =~= Seq::<JsonView>::empty());
    }
    while i < messages.len()
        invariant
            i <= messages@.len(),
            mv == json_seq(messages@),
            json_seq(out@) == anthropic_upto(mv, i as int),
        decreases messages@.len() - i,
    {
        proof {
            assert(mv[i as int] == messages@[i as int]@);
        }
        if !opt_is(messages[i].str_at("role"), "system") {
            let j = convert_message_for_anthropic(&messages[i]);
            proof {
                lemma_json_seq_push(out@, j);
            }
            out.push(j);
        }
        i = i + 1;
    }
    out
}

/// A request in the form of its provider.
pub open spec fn provider_json(req: ChatRequest) -> JsonView {
    let mv = messages_view(req.messages@);
    let messages = mv.map_values(|m: MessageView| message_json(m));
    let tools = json_seq(req.tools@);
    let max = JsonView::Int(req.max_output_tokens as int);
    let base = empty_object().with("model"@, JsonView::Str(req.model@)).with(
        "stream"@,
        JsonView::Bool(req.stream),
    );
    match req.provider {
        LlmProvider::Ollama => with_list(
            base.with("messages"@, JsonView::Array(messages)),
            "tools"@,
            tools,
        ).with("options"@, empty_object().with("num_predict"@, max)),
        LlmProvider::Anthropic => with_list(
            with_text(base.with("max_tokens"@, max), "system"@, system_content(mv, 0)).with(
                "messages"@,
                JsonView::Array(anthropic_upto(messages, messages.len() as int)),
            ),
            "tools"@,
            anthropic_tools(tools, tools.len() as int),
        ),
        _ => {
            let b = with_list(
                base.with("max_completion_tokens"@, max).with(
                    "messages"@,
                    JsonView::Array(messages),
                ),
                "tools"@,
                tools,
            );
            if req.stream {
                b.with(
                    "stream_options"@,
                    empty_object().with("include_usage"@, JsonView::Bool(true)),
                )
            } else {
                b
            }
        },
    }
}

impl ChatRequest {
    fn raw_messages(&self) -> (r: Vec<Json>)
        ensures
            json_seq(r@) == messages_view(self.messages@).map_values(
                |m: MessageView| message_json(m),
            ),
    {
        let mut out: Vec<Json> = Vec::new();
        let mut i: usize = 0;
        while i < self.messages.len()
            invariant
                i <= self.messages@.len(),
                out@.len() == i,
                forall|k: int|
                    0 <= k < i ==> #[trigger] out@[k]@ == message_json(self.messages@[k]@),
            decreases self.messages@.len() - i,
        {
            out.push(message_to_json(&self.messages[i]));
            i = i + 1;
        }
        proof {
            assert(json_seq(out@) =~= messages_view(self.messages@).map_values(
                |m: MessageView| message_json(m),
            ));
        }
        out
    }

    /// The request in the form of its provider.
    pub fn to_provider_json(&self) -> (r: Json)
        ensures
            r@ == provider_json(*self),
    {
        let raw = self.raw_messages();
        let base = Json::object().with("model", Json::text(self.model.as_str())).with(
            "stream",
            Json::Bool(self.stream),
        );
        let max = Json::Unsigned(self.max_output_tokens as u64);
        match self.provider {
            LlmProvider::Ollama => add_list(
                base.with("messages", Json::Array(raw)),
                "tools",
                copy_tools(&self.tools),
            ).with("options", Json::object().with("num_predict", max)),
            LlmProvider::Anthropic => {
                proof {
                    assert(json_seq(raw@).len() == raw@.len());
                    assert(json_seq(self.tools@).len() == self.tools@.len());
                }
                let kept = anthropic_conversation(&raw);
                let a = add_opt_text(
                    base.with("max_tokens", max),
                    "system",
                    find_system(&self.messages),
                );
                add_list(
                    a.with("messages", Json::Array(kept)),
                    "tools",
                    convert_tools_to_anthropic(&self.tools),
                )
            },
            LlmProvider::OpenAi | LlmProvider::OpenAiCompatible => {
                let b = add_list(
                    base.with("max_completion_tokens", max).with("messages", Json::Array(raw)),
                    "tools",
                    copy_tools(&self.tools),
                );
                if self.stream {
                    b.with(
                        "stream_options",
                        Json::object().with("include_usage", Json::Bool(true)),
                    )
                } else {
                    b
                }
            },
        }
    }
}

// ---------------------------------------------------------------------------
// Stream events
// ---------------------------------------------------------------------------

/// A usage payload of two counts.
pub open spec fn usage_payload(prompt: JsonView, completion: JsonView) -> JsonView {
    empty_object().with(
        "usage"@,
        empty_object().with("prompt_tokens"@, prompt).with("completion_tokens"@, completion),
    )
}

fn make_usage(prompt: Json, completion: Json) -> (r: Json)
    ensures
        r@ == usage_payload(prompt@, completion@),
{
    Json::object().with(
        "usage",
        Json::object().with("prompt_tokens", prompt).with("completion_tokens", completion),
    )
}

/// The payload of a fragment of a content block.
pub open spec fn block_delta_payload(event: JsonView, tool_index: usize) -> JsonView {
    match event.get("delta"@) {
        None => empty_object(),
        Some(delta) => {
            let kind = delta.str_at("type"@);
            if kind == Some("text_delta"@) {
                match delta.get("text"@) {
                    Some(v) => delta_payload("content"@, v),
                    None => empty_object(),
                }
            } else if kind == Some("thinking_delta"@) {
                match delta.get("thinking"@) {
                    Some(v) => delta_payload("reasoning_content"@, v),
                    None => empty_object(),
                }
            } else if kind == Some("input_json_delta"@) {
                match delta.get("partial_json"@) {
                    Some(v) => arguments_payload(tool_index as int, v),
                    None => empty_object(),
                }
            } else {
                empty_object()
            }
        },
    }
}

/// The position of the tool call in progress after an Anthropic event.
pub open spec fn anth_index_after(event: JsonView, tool_index: usize) -> usize {
    if event.str_at("type"@) == Some("content_block_start"@) {
        event_index(event, tool_index)
    } else {
        tool_index
    }
}

/// The payload that an Anthropic event comes to.
pub open spec fn anth_payload(event: JsonView, tool_index: usize) -> JsonView {
    let kind = event.str_at("type"@);
    if kind == Some("content_block_delta"@) {
        block_delta_payload(event, tool_index)
    } else if kind == Some("content_block_start"@) {
        crate::compat_provider::block_start_payload(event, tool_index)
    } else if kind == Some("message_start"@) {
        match inner(event, "message"@, "usage"@) {
            Some(u) => match u.get("input_tokens"@) {
                Some(n) => usage_payload(n, JsonView::Int(0)),
                None => empty_object(),
            },
            None => empty_object(),
        }
    } else if kind == Some("message_delta"@) {
        match inner(event, "usage"@, "output_tokens"@) {
            Some(n) => usage_payload(JsonView::Int(0), n),
            None => empty_object(),
        }
    } else {
        empty_object()
    }
}

/// Converts one Anthropic stream event into the payload of the Chat
/// Completions API, keeping the position of the tool call in progress.
pub fn convert_anth_to_openai_format(anth: &Json, tool_index: &mut usize) -> (r: Json)
    ensures
        r@ == anth_payload(anth@, *old(tool_index)),
        *final(tool_index) == anth_index_after(anth@, *old(tool_index)),
{
    proof {
        reveal_strlit("content_block_delta");
        reveal_strlit("content_block_start");
        assert("content_block_delta"@[14] != "content_block_start"@[14]);
    }
    let kind = anth.str_at("type");
    if opt_is(kind, "content_block_delta") {
        match anth.get("delta") {
            None => Json::object(),
            Some(delta) => {
                let kind = delta.str_at("type");
                if opt_is(kind, "text_delta") {
                    match delta.get("text") {
                        Some(v) => make_delta("content", v.copy()),
                        None => Json::object(),
                    }
                } else if opt_is(kind, "thinking_delta") {
                    match delta.get("thinking") {
                        Some(v) => make_delta("reasoning_content", v.copy()),
                        None => Json::object(),
                    }
                } else if opt_is(kind, "input_json_delta") {
                    match delta.get("partial_json") {
                        Some(v) => make_arguments(*tool_index as u64, v.copy()),
                        None => Json::object(),
                    }
                } else {
                    Json::object()
                }
            },
        }
    } else if opt_is(kind, "content_block_start") {
        *tool_index = get_event_index(anth, *tool_index);
        match anth.get("content_block") {
            Some(block) => if opt_is(block.str_at("type"), "tool_use") {
                make_start(
                    *tool_index as u64,
                    get_str(block, "id", ""),
                    get_str(block, "name", ""),
                )
            } else {
                Json::object()
            },
            None => Json::object(),
        }
    } else if opt_is(kind, "message_start") {
        match get_inner(anth, "message", "usage") {
            Some(u) => match u.get("input_tokens") {
                Some(n) => make_usage(n.copy(), Json::Unsigned(0)),
                None => Json::object(),
            },
            None => Json::object(),
        }
    } else if opt_is(kind, "message_delta") {
        match get_inner(anth, "usage", "output_tokens") {
            Some(n) => make_usage(Json::Unsigned(0), n.copy()),
            None => Json::object(),
        }
    } else {
        Json::object()
    }
}

} // verus!
