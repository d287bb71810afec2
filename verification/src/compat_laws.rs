//! Laws of requests and events in the plain form: what a request is made of, and what an
//! event of Anthropic carries.

use vstd::prelude::*;
use vstd::string::*;

use crate::compat::{
    anth_index_after, anth_payload, anthropic_message, anthropic_tools, anthropic_upto,
    provider_json, ChatRequest, LlmProvider, provider_of,
};
use crate::compat_resilience::msg_base;
use crate::json_keys::{group_members, lemma_keys};
use crate::json_model::{group_json, json_seq, JsonView};
use crate::model::{message_json, messages_view, MessageView};
use crate::stream_laws::{calls_only, says_only, thinks_only};
use crate::text::text_contains;

verus! {

broadcast use {group_json, group_members};

/// A request names its model, says whether it streams, and limits the tokens of the
/// answer, under the name that its provider knows.
pub proof fn requests_carry_their_settings(req: ChatRequest)
    ensures
        ({
            let body = provider_json(req);
            let max = Some(JsonView::Int(req.max_output_tokens as int));
            let open = req.provider == LlmProvider::OpenAi || req.provider
                == LlmProvider::OpenAiCompatible;
            &&& body is Object
            &&& body.get("model"@) == Some(JsonView::Str(req.model@))
            &&& body.get("stream"@) == Some(JsonView::Bool(req.stream))
            &&& body.get("max_tokens"@) == if req.provider == LlmProvider::Anthropic {
                max
            } else {
                None
            }
            &&& body.get("max_completion_tokens"@) == if open {
                max
            } else {
                None
            }
            &&& req.provider == LlmProvider::Ollama <==> body.get("options"@) is Some
            &&& req.provider == LlmProvider::Ollama ==> body.get("options"@)->0.get("num_predict"@)
                == max
            &&& (open && req.stream) <==> body.get("stream_options"@) is Some
            &&& body.get("stream_options"@) is Some ==> body.get("stream_options"@)->0.get(
                "include_usage"@,
            ) == Some(JsonView::Bool(true))
        }),
{
    lemma_keys();
}

/// Whether a tool definition is complete.
pub open spec fn is_complete(t: JsonView) -> bool {
    &&& t.get("function"@) is Some
    &&& t.get("function"@)->0.str_at("name"@) is Some
    &&& t.get("function"@)->0.str_at("description"@) is Some
    &&& t.get("function"@)->0.get("parameters"@) is Some
}

/// Whether an entry tells Anthropic of a tool.
pub open spec fn tells_of(entry: JsonView, t: JsonView) -> bool {
    let func = t.get("function"@)->0;
    &&& entry.str_at("name"@) == func.str_at("name"@)
    &&& entry.str_at("description"@) == func.str_at("description"@)
    &&& entry.get("input_schema"@) == func.get("parameters"@)
}

proof fn lemma_tools(tools: Seq<JsonView>, n: int)
    requires
        0 <= n <= tools.len(),
        forall|i: int| 0 <= i < tools.len() ==> is_complete(#[trigger] tools[i]),
    ensures
        anthropic_tools(tools, n).len() == n,
        forall|i: int|
            0 <= i < n ==> tells_of(#[trigger] anthropic_tools(tools, n)[i], tools[i]),
    decreases n,
{
    if n > 0 {
        lemma_tools(tools, n - 1);
        lemma_keys();
        assert(is_complete(tools[n - 1]));
        assert(tells_of(anthropic_tools(tools, n)[n - 1], tools[n - 1]));
    }
}

/// A request tells the model of every tool, in order.
pub proof fn requests_carry_their_tools(req: ChatRequest)
    requires
        forall|i: int|
            0 <= i < req.tools@.len() ==> is_complete(#[trigger] json_seq(req.tools@)[i]),
    ensures
        ({
            let list = provider_json(req).get("tools"@);
            let tools = json_seq(req.tools@);
            &&& list is Some <==> req.tools@.len() > 0
            &&& list is Some ==> list->0 is Array && list->0->Array_0.len() == req.tools@.len()
            &&& list is Some && req.provider != LlmProvider::Anthropic ==> list->0->Array_0 == tools
            &&& list is Some && req.provider == LlmProvider::Anthropic ==> forall|i: int|
                0 <= i < req.tools@.len() ==> tells_of(#[trigger] list->0->Array_0[i], tools[i])
        }),
{
    lemma_keys();
    let tools = json_seq(req.tools@);
    assert(tools.len() == req.tools@.len());
    lemma_tools(tools, tools.len() as int);
}

/// The messages of a request.
pub open spec fn entries(req: ChatRequest) -> Seq<JsonView> {
    messages_view(req.messages@).map_values(|m: MessageView| message_json(m))
}

/// A request holds the whole conversation: every message as it is, and for Anthropic
/// every message but those of the system, in the form that it knows.
pub proof fn requests_hold_the_conversation(req: ChatRequest)
    ensures
        provider_json(req).array_at("messages"@) == Some(
            if req.provider == LlmProvider::Anthropic {
                anthropic_upto(entries(req), entries(req).len() as int)
            } else {
                entries(req)
            },
        ),
        entries(req).len() == req.messages@.len(),
{
    lemma_keys();
}

/// The system prompt of a request for Anthropic is that of the first system message.
pub proof fn requests_carry_their_system_prompt(req: ChatRequest, at: int)
    requires
        req.provider == LlmProvider::Anthropic,
        0 <= at <= req.messages@.len(),
        forall|k: int|
            0 <= k < at ==> (#[trigger] messages_view(req.messages@)[k]).role != "system"@,
        at < req.messages@.len() ==> messages_view(req.messages@)[at].role == "system"@,
    ensures
        provider_json(req).get("system"@) == if at < req.messages@.len() {
            Some(JsonView::Str(messages_view(req.messages@)[at].content))
        } else {
            None
        },
{
    lemma_keys();
    lemma_system(messages_view(req.messages@), 0, at);
}

proof fn lemma_system(messages: Seq<MessageView>, i: int, at: int)
    requires
        0 <= i <= at <= messages.len(),
        forall|k: int| i <= k < at ==> (#[trigger] messages[k]).role != "system"@,
        at < messages.len() ==> messages[at].role == "system"@,
    ensures
        crate::compat_provider::system_content(messages, i) == if at < messages.len() {
            Some(messages[at].content)
        } else {
            None
        },
    decreases at - i,
{
    if i < at {
        assert(messages[i].role != "system"@);
        lemma_system(messages, i + 1, at);
    }
}

/// Every message but those of the system is converted, in order.
pub proof fn messages_are_converted_one_by_one(a: Seq<JsonView>, b: Seq<JsonView>, n: int)
    requires
        0 <= n <= b.len(),
    ensures
        anthropic_upto(a + b, a.len() + n) == anthropic_upto(a, a.len() as int) + anthropic_upto(
            b,
            n,
        ),
        n == 1 ==> anthropic_upto(b, 1) == if b[0].str_at("role"@) == Some("system"@) {
            Seq::empty()
        } else {
            seq![anthropic_message(b[0])]
        },
    decreases n,
{
    if n > 0 {
        messages_are_converted_one_by_one(a, b, n - 1);
        assert((a + b)[a.len() + n - 1] == b[n - 1]);
        assert(anthropic_upto(a + b, a.len() + n) =~= anthropic_upto(a, a.len() as int)
            + anthropic_upto(b, n));
        if n == 1 {
            assert(anthropic_upto(b, 0) =~= Seq::<JsonView>::empty());
            assert(Seq::<JsonView>::empty().push(anthropic_message(b[0])) =~= seq![
                anthropic_message(b[0]),
            ]);
        }
    } else {
        lemma_front(a, b, a.len() as int);
        assert(anthropic_upto(a, a.len() as int) + anthropic_upto(b, 0) =~= anthropic_upto(
            a,
            a.len() as int,
        ));
    }
}

proof fn lemma_front(a: Seq<JsonView>, b: Seq<JsonView>, n: int)
    requires
        0 <= n <= a.len(),
    ensures
        anthropic_upto(a + b, n) == anthropic_upto(a, n),
    decreases n,
{
    if n > 0 {
        lemma_front(a, b, n - 1);
        assert((a + b)[n - 1] == a[n - 1]);
    }
}

/// The result of a tool becomes a user message of one block that names the call it
/// answers and holds the result; any other message stays as it is.
pub proof fn results_answer_their_call(msg: JsonView)
    ensures
        ({
            let out = anthropic_message(msg);
            let blocks = out.array_at("content"@)->0;
            &&& msg.str_at("role"@) != Some("tool"@) ==> out == msg
            &&& msg.str_at("role"@) == Some("tool"@) && msg.str_at("tool_call_id"@) is Some
                && msg.get("content"@) is Some ==> {
                &&& out.str_at("role"@) == Some("user"@)
                &&& out.array_at("content"@) is Some
                &&& blocks.len() == 1
                &&& blocks[0].str_at("type"@) == Some("tool_result"@)
                &&& blocks[0].str_at("tool_use_id"@) == msg.str_at("tool_call_id"@)
                &&& blocks[0].get("content"@) == msg.get("content"@)
            }
        }),
{
    lemma_keys();
}

/// Text, thinking and argument fragments of Anthropic carry just these, and a tool use
/// starts a call with its identifier and name.
pub proof fn events_carry_their_text(event: JsonView, tool_index: usize, s: Seq<char>)
    ensures
        ({
            let kind = event.str_at("type"@);
            let part = msg_base(anth_payload(event, tool_index));
            let d = event.get("delta"@)->0;
            let b = event.get("content_block"@)->0;
            &&& kind == Some("content_block_delta"@) && event.get("delta"@) is Some ==> {
                &&& d.str_at("type"@) == Some("text_delta"@) && d.str_at("text"@) == Some(s)
                    ==> says_only(part, s)
                &&& d.str_at("type"@) == Some("thinking_delta"@) && d.str_at("thinking"@) == Some(s)
                    ==> thinks_only(part, s)
                &&& d.str_at("type"@) == Some("input_json_delta"@) && d.str_at("partial_json"@)
                    == Some(s) ==> calls_only(part, tool_index as int, None, None, JsonView::Str(s))
            }
            &&& kind == Some("content_block_start"@) && event.get("content_block"@) is Some
                && b.str_at("type"@) == Some("tool_use"@) && b.str_at("id"@) is Some && b.str_at(
                "name"@,
            ) is Some && event.get("index"@) is None ==> calls_only(
                part,
                tool_index as int,
                b.str_at("id"@),
                b.str_at("name"@),
                JsonView::Str(""@),
            ) && anth_index_after(event, tool_index) == tool_index
        }),
{
    lemma_keys();
}

/// The prompt is counted where a message starts and the completion where it ends.
pub proof fn events_carry_their_counts(event: JsonView, tool_index: usize, n: JsonView)
    ensures
        ({
            let kind = event.str_at("type"@);
            let u = anth_payload(event, tool_index).get("usage"@);
            &&& kind == Some("message_start"@) && event.get("message"@) is Some && event.get(
                "message"@,
            )->0.get("usage"@) is Some && event.get("message"@)->0.get("usage"@)->0.get(
                "input_tokens"@,
            ) == Some(n) ==> u is Some && u->0.get("prompt_tokens"@) == Some(n) && u->0.get(
                "completion_tokens"@,
            ) == Some(JsonView::Int(0))
            &&& kind == Some("message_delta"@) && event.get("usage"@) is Some && event.get(
                "usage"@,
            )->0.get("output_tokens"@) == Some(n) ==> u is Some && u->0.get("completion_tokens"@)
                == Some(n) && u->0.get("prompt_tokens"@) == Some(JsonView::Int(0))
        }),
{
    lemma_keys();
}

/// The provider is known by its address, and an address that says nothing is one of a
/// compatible service.
pub proof fn addresses_name_the_provider(url: Seq<char>)
    ensures
        ({
            let anthropic = text_contains(url, "api.anthropic.com"@) || text_contains(
                url,
                "/v1/messages"@,
            );
            let ollama = text_contains(url, "/api/chat"@) || text_contains(url, ":11434"@);
            let open_ai = text_contains(url, "api.openai.com"@);
            &&& provider_of(url) == LlmProvider::Anthropic <==> anthropic
            &&& provider_of(url) == LlmProvider::Ollama <==> !anthropic && ollama
            &&& provider_of(url) == LlmProvider::OpenAi <==> !anthropic && !ollama && open_ai
            &&& provider_of(url) == LlmProvider::OpenAiCompatible <==> !anthropic && !ollama
                && !open_ai
        }),
{
}

} // verus!
