//! Laws of requests: whatever the provider, a request carries its settings, its tools
//! and its whole conversation.

use vstd::prelude::*;
use vstd::string::*;

use crate::attach::AttachedFileView;
use crate::compat_provider::{
    anthropic_tools, formatted_messages, provider_json, request_messages, responses_tools,
    system_content, LlmProvider, provider_of, tool_result_text,
};
use crate::compat_resilience::ToolResultFormat;
use crate::file::FileTypeView;
use crate::json_keys::{group_members, lemma_keys};
use crate::json_model::{group_json, json_seq, JsonView};
use crate::json_text::json_read;
use crate::model::{message_json, messages_view, ChatRequest, MessageView, ToolCallView};
use crate::text::text_contains;

verus! {

broadcast use {group_json, group_members};

// ---------------------------------------------------------------------------
// Settings
// ---------------------------------------------------------------------------

/// A request names its model, says whether it streams, and limits the tokens of the
/// answer, under the name that its provider knows and under no other.
pub proof fn requests_carry_their_settings(req: ChatRequest)
    ensures
        ({
            let body = provider_json(req);
            let max = Some(JsonView::Int(req.max_output_tokens as int));
            &&& body is Object
            &&& body.get("model"@) == Some(JsonView::Str(req.model@))
            &&& body.get("stream"@) == Some(JsonView::Bool(req.stream))
            &&& body.get("max_tokens"@) == if req.provider == LlmProvider::Anthropic || (
            req.provider == LlmProvider::OpenAi && req.max_tokens_fallback) {
                max
            } else {
                None
            }
            &&& body.get("max_completion_tokens"@) == if req.provider == LlmProvider::OpenAi
                && !req.max_tokens_fallback {
                max
            } else {
                None
            }
            &&& body.get("max_output_tokens"@) == if req.provider == LlmProvider::OpenAiResponses {
                max
            } else {
                None
            }
            &&& req.provider == LlmProvider::Ollama <==> body.get("options"@) is Some
            &&& req.provider == LlmProvider::Ollama ==> body.get("options"@)->0.get("num_predict"@)
                == max
            &&& (req.provider == LlmProvider::OpenAi && req.stream) <==> body.get(
                "stream_options"@,
            ) is Some
            &&& body.get("stream_options"@) is Some ==> body.get("stream_options"@)->0.get(
                "include_usage"@,
            ) == Some(JsonView::Bool(true))
        }),
{
    lemma_keys();
}

proof fn lemma_system(messages: Seq<MessageView>, i: int, at: int)
    requires
        0 <= i <= at <= messages.len(),
        forall|k: int| i <= k < at ==> (#[trigger] messages[k]).role != "system"@,
        at < messages.len() ==> messages[at].role == "system"@,
    ensures
        system_content(messages, i) == if at < messages.len() {
            Some(messages[at].content)
        } else {
            None
        },
    decreases at - i,
{
    if i < at {
        assert(messages[i].role != "system"@);
        lemma_system(messages, i + 1, at);
    }
}

/// Where a provider takes the system prompt apart from the conversation, the request
/// has that of the first system message there, at position `at`; without any system
/// message (`at` is then the number of messages) it has none.
pub proof fn requests_carry_their_system_prompt(req: ChatRequest, at: int)
    requires
        0 <= at <= req.messages@.len(),
        forall|k: int|
            0 <= k < at ==> (#[trigger] messages_view(req.messages@)[k]).role != "system"@,
        at < req.messages@.len() ==> messages_view(req.messages@)[at].role == "system"@,
    ensures
        ({
            let body = provider_json(req);
            let prompt = if at < req.messages@.len() {
                Some(JsonView::Str(messages_view(req.messages@)[at].content))
            } else {
                None
            };
            &&& body.get("system"@) == if req.provider == LlmProvider::Anthropic {
                prompt
            } else {
                None
            }
            &&& body.get("instructions"@) == if req.provider == LlmProvider::OpenAiResponses {
                prompt
            } else {
                None
            }
        }),
{
    lemma_keys();
    lemma_system(messages_view(req.messages@), 0, at);
}

// ---------------------------------------------------------------------------
// Tools
// ---------------------------------------------------------------------------

/// Whether a tool definition has a function with a name and parameters.
pub open spec fn is_definition(t: JsonView) -> bool {
    &&& t.get("function"@) is Some
    &&& t.get("function"@)->0.str_at("name"@) is Some
    &&& t.get("function"@)->0.get("parameters"@) is Some
}

/// Whether `entry` tells the model of the tool `t`, under the names that `provider`
/// knows: the name, the parameters, and the description where there is one.
pub open spec fn tells_of(provider: LlmProvider, entry: JsonView, t: JsonView) -> bool {
    let func = t.get("function"@)->0;
    let shown = match func.str_at("description"@) {
        Some(d) => if d.len() > 0 {
            Some(d)
        } else {
            None
        },
        None => None,
    };
    match provider {
        LlmProvider::OpenAi => entry == t,
        LlmProvider::Ollama => entry == t,
        LlmProvider::OpenAiResponses => {
            &&& entry.str_at("type"@) == Some("function"@)
            &&& entry.str_at("name"@) == func.str_at("name"@)
            &&& entry.get("parameters"@) == func.get("parameters"@)
            &&& entry.str_at("description"@) == shown
        },
        LlmProvider::Anthropic => {
            &&& entry.str_at("name"@) == func.str_at("name"@)
            &&& entry.get("input_schema"@) == func.get("parameters"@)
            &&& entry.str_at("description"@) == shown
        },
    }
}

proof fn lemma_tools(tools: Seq<JsonView>, n: int)
    requires
        0 <= n <= tools.len(),
        forall|i: int| 0 <= i < tools.len() ==> is_definition(#[trigger] tools[i]),
    ensures
        responses_tools(tools, n).len() == n,
        anthropic_tools(tools, n).len() == n,
        forall|i: int|
            0 <= i < n ==> tells_of(
                LlmProvider::OpenAiResponses,
                #[trigger] responses_tools(tools, n)[i],
                tools[i],
            ),
        forall|i: int|
            0 <= i < n ==> tells_of(
                LlmProvider::Anthropic,
                #[trigger] anthropic_tools(tools, n)[i],
                tools[i],
            ),
    decreases n,
{
    if n > 0 {
        lemma_tools(tools, n - 1);
        lemma_keys();
        assert(is_definition(tools[n - 1]));
        let r = responses_tools(tools, n)[n - 1];
        let a = anthropic_tools(tools, n)[n - 1];
        assert(tells_of(LlmProvider::OpenAiResponses, r, tools[n - 1]));
        assert(tells_of(LlmProvider::Anthropic, a, tools[n - 1]));
    }
}

/// A request tells the model of every tool, in order and whatever the provider: it
/// has a list of tools exactly where there are any, as long as the tools are many, and
/// each entry carries the name, the parameters and the description of its tool.
pub proof fn requests_carry_their_tools(req: ChatRequest)
    requires
        forall|i: int|
            0 <= i < req.tools@.len() ==> is_definition(#[trigger] json_seq(req.tools@)[i]),
    ensures
        ({
            let list = provider_json(req).get("tools"@);
            let tools = json_seq(req.tools@);
            &&& list is Some <==> req.tools@.len() > 0
            &&& list is Some ==> list->0 is Array && list->0->Array_0.len() == req.tools@.len()
                && forall|i: int|
                0 <= i < req.tools@.len() ==> tells_of(
                    req.provider,
                    #[trigger] list->0->Array_0[i],
                    tools[i],
                )
        }),
{
    lemma_keys();
    let tools = json_seq(req.tools@);
    assert(tools.len() == req.tools@.len());
    lemma_tools(tools, tools.len() as int);
}

/// A definition that cannot be read is left out, and the others are told of all the
/// same: the entries for two lists together are those for each, and for a single
/// definition there is one exactly where it can be read.
pub proof fn tools_are_told_of_one_by_one(a: Seq<JsonView>, b: Seq<JsonView>)
    ensures
        anthropic_tools(a + b, (a + b).len() as int) == anthropic_tools(a, a.len() as int)
            + anthropic_tools(b, b.len() as int),
        responses_tools(a + b, (a + b).len() as int) == responses_tools(a, a.len() as int)
            + responses_tools(b, b.len() as int),
        b.len() == 1 ==> anthropic_tools(b, 1).len() == if is_definition(b[0]) {
            1int
        } else {
            0int
        },
        b.len() == 1 ==> responses_tools(b, 1).len() == if b[0].get("function"@) is Some
            && b[0].get("function"@)->0.str_at("name"@) is Some {
            1int
        } else {
            0int
        },
{
    lemma_tools_split(a, b, b.len() as int);
    if b.len() == 1 {
        assert(anthropic_tools(b, 0).len() == 0);
        assert(responses_tools(b, 0).len() == 0);
    }
}

proof fn lemma_tools_split(a: Seq<JsonView>, b: Seq<JsonView>, n: int)
    requires
        0 <= n <= b.len(),
    ensures
        anthropic_tools(a + b, a.len() + n) == anthropic_tools(a, a.len() as int)
            + anthropic_tools(b, n),
        responses_tools(a + b, a.len() + n) == responses_tools(a, a.len() as int)
            + responses_tools(b, n),
    decreases n,
{
    if n > 0 {
        lemma_tools_split(a, b, n - 1);
        assert((a + b)[a.len() + n - 1] == b[n - 1]);
        assert(anthropic_tools(a + b, a.len() + n) =~= anthropic_tools(a, a.len() as int)
            + anthropic_tools(b, n));
        assert(responses_tools(a + b, a.len() + n) =~= responses_tools(a, a.len() as int)
            + responses_tools(b, n));
    } else {
        lemma_tools_front(a, b, a.len() as int);
        assert(anthropic_tools(a, a.len() as int) + anthropic_tools(b, 0) =~= anthropic_tools(
            a,
            a.len() as int,
        ));
        assert(responses_tools(a, a.len() as int) + responses_tools(b, 0) =~= responses_tools(
            a,
            a.len() as int,
        ));
    }
}

proof fn lemma_tools_front(a: Seq<JsonView>, b: Seq<JsonView>, n: int)
    requires
        0 <= n <= a.len(),
    ensures
        anthropic_tools(a + b, n) == anthropic_tools(a, n),
        responses_tools(a + b, n) == responses_tools(a, n),
    decreases n,
{
    if n > 0 {
        lemma_tools_front(a, b, n - 1);
        assert((a + b)[n - 1] == a[n - 1]);
    }
}

// ---------------------------------------------------------------------------
// The conversation before it takes the form of a provider
// ---------------------------------------------------------------------------

/// Whether `entry` is the tool call `c`.
pub open spec fn tells_call(entry: JsonView, c: ToolCallView) -> bool {
    &&& entry is Object
    &&& entry.str_at("id"@) == Some(c.id)
    &&& entry.str_at("type"@) == Some(c.tool_type)
    &&& entry.get("function"@) is Some
    &&& entry.get("function"@)->0.str_at("name"@) == Some(c.name)
    &&& entry.get("function"@)->0.get("arguments"@) == Some(c.arguments)
    &&& entry.str_at("thought_signature"@) == c.thought_signature
}

/// Whether `list` is the tool calls `calls`, in order.
pub open spec fn tells_calls(list: Option<JsonView>, calls: Option<Seq<ToolCallView>>) -> bool {
    &&& list is Some <==> calls is Some
    &&& calls is Some ==> list->0 is Array && list->0->Array_0.len() == calls->0.len() && forall|
        i: int,
    |
        0 <= i < calls->0.len() ==> tells_call(#[trigger] list->0->Array_0[i], calls->0[i])
}

/// Whether `entry` has everything of a message but its content.
pub open spec fn tells_frame(entry: JsonView, m: MessageView) -> bool {
    &&& entry is Object
    &&& entry.str_at("role"@) == Some(m.role)
    &&& entry.str_at("reasoning_content"@) == m.reasoning_content
    &&& entry.str_at("tool_call_id"@) == m.tool_call_id
    &&& tells_calls(entry.get("tool_calls"@), m.tool_calls)
}

proof fn lemma_frame(m: MessageView)
    ensures
        tells_frame(message_json(m), m),
        message_json(m).get("content"@) == Some(JsonView::Str(m.content)),
        message_json(m).get("tool_name"@) is None,
        message_json(m).get("images"@) is None,
        message_json(m).get("thinking"@) is None,
{
    lemma_keys();
    if m.tool_calls is Some {
        let calls = m.tool_calls->0;
        let list = message_json(m).get("tool_calls"@);
        assert(list is Some);
        assert forall|i: int| 0 <= i < calls.len() implies tells_call(
            #[trigger] list->0->Array_0[i],
            calls[i],
        ) by {}
    }
}

/// Whether `block` hands over an attached file: a text with its path, an image by its
/// data URL, a sound or a document by its data and kind.
pub open spec fn tells_file(block: JsonView, f: AttachedFileView) -> bool {
    match f.attach_type {
        FileTypeView::Text => {
            &&& block.str_at("type"@) == Some("text"@)
            &&& block.str_at("text"@) == Some(
                "<attached_file path=\""@ + f.path + "\">\n"@ + f.content + "\n</attached_file>"@,
            )
        },
        FileTypeView::Image(_) => {
            &&& block.str_at("type"@) == Some("image_url"@)
            &&& block.get("image_url"@) is Some
            &&& block.get("image_url"@)->0.str_at("url"@) == Some(f.content)
        },
        FileTypeView::Audio(format) => {
            &&& block.str_at("type"@) == Some("input_audio"@)
            &&& block.get("input_audio"@) is Some
            &&& block.get("input_audio"@)->0.str_at("data"@) == Some(f.content)
            &&& block.get("input_audio"@)->0.str_at("format"@) == Some(format)
        },
        FileTypeView::Document(mime) => {
            &&& block.str_at("type"@) == Some("document"@)
            &&& block.get("source"@) is Some
            &&& block.get("source"@)->0.str_at("type"@) == Some("base64"@)
            &&& block.get("source"@)->0.str_at("media_type"@) == Some(mime)
            &&& block.get("source"@)->0.str_at("data"@) == Some(f.content)
        },
    }
}

/// Whether `blocks` hand over a text, unless it is empty, and then the files in order.
pub open spec fn tells_blocks(
    blocks: Seq<JsonView>,
    content: Seq<char>,
    files: Seq<AttachedFileView>,
) -> bool {
    let k: int = if content.len() > 0 {
        1
    } else {
        0
    };
    &&& blocks.len() == k + files.len()
    &&& k == 1 ==> blocks[0].str_at("type"@) == Some("text"@) && blocks[0].str_at("text"@) == Some(
        content,
    )
    &&& tells_files(blocks, k, files)
}

/// Whether the blocks from `from` on hand over the files, in order.
pub open spec fn tells_files(
    blocks: Seq<JsonView>,
    from: int,
    files: Seq<AttachedFileView>,
) -> bool {
    forall|i: int| 0 <= i < files.len() ==> tells_file(#[trigger] blocks[from + i], files[i])
}

proof fn lemma_file_told(f: AttachedFileView)
    ensures
        tells_file(crate::compat_provider::file_block(f), f),
{
    lemma_keys();
}

/// Every message of a conversation is in the request, in its place, with its role,
/// reasoning, tool calls and the call that it answers; its content is its text, or,
/// for a user message with attachments, its text and its files. The result of a tool
/// is handed over as text or, where the format asks for it, as the value it holds.
pub proof fn requests_carry_every_message(req: ChatRequest, i: int)
    requires
        0 <= i < req.messages@.len(),
    ensures
        request_messages(req).len() == req.messages@.len(),
        ({
            let m = messages_view(req.messages@)[i];
            let entry = request_messages(req)[i];
            let with_files = m.role == "user"@ && m.attached_files.len() > 0;
            &&& tells_frame(entry, m)
            &&& with_files ==> entry.array_at("content"@) is Some && tells_blocks(
                entry.array_at("content"@)->0,
                m.content,
                m.attached_files,
            )
            &&& !with_files && (m.role != "tool"@ || req.tool_result_format
                == ToolResultFormat::JsonString || json_read(m.content) is Malformed)
                ==> entry.get("content"@) == Some(JsonView::Str(m.content))
            &&& m.role == "tool"@ && req.tool_result_format == ToolResultFormat::JsonStructured
                && json_read(m.content) is Value ==> entry.get("content"@) == Some(
                json_read(m.content)->Value_0,
            )
            &&& m.role == "tool"@ && req.tool_result_format == ToolResultFormat::Text && json_read(
                m.content,
            ) is Value && m.tool_name is Some ==> entry.get("content"@) == Some(
                JsonView::Str(
                    match tool_result_text(json_read(m.content)->Value_0, m.tool_name->0) {
                        Some(text) => text,
                        None => m.content,
                    },
                ),
            )
        }),
{
    lemma_keys();
    let mv = messages_view(req.messages@);
    let m = mv[i];
    let raw = message_json(m);
    lemma_frame(m);
    let formatted = formatted_messages(
        mv.map_values(|x: MessageView| message_json(x)),
        mv,
        req.tool_result_format,
    );
    assert(formatted.len() == mv.len());
    let entry = request_messages(req)[i];
    assert(tells_calls(entry.get("tool_calls"@), m.tool_calls));
    if m.role == "user"@ && m.attached_files.len() > 0 {
        let blocks = entry.array_at("content"@)->0;
        let k: int = if m.content.len() > 0 {
            1
        } else {
            0
        };
        assert(entry.array_at("content"@) is Some);
        assert forall|x: int| 0 <= x < m.attached_files.len() implies tells_file(
            #[trigger] blocks[k + x],
            m.attached_files[x],
        ) by {
            lemma_file_told(m.attached_files[x]);
            assert(blocks[k + x] == crate::compat_provider::file_block(m.attached_files[x]));
        }
    }
}

/// The provider is known by its address: Anthropic, Ollama and the Responses API by what
/// is theirs in it, and any other address is one of the Chat Completions API.
pub proof fn addresses_tell_the_provider(url: Seq<char>)
    ensures
        ({
            let anthropic = text_contains(url, "api.anthropic.com"@) || text_contains(
                url,
                "/anthropic"@,
            ) || text_contains(url, "/v1/messages"@);
            let ollama = text_contains(url, "/api/chat"@) || text_contains(url, ":11434"@);
            &&& provider_of(url) == LlmProvider::Anthropic <==> anthropic
            &&& provider_of(url) == LlmProvider::Ollama <==> !anthropic && ollama
            &&& provider_of(url) == LlmProvider::OpenAiResponses <==> !anthropic && !ollama
                && text_contains(url, "/v1/responses"@)
        }),
{
}

} // verus!
