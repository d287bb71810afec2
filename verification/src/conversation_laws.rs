//! Laws of conversations in the form of a provider: no message, block, tool call or
//! result gets lost or changes its place.

use vstd::prelude::*;
use vstd::string::*;

use crate::compat_provider::{
    anthropic_message, anthropic_upto, block_texts, images_among, merged_results, named_result,
    ollama_message, only_tool_results, openai_message, provider_json, request_messages,
    responses_upto, user_blocks, with_message, LlmProvider, ResponsesState,
};
use crate::file::data_url_parts;
use crate::json_keys::{group_members, lemma_dropped, lemma_keys};
use crate::json_model::{ascending, group_json, lemma_drop_member, JsonView};
use crate::json_text::json_written;
use crate::model::{messages_view, ChatRequest, MessageView, ToolCallView};
use crate::request_laws::{requests_carry_every_message, tells_calls, tells_frame};
use crate::text::{join_of, trimmed};

verus! {

broadcast use {group_json, group_members};

// ---------------------------------------------------------------------------
// OpenAI
// ---------------------------------------------------------------------------

/// A message for the Chat Completions API is the message itself; only documents among
/// its blocks become files, given by a data URL.
pub proof fn openai_messages_keep_everything(msg: JsonView, key: Seq<char>, i: int)
    requires
        msg is Object,
    ensures
        ({
            let out = openai_message(msg);
            let blocks = msg.array_at("content"@);
            let is_user = msg.str_at("role"@) == Some("user"@);
            &&& key != "content"@ ==> out.get(key) == msg.get(key)
            &&& !(is_user && blocks is Some) ==> out == msg
            &&& is_user && blocks is Some ==> {
                &&& out.array_at("content"@) is Some
                &&& out.array_at("content"@)->0.len() == blocks->0.len()
                &&& 0 <= i < blocks->0.len() ==> {
                    let b = blocks->0[i];
                    let c = out.array_at("content"@)->0[i];
                    let source = b.get("source"@);
                    if b.str_at("type"@) == Some("document"@) && source is Some
                        && source->0.str_at("media_type"@) is Some && source->0.str_at("data"@)
                        is Some {
                        &&& c.str_at("type"@) == Some("file"@)
                        &&& c.get("file"@) is Some
                        &&& c.get("file"@)->0.str_at("file_data"@) == Some(
                            "data:"@ + source->0.str_at("media_type"@)->0 + ";base64,"@
                                + source->0.str_at("data"@)->0,
                        )
                    } else {
                        c == b
                    }
                }
            }
        }),
{
    lemma_keys();
}

/// A request for the Chat Completions API has one entry for each message, in order.
pub proof fn openai_requests_hold_the_conversation(req: ChatRequest, i: int)
    requires
        req.provider == LlmProvider::OpenAi,
        0 <= i < req.messages@.len(),
    ensures
        ({
            let list = provider_json(req).array_at("messages"@);
            &&& list is Some
            &&& list->0.len() == req.messages@.len()
            &&& list->0[i] == openai_message(request_messages(req)[i])
        }),
{
    lemma_keys();
    requests_carry_every_message(req, i);
}

// ---------------------------------------------------------------------------
// Ollama
// ---------------------------------------------------------------------------

/// The images of two lists of blocks are those of each, and so are the texts.
pub proof fn ollama_blocks_add_up(a: Seq<JsonView>, b: Seq<JsonView>, n: int)
    requires
        0 <= n <= b.len(),
    ensures
        images_among(a + b, a.len() + n) == images_among(a, a.len() as int) + images_among(b, n),
        block_texts(a + b, a.len() + n) == block_texts(a, a.len() as int) + block_texts(b, n),
    decreases n,
{
    if n > 0 {
        ollama_blocks_add_up(a, b, n - 1);
        assert((a + b)[a.len() + n - 1] == b[n - 1]);
        assert(images_among(a + b, a.len() + n) =~= images_among(a, a.len() as int) + images_among(
            b,
            n,
        ));
        assert(block_texts(a + b, a.len() + n) =~= block_texts(a, a.len() as int) + block_texts(
            b,
            n,
        ));
    } else {
        lemma_blocks_front(a, b, a.len() as int);
        assert(images_among(a, a.len() as int) + images_among(b, 0) =~= images_among(
            a,
            a.len() as int,
        ));
        assert(block_texts(a, a.len() as int) + block_texts(b, 0) =~= block_texts(
            a,
            a.len() as int,
        ));
    }
}

proof fn lemma_blocks_front(a: Seq<JsonView>, b: Seq<JsonView>, n: int)
    requires
        0 <= n <= a.len(),
    ensures
        images_among(a + b, n) == images_among(a, n),
        block_texts(a + b, n) == block_texts(a, n),
    decreases n,
{
    if n > 0 {
        lemma_blocks_front(a, b, n - 1);
        assert((a + b)[n - 1] == a[n - 1]);
    }
}

/// A block is an image with the payload of its data URL, or a text, or left out.
pub proof fn ollama_takes_images_and_texts(block: JsonView)
    ensures
        ({
            let kind = block.str_at("type"@);
            let url = match block.get("image_url"@) {
                Some(v) => v.str_at("url"@),
                None => None,
            };
            let images = images_among(seq![block], 1);
            let texts = block_texts(seq![block], 1);
            &&& kind == Some("image_url"@) && url is Some && data_url_parts(url->0) is Some
                ==> images == seq![JsonView::Str((data_url_parts(url->0)->0).1)] && texts.len() == 0
            &&& kind == Some("text"@) && block.str_at("text"@) is Some ==> images.len() == 0
                && texts == seq![block.str_at("text"@)->0]
            &&& kind == Some("document"@) ==> images.len() == 0 && texts.len() == 0
        }),
{
    lemma_keys();
    let b = seq![block];
    assert(b[0] == block);
    assert(images_among(b, 0) =~= Seq::<JsonView>::empty());
    assert(block_texts(b, 0) =~= Seq::<Seq<char>>::empty());
    assert(images_among(b, 0).push(JsonView::Null).len() == 1);
    let url = match block.get("image_url"@) {
        Some(v) => v.str_at("url"@),
        None => None,
    };
    if block.str_at("type"@) == Some("image_url"@) && url is Some && data_url_parts(url->0)
        is Some {
        assert(images_among(b, 1) =~= seq![JsonView::Str((data_url_parts(url->0)->0).1)]);
    }
    if block.str_at("type"@) == Some("text"@) && block.str_at("text"@) is Some {
        assert(block_texts(b, 1) =~= seq![block.str_at("text"@)->0]);
    }
}

/// A message for Ollama is the message itself; a user message of blocks becomes its
/// texts, one a line, and its images, and the reasoning of an assistant goes by the name
/// `thinking`.
pub proof fn ollama_messages_keep_everything(msg: JsonView, key: Seq<char>)
    requires
        msg is Object,
        msg.get("images"@) is None,
        msg.get("thinking"@) is None,
    ensures
        ({
            let out = ollama_message(msg);
            let role = msg.str_at("role"@);
            let blocks = msg.array_at("content"@);
            let thought = msg.str_at("reasoning_content"@);
            let moves = role == Some("assistant"@) && thought is Some && trimmed(thought->0).len()
                > 0;
            let splits = role == Some("user"@) && blocks is Some;
            &&& (key != "content"@ && key != "images"@ && key != "thinking"@ && key
                != "reasoning_content"@) ==> out.get(key) == msg.get(key)
            &&& moves ==> out.str_at("thinking"@) == thought
            &&& moves && ascending(msg->Object_0) ==> out.get("reasoning_content"@) is None
            &&& !moves ==> out.get("thinking"@) is None && out.get("reasoning_content"@) == msg.get(
                "reasoning_content"@,
            )
            &&& !splits ==> out.get("content"@) == msg.get("content"@) && out.get("images"@) is None
            &&& splits ==> {
                let images = images_among(blocks->0, blocks->0.len() as int);
                let texts = block_texts(blocks->0, blocks->0.len() as int);
                &&& out.str_at("content"@) == Some(join_of(texts, "\n"@))
                &&& images.len() == 0 ==> out.get("images"@) is None
                &&& images.len() > 0 ==> out.array_at("images"@) == Some(images)
            }
        }),
{
    lemma_keys();
    let m = msg->Object_0;
    let out = ollama_message(msg);
    let role = msg.str_at("role"@);
    let thought = msg.str_at("reasoning_content"@);
    if role == Some("assistant"@) && thought is Some && trimmed(thought->0).len() > 0 {
        if key != "reasoning_content"@ {
            lemma_drop_member(m, "reasoning_content"@, key);
        }
        lemma_drop_member(m, "reasoning_content"@, "content"@);
        lemma_drop_member(m, "reasoning_content"@, "images"@);
        if ascending(m) {
            lemma_dropped(m, "reasoning_content"@);
        }
        let less = msg.without("reasoning_content"@);
        assert(less is Object);
        assert(less.get(key) == msg.get(key) || key == "reasoning_content"@);
        assert(less.get("content"@) == msg.get("content"@));
        assert(less.get("images"@) is None);
        assert(ascending(m) ==> less.get("reasoning_content"@) is None);
    }
}

/// A request for Ollama has one entry for each message, in order, and the result of a
/// tool names its tool.
pub proof fn ollama_requests_hold_the_conversation(req: ChatRequest, i: int)
    requires
        req.provider == LlmProvider::Ollama,
        0 <= i < req.messages@.len(),
    ensures
        ({
            let list = provider_json(req).array_at("messages"@);
            let m = messages_view(req.messages@)[i];
            let entry = request_messages(req)[i];
            let named = named_result(entry, m);
            &&& list is Some
            &&& list->0.len() == req.messages@.len()
            &&& list->0[i] == ollama_message(named)
            &&& m.role == "tool"@ && m.tool_name is Some && m.tool_name->0.len() > 0
                ==> named.str_at("tool_name"@) == m.tool_name
            &&& named.get("role"@) == entry.get("role"@)
            &&& named.get("content"@) == entry.get("content"@)
            &&& named.get("tool_calls"@) == entry.get("tool_calls"@)
            &&& named.get("tool_call_id"@) == entry.get("tool_call_id"@)
        }),
{
    lemma_keys();
    requests_carry_every_message(req, i);
}

// ---------------------------------------------------------------------------
// Anthropic
// ---------------------------------------------------------------------------

/// Every message but those of the system is converted, in order.
pub proof fn anthropic_converts_one_by_one(a: Seq<JsonView>, b: Seq<JsonView>, n: int)
    requires
        0 <= n <= b.len(),
    ensures
        anthropic_upto(a + b, a.len() + n) == anthropic_upto(a, a.len() as int) + anthropic_upto(
            b,
            n,
        ),
        n == 1 ==> anthropic_upto(b, 1) == if b[0].str_at("role"@) == Some("system"@) {
            Seq::empty()
        } else {
            seq![anthropic_message(b[0])]
        },
    decreases n,
{
    if n > 0 {
        anthropic_converts_one_by_one(a, b, n - 1);
        assert((a + b)[a.len() + n - 1] == b[n - 1]);
        assert(anthropic_upto(a + b, a.len() + n) =~= anthropic_upto(a, a.len() as int)
            + anthropic_upto(b, n));
        if n == 1 {
            assert(anthropic_upto(b, 0) =~= Seq::<JsonView>::empty());
            assert(Seq::<JsonView>::empty().push(anthropic_message(b[0])) =~= seq![
                anthropic_message(b[0]),
            ]);
        }
    } else {
        lemma_anthropic_front(a, b, a.len() as int);
        assert(anthropic_upto(a, a.len() as int) + anthropic_upto(b, 0) =~= anthropic_upto(
            a,
            a.len() as int,
        ));
    }
}

proof fn lemma_anthropic_front(a: Seq<JsonView>, b: Seq<JsonView>, n: int)
    requires
        0 <= n <= a.len(),
    ensures
        anthropic_upto(a + b, n) == anthropic_upto(a, n),
    decreases n,
{
    if n > 0 {
        lemma_anthropic_front(a, b, n - 1);
        assert((a + b)[n - 1] == a[n - 1]);
    }
}

/// The pieces of a conversation: each result of a tool for itself, any other message as
/// a whole.
pub open spec fn pieces(messages: Seq<JsonView>) -> Seq<(bool, JsonView)>
    decreases messages.len(),
{
    if messages.len() == 0 {
        Seq::empty()
    } else {
        let m = messages.last();
        pieces(messages.drop_last()) + if only_tool_results(m) {
            m.array_at("content"@)->0.map_values(|b: JsonView| (true, b))
        } else {
            seq![(false, m)]
        }
    }
}

/// Merging neighbouring tool results changes no piece of the conversation and no order,
/// and a merged message is one of the user.
pub proof fn merging_loses_nothing(messages: Seq<JsonView>, n: int)
    requires
        0 <= n <= messages.len(),
    ensures
        pieces(merged_results(messages, n)) == pieces(messages.take(n)),
        merged_results(messages, n).len() <= n,
    decreases n,
{
    if n > 0 {
        merging_loses_nothing(messages, n - 1);
        let before = merged_results(messages, n - 1);
        let out = merged_results(messages, n);
        let msg = messages[n - 1];
        assert(messages.take(n).drop_last() =~= messages.take(n - 1));
        assert(messages.take(n).last() == msg);
        if only_tool_results(msg) && before.len() > 0 && only_tool_results(before.last()) {
            lemma_keys();
            let x = user_blocks(before.last())->0;
            let y = user_blocks(msg)->0;
            let joined = out.last();
            assert(out.drop_last() =~= before.drop_last());
            assert(joined.array_at("content"@) == Some(x + y));
            assert(joined.get("role"@) == before.last().get("role"@));
            assert(user_blocks(joined) == Some(x + y));
            assert forall|i: int| 0 <= i < (x + y).len() implies crate::compat_provider::is_tool_result(
                #[trigger] (x + y)[i],
            ) by {
                if i < x.len() {
                    assert((x + y)[i] == x[i]);
                } else {
                    assert((x + y)[i] == y[i - x.len()]);
                }
            }
            assert(only_tool_results(joined));
            let f = |b: JsonView| (true, b);
            assert((x + y).map_values(f) =~= x.map_values(f) + y.map_values(f));
            assert(pieces(before.drop_last()) + (x + y).map_values(f) =~= pieces(
                before.drop_last(),
            ) + x.map_values(f) + y.map_values(f));
        } else {
            assert(out.drop_last() =~= before);
            assert(out.last() == msg);
        }
    } else {
        assert(messages.take(0) =~= merged_results(messages, 0));
    }
}

/// A request for Anthropic has every piece of the conversation, in order, each message
/// but those of the system in the form that Anthropic knows.
pub proof fn anthropic_requests_hold_the_conversation(req: ChatRequest)
    requires
        req.provider == LlmProvider::Anthropic,
    ensures
        ({
            let list = provider_json(req).array_at("messages"@);
            let kept = anthropic_upto(request_messages(req), request_messages(req).len() as int);
            &&& list is Some
            &&& pieces(list->0) == pieces(kept)
        }),
{
    lemma_keys();
    let kept = anthropic_upto(request_messages(req), request_messages(req).len() as int);
    merging_loses_nothing(kept, kept.len() as int);
    assert(kept.take(kept.len() as int) =~= kept);
}

/// The result of a tool becomes a user message of one block that names the call it
/// answers and holds the result.
pub proof fn anthropic_results_answer_their_call(msg: JsonView)
    requires
        msg.str_at("role"@) == Some("tool"@),
        msg.str_at("tool_call_id"@) is Some,
        msg.str_at("content"@) is Some,
    ensures
        ({
            let out = anthropic_message(msg);
            let blocks = out.array_at("content"@)->0;
            &&& out.str_at("role"@) == Some("user"@)
            &&& out.array_at("content"@) is Some
            &&& blocks.len() == 1
            &&& blocks[0].str_at("type"@) == Some("tool_result"@)
            &&& blocks[0].str_at("tool_use_id"@) == msg.str_at("tool_call_id"@)
            &&& blocks[0].str_at("content"@) == msg.str_at("content"@)
        }),
{
    lemma_keys();
}

/// A result that is a list or an object is handed over as its text.
pub proof fn anthropic_results_are_texts(msg: JsonView)
    requires
        msg.str_at("role"@) == Some("tool"@),
        msg.get("content"@) is Some,
        msg.get("content"@)->0 is Object || msg.get("content"@)->0 is Array,
    ensures
        ({
            let blocks = anthropic_message(msg).array_at("content"@)->0;
            blocks.len() == 1 && blocks[0].str_at("content"@) == Some(
                json_written(msg.get("content"@)->0),
            )
        }),
{
    lemma_keys();
}

/// Whether `block` is the use of a tool that a call asks for: arguments that come as
/// text are handed over as the value that the text holds.
pub open spec fn is_use_of(block: JsonView, c: ToolCallView) -> bool {
    &&& block.str_at("type"@) == Some("tool_use"@)
    &&& block.str_at("id"@) == Some(c.id)
    &&& block.str_at("name"@) == Some(c.name)
    &&& !(c.arguments is Str) ==> block.get("input"@) == Some(c.arguments)
    &&& c.arguments is Str && crate::json_text::json_read(c.arguments->Str_0) is Value
        ==> block.get("input"@) == Some(crate::json_text::json_read(c.arguments->Str_0)->Value_0)
}

/// Whether the blocks from `from` on are the uses that the calls ask for, in order.
pub open spec fn are_uses_of(blocks: Seq<JsonView>, from: int, calls: Seq<ToolCallView>) -> bool {
    forall|i: int| 0 <= i < calls.len() ==> is_use_of(#[trigger] blocks[from + i], calls[i])
}

proof fn lemma_uses(list: Seq<JsonView>, calls: Seq<ToolCallView>, n: int)
    requires
        0 <= n <= calls.len(),
        tells_calls(Some(JsonView::Array(list)), Some(calls)),
    ensures
        crate::compat_provider::tool_use_blocks(list, n).len() == n,
        forall|i: int|
            0 <= i < n ==> is_use_of(
                #[trigger] crate::compat_provider::tool_use_blocks(list, n)[i],
                calls[i],
            ),
    decreases n,
{
    if n > 0 {
        lemma_uses(list, calls, n - 1);
        lemma_keys();
        assert(crate::request_laws::tells_call(list[n - 1], calls[n - 1]));
        let b = crate::compat_provider::tool_use_blocks(list, n)[n - 1];
        assert(is_use_of(b, calls[n - 1]));
    }
}

/// An assistant message keeps, in this order, its reasoning, its text and each of its
/// tool calls; without reasoning and calls it stays as it is.
pub proof fn anthropic_assistants_keep_everything(msg: JsonView, m: MessageView)
    requires
        tells_frame(msg, m),
        m.role == "assistant"@,
        msg.str_at("content"@) == Some(m.content),
    ensures
        ({
            let out = anthropic_message(msg);
            let thinks = m.reasoning_content is Some && m.reasoning_content->0.len() > 0;
            let says = m.content.len() > 0;
            let blocks = out.array_at("content"@)->0;
            let a: int = if thinks {
                1
            } else {
                0
            };
            let b: int = a + if says {
                1int
            } else {
                0int
            };
            let calls = match m.tool_calls {
                Some(c) => c,
                None => Seq::empty(),
            };
            &&& out.str_at("role"@) == Some("assistant"@)
            &&& m.tool_calls is None && !thinks ==> out == msg
            &&& m.tool_calls is Some || thinks ==> {
                &&& out.array_at("content"@) is Some
                &&& blocks.len() == b + calls.len()
                &&& thinks ==> blocks[0].str_at("type"@) == Some("thinking"@) && blocks[0].str_at(
                    "thinking"@,
                ) == m.reasoning_content
                &&& says ==> blocks[a].str_at("type"@) == Some("text"@) && blocks[a].str_at(
                    "text"@,
                ) == Some(m.content)
                &&& are_uses_of(blocks, b, calls)
            }
        }),
{
    lemma_keys();
    if m.tool_calls is Some {
        let list = msg.get("tool_calls"@)->0->Array_0;
        lemma_uses(list, m.tool_calls->0, m.tool_calls->0.len() as int);
        assert(msg.array_at("tool_calls"@) == Some(list));
    }
}

/// A user message keeps its text, or each of its blocks; an image given by a data URL
/// is handed over by its media type and payload.
pub proof fn anthropic_users_keep_everything(msg: JsonView, i: int)
    requires
        msg.str_at("role"@) == Some("user"@),
    ensures
        ({
            let out = anthropic_message(msg);
            let blocks = msg.array_at("content"@);
            &&& out.str_at("role"@) == Some("user"@)
            &&& blocks is None ==> out == msg
            &&& blocks is Some ==> {
                &&& out.array_at("content"@) is Some
                &&& out.array_at("content"@)->0.len() == blocks->0.len()
                &&& 0 <= i < blocks->0.len() ==> {
                    let b = blocks->0[i];
                    let c = out.array_at("content"@)->0[i];
                    let url = match b.get("image_url"@) {
                        Some(v) => v.str_at("url"@),
                        None => None,
                    };
                    if b.str_at("type"@) == Some("image_url"@) && url is Some && data_url_parts(
                        url->0,
                    ) is Some {
                        let p = data_url_parts(url->0)->0;
                        &&& c.str_at("type"@) == Some("image"@)
                        &&& c.get("source"@) is Some
                        &&& c.get("source"@)->0.str_at("type"@) == Some("base64"@)
                        &&& c.get("source"@)->0.str_at("media_type"@) == Some(p.0)
                        &&& c.get("source"@)->0.str_at("data"@) == Some(p.1)
                    } else {
                        c == b
                    }
                }
            }
        }),
{
    lemma_keys();
}

// ---------------------------------------------------------------------------
// The Responses API
// ---------------------------------------------------------------------------

/// A request for the Responses API has the items of the whole conversation.
pub proof fn responses_requests_hold_the_conversation(req: ChatRequest)
    requires
        req.provider == LlmProvider::OpenAiResponses,
    ensures
        provider_json(req).array_at("input"@) == Some(
            responses_upto(request_messages(req), request_messages(req).len() as int).items,
        ),
{
    lemma_keys();
}

/// Whether `item` is a function call.
pub open spec fn is_call_item(item: JsonView, c: ToolCallView) -> bool {
    &&& item.str_at("type"@) == Some("function_call"@)
    &&& c.id.len() > 0 ==> item.str_at("call_id"@) == Some(c.id)
    &&& item.str_at("call_id"@) is Some
    &&& item.str_at("name"@) == Some(c.name)
    &&& item.str_at("arguments"@) == Some(
        match c.arguments {
            JsonView::Str(s) => s,
            other => json_written(other),
        },
    )
}

/// Whether the items from `from` on are the calls, in order.
pub open spec fn are_call_items(items: Seq<JsonView>, from: int, calls: Seq<ToolCallView>) -> bool {
    forall|i: int| 0 <= i < calls.len() ==> is_call_item(#[trigger] items[from + i], calls[i])
}

proof fn lemma_call_items(
    st: ResponsesState,
    list: Seq<JsonView>,
    calls: Seq<ToolCallView>,
    n: int,
)
    requires
        0 <= n <= calls.len(),
        tells_calls(Some(JsonView::Array(list)), Some(calls)),
    ensures
        ({
            let out = crate::compat_provider::with_calls(st, list, n);
            &&& out.items.len() == st.items.len() + n
            &&& out.pending.len() == st.pending.len() + n
            &&& forall|i: int|
                0 <= i < st.items.len() ==> #[trigger] out.items[i] == st.items[i]
            &&& forall|i: int|
                0 <= i < st.pending.len() ==> #[trigger] out.pending[i] == st.pending[i]
            &&& forall|i: int|
                0 <= i < n ==> is_call_item(#[trigger] out.items[st.items.len() + i], calls[i])
            &&& forall|i: int|
                0 <= i < n ==> out.items[st.items.len() + i].str_at("call_id"@) == Some(
                    #[trigger] out.pending[st.pending.len() + i],
                )
        }),
    decreases n,
{
    if n > 0 {
        lemma_call_items(st, list, calls, n - 1);
        lemma_keys();
        let before = crate::compat_provider::with_calls(st, list, n - 1);
        let out = crate::compat_provider::with_calls(st, list, n);
        assert(crate::request_laws::tells_call(list[n - 1], calls[n - 1]));
        let item = out.items[st.items.len() + n - 1];
        assert(item == out.items.last());
        assert(is_call_item(item, calls[n - 1]));
        assert forall|i: int| 0 <= i < n implies is_call_item(
            #[trigger] out.items[st.items.len() + i],
            calls[i],
        ) by {
            if i < n - 1 {
                assert(out.items[st.items.len() + i] == before.items[st.items.len() + i]);
            }
        }
        assert forall|i: int| 0 <= i < n implies out.items[st.items.len() + i].str_at("call_id"@)
            == Some(#[trigger] out.pending[st.pending.len() + i]) by {
            if i < n - 1 {
                assert(out.items[st.items.len() + i] == before.items[st.items.len() + i]);
                assert(out.pending[st.pending.len() + i] == before.pending[st.pending.len() + i]);
            }
        }
    }
}

/// Whether `item` hands over a block of a user message.
pub open spec fn hands_over(item: JsonView, block: JsonView) -> bool {
    let kind = block.str_at("type"@);
    &&& kind == Some("text"@) && block.str_at("text"@) is Some ==> item.str_at("type"@) == Some(
        "input_text"@,
    ) && item.str_at("text"@) == block.str_at("text"@)
    &&& kind == Some("image_url"@) && block.get("image_url"@) is Some && block.get(
        "image_url"@,
    )->0.str_at("url"@) is Some ==> item.str_at("type"@) == Some("input_image"@) && item.str_at(
        "image_url"@,
    ) == block.get("image_url"@)->0.str_at("url"@)
    &&& kind == Some("document"@) && block.get("source"@) is Some && block.get("source"@)->0.str_at(
        "data"@,
    ) is Some ==> item.str_at("type"@) == Some("input_file"@) && item.str_at("file_data"@)
        == block.get("source"@)->0.str_at("data"@)
    &&& kind == Some("input_audio"@) ==> item == block
}

/// A message adds its items behind those of the messages before it: a user message one
/// with its text or its blocks, an assistant message its text and each of its calls, the
/// result of a tool its output, and a system message none.
pub proof fn responses_messages_keep_everything(st: ResponsesState, msg: JsonView, m: MessageView)
    requires
        tells_frame(msg, m),
    ensures
        ({
            let out = with_message(st, msg);
            let old_len = st.items.len() as int;
            &&& out.items.len() >= old_len
            &&& forall|i: int| 0 <= i < old_len ==> #[trigger] out.items[i] == st.items[i]
            &&& m.role == "system"@ ==> out == st
            &&& m.role == "user"@ && msg.str_at("content"@) is Some ==> {
                let item = out.items[old_len];
                &&& out.items.len() == old_len + 1
                &&& item.str_at("role"@) == Some("user"@)
                &&& item.array_at("content"@) is Some
                &&& item.array_at("content"@)->0.len() == 1
                &&& item.array_at("content"@)->0[0].str_at("type"@) == Some("input_text"@)
                &&& item.array_at("content"@)->0[0].str_at("text"@) == msg.str_at("content"@)
            }
            &&& m.role == "user"@ && msg.array_at("content"@) is Some && msg.array_at(
                "content"@,
            )->0.len() > 0 ==> {
                let item = out.items[old_len];
                let blocks = msg.array_at("content"@)->0;
                &&& out.items.len() == old_len + 1
                &&& item.str_at("role"@) == Some("user"@)
                &&& item.array_at("content"@) is Some
                &&& item.array_at("content"@)->0.len() == blocks.len()
                &&& forall|i: int|
                    0 <= i < blocks.len() ==> hands_over(
                        #[trigger] item.array_at("content"@)->0[i],
                        blocks[i],
                    )
            }
            &&& m.role == "assistant"@ && msg.str_at("content"@) == Some(m.content) ==> {
                let calls = match m.tool_calls {
                    Some(c) => c,
                    None => Seq::empty(),
                };
                let k: int = if m.content.len() > 0 {
                    1
                } else {
                    0
                };
                &&& out.items.len() == old_len + k + calls.len()
                &&& k == 1 ==> {
                    let item = out.items[old_len];
                    &&& item.str_at("role"@) == Some("assistant"@)
                    &&& item.array_at("content"@) is Some
                    &&& item.array_at("content"@)->0.len() == 1
                    &&& item.array_at("content"@)->0[0].str_at("type"@) == Some("output_text"@)
                    &&& item.array_at("content"@)->0[0].str_at("text"@) == Some(m.content)
                }
                &&& are_call_items(out.items, old_len + k, calls)
            }
            &&& m.role == "tool"@ ==> {
                let item = out.items[old_len];
                &&& out.items.len() == old_len + 1
                &&& item.str_at("type"@) == Some("function_call_output"@)
                &&& m.tool_call_id is Some && m.tool_call_id->0.len() > 0 ==> item.str_at(
                    "call_id"@,
                ) == m.tool_call_id
                &&& (m.tool_call_id is None || m.tool_call_id->0.len() == 0) && st.pending.len() > 0
                    ==> item.str_at("call_id"@) == Some(st.pending[0])
                &&& msg.str_at("content"@) is Some ==> item.str_at("output"@) == msg.str_at(
                    "content"@,
                )
            }
        }),
{
    lemma_keys();
    if m.role == "assistant"@ {
        let said = match crate::compat_provider::filled(msg.str_at("content"@)) {
            Some(text) => ResponsesState {
                items: st.items.push(
                    crate::compat_provider::role_item(
                        "assistant"@,
                        seq![crate::compat_provider::typed_text("output_text"@, text)],
                    ),
                ),
                ..st
            },
            None => st,
        };
        if m.tool_calls is Some {
            let list = msg.get("tool_calls"@)->0->Array_0;
            assert(msg.array_at("tool_calls"@) == Some(list));
            lemma_call_items(said, list, m.tool_calls->0, m.tool_calls->0.len() as int);
            let out = with_message(st, msg);
            if m.content.len() > 0 && msg.str_at("content"@) == Some(m.content) {
                assert(out.items[st.items.len() as int] == said.items[st.items.len() as int]);
            }
            assert forall|i: int| 0 <= i < st.items.len() implies #[trigger] out.items[i]
                == st.items[i] by {
                assert(out.items[i] == said.items[i]);
            }
        }
    } else if m.role == "user"@ && msg.array_at("content"@) is Some {
        let blocks = msg.array_at("content"@)->0;
        let out = with_message(st, msg);
        if blocks.len() > 0 {
            let item = out.items[st.items.len() as int];
            assert(item.array_at("content"@) is Some);
            assert forall|i: int| 0 <= i < blocks.len() implies hands_over(
                #[trigger] item.array_at("content"@)->0[i],
                blocks[i],
            ) by {
                assert(item.array_at("content"@)->0[i] == crate::compat_provider::responses_block(
                    blocks[i],
                ));
            }
        }
    }
}

} // verus!
