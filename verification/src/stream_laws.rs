//! Laws of stream events: what each provider's events come to, how tool calls are
//! put together from fragments, and how tokens are counted.

use vstd::prelude::*;
use vstd::string::*;

use crate::compat_provider::{
    anth_index_after, usage_after, usage_of, LlmProvider,
};
use crate::compat_resilience::{merged_calls, recovered_calls};
use crate::json_keys::{group_members, lemma_keys};
use crate::json_model::{group_json, JsonView};
use crate::model::{
    CompletionTokensDetails, PromptTokensDetails, ToolCallView, Usage,
};
use crate::reasoning::{after_event, after_last_event, event_payload, standard_payload, StreamView};
use crate::reasoning_laws::{has_reasoning, part_of, part_text};

verus! {

broadcast use {group_json, group_members};

// ---------------------------------------------------------------------------
// What an event carries
// ---------------------------------------------------------------------------

/// Whether a tool call of an event has its name and arguments where they belong.
pub open spec fn is_wrapped(call: JsonView) -> bool {
    call.get("function"@) is Some || (call.get("name"@) is None && call.get("arguments"@) is None)
}

/// Whether all tool calls of a message part do.
pub open spec fn all_wrapped(part: JsonView) -> bool {
    part.array_at("tool_calls"@) is Some ==> forall|i: int|
        0 <= i < part.array_at("tool_calls"@)->0.len() ==> is_wrapped(
            #[trigger] part.array_at("tool_calls"@)->0[i],
        )
}

/// A chunk of the Chat Completions API carries the delta of its first choice.
pub proof fn chunks_carry_their_delta(st: StreamView, provider: LlmProvider, event: JsonView)
    requires
        provider == LlmProvider::OpenAi || provider == LlmProvider::Ollama,
        event.get("message"@) is None,
        event.array_at("choices"@) is Some,
        event.array_at("choices"@)->0.len() > 0,
        event.array_at("choices"@)->0[0].get("message"@) is None,
        event.array_at("choices"@)->0[0].get("delta"@) is Some,
        all_wrapped(event.array_at("choices"@)->0[0].get("delta"@)->0),
    ensures
        part_of(st, provider, event) == event.array_at("choices"@)->0[0].get("delta"@)->0,
{
    lemma_keys();
}

/// A chunk of Ollama carries its message.
pub proof fn chunks_carry_their_message(st: StreamView, provider: LlmProvider, event: JsonView)
    requires
        provider == LlmProvider::OpenAi || provider == LlmProvider::Ollama,
        event.get("message"@) is Some,
        all_wrapped(event.get("message"@)->0),
        event.get("choices"@) is None,
    ensures
        part_of(st, provider, event) == event.get("message"@)->0,
{
    lemma_keys();
}

/// A message part that has nothing but a content.
pub open spec fn says_only(part: JsonView, content: Seq<char>) -> bool {
    &&& part_text(part, "content"@) == content
    &&& !has_reasoning(part)
    &&& part.array_at("tool_calls"@) is None
}

/// A message part that has nothing but reasoning.
pub open spec fn thinks_only(part: JsonView, reasoning: Seq<char>) -> bool {
    &&& part_text(part, "content"@) == Seq::<char>::empty()
    &&& part.get("reasoning_content"@) == Some(JsonView::Str(reasoning))
    &&& part.array_at("tool_calls"@) is None
}

/// A message part that has nothing but one fragment of a tool call.
pub open spec fn calls_only(
    part: JsonView,
    index: int,
    id: Option<Seq<char>>,
    name: Option<Seq<char>>,
    arguments: JsonView,
) -> bool {
    let calls = part.array_at("tool_calls"@)->0;
    &&& part_text(part, "content"@) == Seq::<char>::empty()
    &&& !has_reasoning(part)
    &&& part.array_at("tool_calls"@) is Some
    &&& calls.len() == 1
    &&& calls[0].get("index"@) == Some(JsonView::Int(index))
    &&& calls[0].str_at("id"@) == id
    &&& calls[0].get("thought_signature"@) is None
    &&& calls[0].get("function"@) is Some
    &&& calls[0].get("function"@)->0.str_at("name"@) == name
    &&& calls[0].get("function"@)->0.get("arguments"@) == Some(arguments)
}

/// Anthropic's text, thinking and argument fragments carry just these.
pub proof fn anthropic_fragments_carry_their_text(st: StreamView, event: JsonView, s: Seq<char>)
    requires
        event.str_at("type"@) == Some("content_block_delta"@),
        event.get("delta"@) is Some,
    ensures
        ({
            let d = event.get("delta"@)->0;
            let part = part_of(st, LlmProvider::Anthropic, event);
            &&& (d.str_at("type"@) == Some("text_delta"@) && d.str_at("text"@) == Some(s))
                ==> says_only(part, s)
            &&& (d.str_at("type"@) == Some("thinking_delta"@) && d.str_at("thinking"@) == Some(s))
                ==> thinks_only(part, s)
            &&& (d.str_at("type"@) == Some("input_json_delta"@) && d.str_at("partial_json"@) == Some(
                s,
            )) ==> calls_only(
                part,
                match event.get("index"@) {
                    Some(JsonView::Int(n)) if 0 <= n <= usize::MAX => n,
                    Some(JsonView::Int(n)) if 0 <= n <= u64::MAX => (n as usize) as int,
                    _ => st.tool_index as int,
                },
                None,
                None,
                JsonView::Str(s),
            )
        }),
{
    lemma_keys();
}

/// Where Anthropic starts a tool use, a tool call begins at the position of its block,
/// with its identifier and name; later fragments that name no position belong to it.
pub proof fn anthropic_tool_uses_start_a_call(st: StreamView, event: JsonView, n: usize)
    requires
        event.str_at("type"@) == Some("content_block_start"@),
        event.get("index"@) == Some(JsonView::Int(n as int)),
        event.get("content_block"@) is Some,
        event.get("content_block"@)->0.str_at("type"@) == Some("tool_use"@),
        event.get("content_block"@)->0.str_at("id"@) is Some,
        event.get("content_block"@)->0.str_at("name"@) is Some,
    ensures
        calls_only(
            part_of(st, LlmProvider::Anthropic, event),
            n as int,
            event.get("content_block"@)->0.str_at("id"@),
            event.get("content_block"@)->0.str_at("name"@),
            JsonView::Str(""@),
        ),
        anth_index_after(event, st.tool_index) == n,
{
    lemma_keys();
}

/// The Responses API's text, refusal and reasoning fragments carry just these.
pub proof fn responses_fragments_carry_their_text(st: StreamView, event: JsonView, s: Seq<char>)
    requires
        event.str_at("delta"@) == Some(s),
    ensures
        ({
            let part = part_of(st, LlmProvider::OpenAiResponses, event);
            let kind = event.str_at("type"@);
            &&& (kind == Some("response.output_text.delta"@) || kind == Some(
                "response.refusal.delta"@,
            )) ==> says_only(part, s)
            &&& (kind == Some("response.reasoning_text.delta"@) || kind == Some(
                "response.reasoning_summary_text.delta"@,
            )) ==> thinks_only(part, s)
        }),
{
    lemma_keys();
}

/// A function call of the Responses API starts at its place in the output with its
/// call identifier and name; once it is done its arguments follow, whole.
pub proof fn responses_items_carry_a_call(st: StreamView, event: JsonView, n: u64)
    requires
        event.get("output_index"@) == Some(JsonView::Int(n as int)),
        event.get("item"@) is Some,
        event.get("item"@)->0.str_at("type"@) == Some("function_call"@),
        event.get("item"@)->0.str_at("call_id"@) is Some,
        event.get("item"@)->0.str_at("name"@) is Some,
        event.get("item"@)->0.str_at("arguments"@) is Some,
    ensures
        ({
            let item = event.get("item"@)->0;
            let part = part_of(st, LlmProvider::OpenAiResponses, event);
            &&& event.str_at("type"@) == Some("response.output_item.added"@) ==> calls_only(
                part,
                n as int,
                item.str_at("call_id"@),
                item.str_at("name"@),
                JsonView::Str(""@),
            )
            &&& event.str_at("type"@) == Some("response.output_item.done"@) ==> calls_only(
                part,
                n as int,
                None,
                None,
                JsonView::Str(item.str_at("arguments"@)->0),
            )
        }),
{
    lemma_keys();
}

/// Events of Anthropic and of the Responses API of any other type carry no part of the
/// message.
pub proof fn other_events_carry_nothing(st: StreamView, provider: LlmProvider, event: JsonView)
    requires
        provider == LlmProvider::Anthropic || provider == LlmProvider::OpenAiResponses,
        ({
            let kind = event.str_at("type"@);
            &&& kind != Some("content_block_delta"@) && kind != Some("content_block_start"@)
            &&& kind != Some("response.output_text.delta"@) && kind != Some(
                "response.refusal.delta"@,
            )
            &&& kind != Some("response.reasoning_text.delta"@) && kind != Some(
                "response.reasoning_summary_text.delta"@,
            )
            &&& kind != Some("response.output_item.added"@) && kind != Some(
                "response.output_item.done"@,
            )
        }),
    ensures
        says_only(part_of(st, provider, event), Seq::empty()),
{
    lemma_keys();
}

// ---------------------------------------------------------------------------
// What is shown
// ---------------------------------------------------------------------------

/// What was shown stays, and an event's content is the last thing shown of it; where
/// there is none, its reasoning is.
pub proof fn texts_are_shown_as_they_come(
    st: StreamView,
    provider: LlmProvider,
    verbose: u8,
    raw: Seq<char>,
    event: JsonView,
)
    ensures
        ({
            let part = part_of(st, provider, event);
            let next = after_event(st, provider, verbose, raw, event);
            let said = part_text(part, "content"@);
            let thought = part.str_at("reasoning_content"@);
            &&& st.shown.is_prefix_of(next.shown)
            &&& said.len() > 0 ==> said.is_suffix_of(next.shown) && next.started && !next.thinking
            &&& said.len() == 0 && thought is Some ==> thought->0.is_suffix_of(next.shown)
                && next.thinking
        }),
{
    let part = part_of(st, provider, event);
    let next = after_event(st, provider, verbose, raw, event);
    assert(next.shown.take(st.shown.len() as int) =~= st.shown);
    let said = part_text(part, "content"@);
    if said.len() > 0 {
        assert(next.shown.skip(next.shown.len() - said.len()) =~= said);
        assert(next.shown.subrange(next.shown.len() - said.len(), next.shown.len() as int) =~= said);
    } else if part.str_at("reasoning_content"@) is Some {
        let thought = part.str_at("reasoning_content"@)->0;
        assert(next.shown.subrange(next.shown.len() - thought.len(), next.shown.len() as int)
            =~= thought);
    }
}

// ---------------------------------------------------------------------------
// Tool calls
// ---------------------------------------------------------------------------

/// The text of a fragment's member; nothing where there is none.
pub open spec fn fragment(j: JsonView, key: Seq<char>) -> Seq<char> {
    match j.get(key) {
        Some(JsonView::Str(s)) => s,
        _ => Seq::empty(),
    }
}

/// A fragment adds its identifier, its name and the text of its arguments to the
/// call at its position and touches no other call; the list grows to that position,
/// by calls of which nothing has arrived.
pub proof fn fragments_belong_to_their_position(
    calls: Seq<ToolCallView>,
    delta: JsonView,
    n: usize,
    default_index: usize,
    with_signature: bool,
)
    requires
        n < usize::MAX,
        delta.get("index"@) == Some(JsonView::Int(n as int)) || (delta.get("index"@) is None
            && default_index == n),
        delta.get("function"@) is Some,
        delta.get("function"@)->0.str_at("arguments"@) is Some,
        n < calls.len() ==> calls[n as int].arguments is Str,
    ensures
        ({
            let out = merged_calls(calls, seq![delta], default_index, with_signature, 1);
            let func = delta.get("function"@)->0;
            let was = if n < calls.len() {
                calls[n as int]
            } else {
                ToolCallView {
                    id: Seq::empty(),
                    tool_type: "function"@,
                    name: Seq::empty(),
                    arguments: JsonView::Str(Seq::empty()),
                    thought_signature: None,
                }
            };
            &&& out.len() == if n < calls.len() {
                calls.len() as int
            } else {
                n + 1
            }
            &&& out[n as int].id == was.id + fragment(delta, "id"@)
            &&& out[n as int].name == was.name + fragment(func, "name"@)
            &&& out[n as int].arguments == JsonView::Str(
                was.arguments->Str_0 + fragment(func, "arguments"@),
            )
            &&& out[n as int].tool_type == was.tool_type
            &&& out[n as int].thought_signature == if with_signature && delta.str_at(
                "thought_signature"@,
            ) is Some {
                delta.str_at("thought_signature"@)
            } else {
                was.thought_signature
            }
            &&& forall|k: int|
                0 <= k < calls.len() && k != n ==> #[trigger] out[k] == calls[k]
            &&& forall|k: int|
                calls.len() <= k < n ==> (#[trigger] out[k]).id.len() == 0 && out[k].name.len() == 0
                    && out[k].arguments == JsonView::Str(Seq::empty())
        }),
{
    let d = seq![delta];
    assert(d[0] == delta);
    let func = delta.get("function"@)->0;
    let out = merged_calls(calls, d, default_index, with_signature, 1);
    assert(merged_calls(calls, d, default_index, with_signature, 0) == calls);
    if n < calls.len() {
        let was = calls[n as int];
        assert(was.id + Seq::<char>::empty() =~= was.id);
        assert(was.name + Seq::<char>::empty() =~= was.name);
    } else {
        assert(Seq::<char>::empty() + fragment(delta, "id"@) =~= fragment(delta, "id"@));
        assert(Seq::<char>::empty() + fragment(func, "name"@) =~= fragment(func, "name"@));
    }
}

/// Arguments that come as a value, not as text, are taken as they are.
pub proof fn structured_arguments_are_taken_whole(
    calls: Seq<ToolCallView>,
    delta: JsonView,
    n: usize,
    with_signature: bool,
)
    requires
        n < usize::MAX,
        delta.get("index"@) == Some(JsonView::Int(n as int)),
        delta.get("function"@) is Some,
        delta.get("function"@)->0.get("arguments"@) is Some,
        !(delta.get("function"@)->0.get("arguments"@)->0 is Str),
    ensures
        merged_calls(calls, seq![delta], 0, with_signature, 1).len() > n,
        merged_calls(calls, seq![delta], 0, with_signature, 1)[n as int].arguments == delta.get(
            "function"@,
        )->0.get("arguments"@)->0,
{
    let d = seq![delta];
    assert(d[0] == delta);
    assert(merged_calls(calls, d, 0, with_signature, 0) == calls);
}

/// Fragments are taken one after the other, wherever their list is cut.
pub proof fn fragments_are_taken_in_order(
    calls: Seq<ToolCallView>,
    a: Seq<JsonView>,
    b: Seq<JsonView>,
    default_index: usize,
    with_signature: bool,
)
    ensures
        merged_calls(calls, a + b, default_index, with_signature, (a + b).len() as int)
            == merged_calls(
            merged_calls(calls, a, default_index, with_signature, a.len() as int),
            b,
            default_index,
            with_signature,
            b.len() as int,
        ),
{
    lemma_cut(calls, a, b, default_index, with_signature, b.len() as int);
}

proof fn lemma_cut(
    calls: Seq<ToolCallView>,
    a: Seq<JsonView>,
    b: Seq<JsonView>,
    default_index: usize,
    with_signature: bool,
    n: int,
)
    requires
        0 <= n <= b.len(),
    ensures
        merged_calls(calls, a + b, default_index, with_signature, a.len() + n) == merged_calls(
            merged_calls(calls, a, default_index, with_signature, a.len() as int),
            b,
            default_index,
            with_signature,
            n,
        ),
    decreases n,
{
    if n > 0 {
        lemma_cut(calls, a, b, default_index, with_signature, n - 1);
        assert((a + b)[a.len() + n - 1] == b[n - 1]);
    } else {
        lemma_cut_front(calls, a, b, default_index, with_signature, a.len() as int);
    }
}

proof fn lemma_cut_front(
    calls: Seq<ToolCallView>,
    a: Seq<JsonView>,
    b: Seq<JsonView>,
    default_index: usize,
    with_signature: bool,
    n: int,
)
    requires
        0 <= n <= a.len(),
    ensures
        merged_calls(calls, a + b, default_index, with_signature, n) == merged_calls(
            calls,
            a,
            default_index,
            with_signature,
            n,
        ),
    decreases n,
{
    if n > 0 {
        lemma_cut_front(calls, a, b, default_index, with_signature, n - 1);
        assert((a + b)[n - 1] == a[n - 1]);
    }
}

/// An event adds its fragments to the calls read so far; without any, the calls stay
/// as they are. A last event without a position starts a new call.
pub proof fn events_add_their_fragments(
    st: StreamView,
    provider: LlmProvider,
    verbose: u8,
    raw: Seq<char>,
    event: JsonView,
)
    ensures
        ({
            let part = part_of(st, provider, event);
            let next = after_event(st, provider, verbose, raw, event);
            let last = after_last_event(st, provider, event);
            let before = match st.calls {
                Some(c) => c,
                None => Seq::empty(),
            };
            match part.array_at("tool_calls"@) {
                None => next.calls == st.calls && last.calls == st.calls,
                Some(deltas) => {
                    &&& next.calls == Some(
                        merged_calls(before, deltas, 0, true, deltas.len() as int),
                    )
                    &&& last.calls == Some(
                        merged_calls(
                            before,
                            deltas,
                            before.len() as usize,
                            false,
                            deltas.len() as int,
                        ),
                    )
                },
            }
        }),
{
}

/// A call that came in whole, with a name, an identifier and readable arguments, is
/// kept as it came.
pub proof fn whole_calls_are_kept(calls: Seq<ToolCallView>, defs: Seq<JsonView>)
    requires
        forall|i: int|
            0 <= i < calls.len() ==> (#[trigger] calls[i]).name.len() > 0 && calls[i].id.len() > 0
                && crate::compat_resilience::argument_reading(calls[i].arguments) is Value,
    ensures
        recovered_calls(calls, defs) == calls,
{
    let readings = crate::compat_resilience::argument_readings(calls);
    lemma_whole_filled(calls, readings, defs, calls.len() as int);
    assert(calls.take(calls.len() as int) =~= calls);
    lemma_whole_usable(calls, readings, calls.len() as int);
}

proof fn lemma_whole_filled(
    calls: Seq<ToolCallView>,
    readings: Seq<crate::json_text::Reading>,
    defs: Seq<JsonView>,
    n: int,
)
    requires
        0 <= n <= calls.len(),
        forall|i: int|
            0 <= i < calls.len() ==> (#[trigger] calls[i]).name.len() > 0 && calls[i].id.len() > 0,
    ensures
        crate::compat_resilience::filled_calls(calls, readings, defs, n) == calls.take(n),
    decreases n,
{
    if n > 0 {
        lemma_whole_filled(calls, readings, defs, n - 1);
        assert(calls.take(n) =~= calls.take(n - 1).push(calls[n - 1]));
    } else {
        assert(calls.take(0) =~= Seq::<ToolCallView>::empty());
    }
}

proof fn lemma_whole_usable(
    calls: Seq<ToolCallView>,
    readings: Seq<crate::json_text::Reading>,
    n: int,
)
    requires
        0 <= n <= calls.len(),
        readings.len() == calls.len(),
        forall|i: int|
            0 <= i < calls.len() ==> (#[trigger] calls[i]).name.len() > 0 && readings[i] is Value,
    ensures
        crate::compat_resilience::usable_calls(calls, readings, n) == calls.take(n),
    decreases n,
{
    if n > 0 {
        lemma_whole_usable(calls, readings, n - 1);
        assert(calls.take(n) =~= calls.take(n - 1).push(calls[n - 1]));
    } else {
        assert(calls.take(0) =~= Seq::<ToolCallView>::empty());
    }
}

// ---------------------------------------------------------------------------
// Tokens
// ---------------------------------------------------------------------------

/// An event without a usage and not the last of Ollama leaves the counts as they are.
pub proof fn other_events_count_nothing(current: Option<Usage>, payload: JsonView)
    requires
        payload.get("usage"@) is None,
        payload.get("done"@) != Some(JsonView::Bool(true)),
    ensures
        usage_after(current, payload) == current,
{
}

/// The counts of a chunk's usage are taken as they are; further ones are added, and a
/// breakdown is not lost.
pub proof fn usages_add_up(
    current: Option<Usage>,
    payload: JsonView,
    prompt: u32,
    completion: u32,
)
    requires
        payload.get("usage"@) is Some,
        payload.get("usage"@)->0.get("prompt_tokens"@) == Some(JsonView::Int(prompt as int)),
        payload.get("usage"@)->0.get("completion_tokens"@) == Some(
            JsonView::Int(completion as int),
        ),
        payload.get("usage"@)->0.get("prompt_tokens_details"@) is None,
        payload.get("usage"@)->0.get("completion_tokens_details"@) is None,
        current is Some ==> current->0.prompt_tokens + prompt <= u32::MAX
            && current->0.completion_tokens + completion <= u32::MAX,
    ensures
        ({
            let out = usage_after(current, payload);
            &&& out is Some
            &&& current is None ==> out->0.prompt_tokens == prompt && out->0.completion_tokens
                == completion && out->0.prompt_tokens_details is None
                && out->0.completion_tokens_details is None
            &&& current is Some ==> out->0.prompt_tokens == current->0.prompt_tokens + prompt
                && out->0.completion_tokens == current->0.completion_tokens + completion
                && out->0.prompt_tokens_details == current->0.prompt_tokens_details
                && out->0.completion_tokens_details == current->0.completion_tokens_details
        }),
{
}

/// The breakdowns of a usage are read member by member.
pub proof fn breakdowns_are_read(
    usage: JsonView,
    cached: u32,
    written: u32,
    audio: u32,
    reasoning: u32,
)
    requires
        usage is Object,
        usage.get("prompt_tokens"@) is None,
        usage.get("completion_tokens"@) is None,
        usage.get("prompt_tokens_details"@) is Some,
        usage.get("prompt_tokens_details"@)->0.get("cached_tokens"@) == Some(
            JsonView::Int(cached as int),
        ),
        usage.get("prompt_tokens_details"@)->0.get("cache_creation_tokens"@) == Some(
            JsonView::Int(written as int),
        ),
        usage.get("prompt_tokens_details"@)->0.get("audio_tokens"@) == Some(
            JsonView::Int(audio as int),
        ),
        usage.get("completion_tokens_details"@) is Some,
        usage.get("completion_tokens_details"@)->0.get("reasoning_tokens"@) == Some(
            JsonView::Int(reasoning as int),
        ),
    ensures
        ({
            let u = usage_of(usage);
            &&& u is Some
            &&& u->0.prompt_tokens == 0 && u->0.completion_tokens == 0
            &&& u->0.prompt_tokens_details == Some(
                PromptTokensDetails {
                    cached_tokens: cached,
                    cache_creation_tokens: written,
                    audio_tokens: audio,
                },
            )
            &&& u->0.completion_tokens_details == Some(
                CompletionTokensDetails { reasoning_tokens: reasoning },
            )
        }),
{
}

/// The last event of Ollama gives the counts, as the two evaluation counts.
pub proof fn ollama_counts_at_the_end(
    current: Option<Usage>,
    event: JsonView,
    prompt: u32,
    completion: u32,
)
    requires
        event.get("usage"@) is None,
        event.get("done"@) == Some(JsonView::Bool(true)),
        event.get("prompt_eval_count"@) == Some(JsonView::Int(prompt as int)),
        event.get("eval_count"@) == Some(JsonView::Int(completion as int)),
        prompt > 0 || completion > 0,
    ensures
        usage_after(current, event) is Some,
        usage_after(current, event)->0.prompt_tokens == prompt,
        usage_after(current, event)->0.completion_tokens == completion,
{
}

/// The payload of an event as its tokens are counted.
pub open spec fn counted(st: StreamView, provider: LlmProvider, event: JsonView) -> JsonView {
    standard_payload(event_payload(provider, event, st.tool_index))
}

/// Anthropic counts the prompt where the message starts and the completion where it
/// ends: together they are the two counts of the call, with what the cache held and
/// what was written to it.
pub proof fn anthropic_counts_in_two_parts(
    st: StreamView,
    start: JsonView,
    end: JsonView,
    input: u32,
    read: u32,
    written: u32,
    output: u32,
)
    requires
        start.str_at("type"@) == Some("message_start"@),
        start.get("message"@) is Some,
        start.get("message"@)->0.get("usage"@) is Some,
        start.get("message"@)->0.get("usage"@)->0.get("input_tokens"@) == Some(
            JsonView::Int(input as int),
        ),
        start.get("message"@)->0.get("usage"@)->0.get("cache_read_input_tokens"@) == Some(
            JsonView::Int(read as int),
        ),
        start.get("message"@)->0.get("usage"@)->0.get("cache_creation_input_tokens"@) == Some(
            JsonView::Int(written as int),
        ),
        end.str_at("type"@) == Some("message_delta"@),
        end.get("usage"@) is Some,
        end.get("usage"@)->0.get("output_tokens"@) == Some(JsonView::Int(output as int)),
    ensures
        ({
            let first = usage_after(None, counted(st, LlmProvider::Anthropic, start));
            let out = usage_after(first, counted(st, LlmProvider::Anthropic, end));
            &&& first is Some
            &&& out is Some
            &&& out->0.prompt_tokens == input
            &&& out->0.completion_tokens == output
            &&& out->0.prompt_tokens_details == Some(
                PromptTokensDetails {
                    cached_tokens: read,
                    cache_creation_tokens: written,
                    audio_tokens: 0,
                },
            )
        }),
{
    lemma_keys();
    let first = usage_after(None, counted(st, LlmProvider::Anthropic, start));
    let a = counted(st, LlmProvider::Anthropic, start);
    assert(a.get("message"@) is None && a.get("choices"@) is None && a.get("usage"@) is Some);
    let u = a.get("usage"@)->0;
    assert(u.get("prompt_tokens"@) == Some(JsonView::Int(input as int)));
    assert(u.get("completion_tokens"@) == Some(JsonView::Int(0)));
    assert(u.get("completion_tokens_details"@) is None);
    assert(u.get("prompt_tokens_details"@) is Some);
    let d = u.get("prompt_tokens_details"@)->0;
    assert(d.get("cached_tokens"@) == Some(JsonView::Int(read as int)));
    assert(d.get("cache_creation_tokens"@) == Some(JsonView::Int(written as int)));
    assert(d.get("audio_tokens"@) is None);
    assert(usage_of(u) is Some);
    assert(first == usage_of(u));
    let b = counted(st, LlmProvider::Anthropic, end);
    assert(b.get("message"@) is None && b.get("choices"@) is None && b.get("usage"@) is Some);
    let v = b.get("usage"@)->0;
    assert(v.get("prompt_tokens"@) == Some(JsonView::Int(0)));
    assert(v.get("completion_tokens"@) == Some(JsonView::Int(output as int)));
    assert(v.get("prompt_tokens_details"@) is None);
    assert(v.get("completion_tokens_details"@) is None);
}

/// The Responses API counts at the end of the response, with what the cache held and
/// what went into reasoning.
pub proof fn responses_count_at_the_end(
    st: StreamView,
    event: JsonView,
    input: u32,
    output: u32,
    read: u32,
    reasoning: u32,
)
    requires
        event.str_at("type"@) == Some("response.completed"@) || event.str_at("type"@) == Some(
            "response.incomplete"@,
        ),
        event.get("response"@) is Some,
        event.get("response"@)->0.get("usage"@) is Some,
        ({
            let u = event.get("response"@)->0.get("usage"@)->0;
            &&& u.get("input_tokens"@) == Some(JsonView::Int(input as int))
            &&& u.get("output_tokens"@) == Some(JsonView::Int(output as int))
            &&& u.get("input_tokens_details"@) is Some
            &&& u.get("input_tokens_details"@)->0.get("cached_tokens"@) == Some(
                JsonView::Int(read as int),
            )
            &&& u.get("output_tokens_details"@) is Some
            &&& u.get("output_tokens_details"@)->0.get("reasoning_tokens"@) == Some(
                JsonView::Int(reasoning as int),
            )
        }),
    ensures
        ({
            let out = usage_after(None, counted(st, LlmProvider::OpenAiResponses, event));
            &&& out is Some
            &&& out->0.prompt_tokens == input
            &&& out->0.completion_tokens == output
            &&& out->0.prompt_tokens_details is Some
            &&& out->0.prompt_tokens_details->0.cached_tokens == read
            &&& out->0.completion_tokens_details == Some(
                CompletionTokensDetails { reasoning_tokens: reasoning },
            )
        }),
{
    lemma_keys();
    let a = counted(st, LlmProvider::OpenAiResponses, event);
    assert(a.get("message"@) is None);
    assert(a.array_at("choices"@) is Some);
    let c = a.array_at("choices"@)->0;
    assert(c[0].get("delta"@) is None && c[0].get("message"@) is None);
    assert(a.get("usage"@) is Some);
    let u = a.get("usage"@)->0;
    assert(u.get("prompt_tokens"@) == Some(JsonView::Int(input as int)));
    assert(u.get("completion_tokens"@) == Some(JsonView::Int(output as int)));
    assert(u.get("prompt_tokens_details"@) is Some);
    let d = u.get("prompt_tokens_details"@)->0;
    assert(d.get("cached_tokens"@) == Some(JsonView::Int(read as int)));
    assert(d.get("cache_creation_tokens"@) is None);
    assert(d.get("audio_tokens"@) is None);
    assert(u.get("completion_tokens_details"@) is Some);
    let e = u.get("completion_tokens_details"@)->0;
    assert(e.get("reasoning_tokens"@) == Some(JsonView::Int(reasoning as int)));
}

/// What an event counts goes into the usage of the response.
pub proof fn events_are_counted(
    st: StreamView,
    provider: LlmProvider,
    verbose: u8,
    raw: Seq<char>,
    event: JsonView,
)
    ensures
        after_event(st, provider, verbose, raw, event).usage == usage_after(
            st.usage,
            counted(st, provider, event),
        ),
        after_last_event(st, provider, event).usage == usage_after(
            st.usage,
            counted(st, provider, event),
        ),
{
}

} // verus!
