//! Laws of the reasoning loop and of a streamed response: what a task may count
//! on, whatever the model answers.

use vstd::prelude::*;
use vstd::string::*;
use vstd::utf8::{decode_utf8, valid_utf8};

use crate::compat_provider::LlmProvider;
use crate::compat_resilience::{msg_base, recovered_calls};
use crate::json_keys::{group_members, lemma_kb_keys};
use crate::json_model::{group_json, Json, JsonView};
use crate::json_text::{json_read, json_written, Reading};
use crate::model::{
    stamped, DecisionView, MessageView, ToolCallView, ToolRunDecision, ToolRunDecisionKind,
};
use crate::reasoning::{
    advanced, arguments_read, auth_pairs, executed_result, refused_result, tool_message,
    user_message, after_event, after_last_event, after_line, after_tools, empty_stream,
    event_payload, finished_message, is_done_line, is_protocol_line, last_of_role, reply_event,
    role_count, standard_payload, with_last_user, EndReason, LoopAction, LoopEvent, LoopLimits,
    LoopState, StreamView, after_line_bytes, after_lines, is_done_bytes, line_feed, after_remainder,
};
use crate::attach::AttachedFileView;
use crate::text::{is_space, space_end, trimmed};
use crate::text_laws::{blank_texts_trim_to_nothing, lemma_run_push, run_together};

verus! {

broadcast use {group_json, group_members};

// ---------------------------------------------------------------------------
// Rounds
// ---------------------------------------------------------------------------

/// Below the limit of turns the loop goes on: whatever asks for another round gets
/// it, up to the last that the limit allows, and the first round past the limit
/// ends the task, as a failure where there is no user to return to.
pub proof fn rounds_go_on_up_to_the_limit(st: LoopState, event: LoopEvent, limits: LoopLimits)
    requires
        st.reasoning_turn < u32::MAX,
        st.empty_responses < u32::MAX,
        match event {
            LoopEvent::Begin => true,
            LoopEvent::ToolRequest(n) => n == 0,
            LoopEvent::ToolDone => st.tools_done + 1 >= st.tools,
            LoopEvent::EmptyReply => limits.max_empty == 0 || st.empty_responses + 1
                < limits.max_empty,
            _ => false,
        },
    ensures
        ({
            let (next, action) = advanced(st, event, limits);
            &&& next.reasoning_turn == st.reasoning_turn + 1
            &&& action == LoopAction::CallModel <==> (limits.max_turns == 0 || st.reasoning_turn + 1
                <= limits.max_turns)
            &&& action == LoopAction::Fail <==> (limits.is_batch && 0 < limits.max_turns
                <= st.reasoning_turn)
            &&& action == LoopAction::End(EndReason::MaxTurns) <==> (!limits.is_batch && 0
                < limits.max_turns <= st.reasoning_turn)
        }),
{
}

/// Nothing else starts a round: the count of rounds grows only where the model is
/// called, or where the limit of turns is passed.
pub proof fn only_rounds_count(st: LoopState, event: LoopEvent, limits: LoopLimits)
    requires
        st.reasoning_turn < u32::MAX,
        st.empty_responses < u32::MAX,
    ensures
        ({
            let (next, action) = advanced(st, event, limits);
            let past = action == LoopAction::Fail || action == LoopAction::End(EndReason::MaxTurns);
            &&& next.reasoning_turn == st.reasoning_turn + if action == LoopAction::CallModel
                || past {
                1int
            } else {
                0int
            }
            &&& past ==> 0 < limits.max_turns < next.reasoning_turn
        }),
{
}

/// Each end has its one cause: a failed call, an interruption, a run of empty
/// responses that reaches its limit.
pub proof fn ends_have_their_cause(st: LoopState, event: LoopEvent, limits: LoopLimits)
    requires
        st.reasoning_turn < u32::MAX,
        st.empty_responses < u32::MAX,
    ensures
        ({
            let action = advanced(st, event, limits).1;
            &&& action == LoopAction::End(EndReason::LlmError) <==> event == LoopEvent::CallFailed
            &&& action == LoopAction::End(EndReason::Interrupted) <==> event
                == LoopEvent::Interrupted
            &&& action == LoopAction::End(EndReason::EmptyLimit) <==> (event
                == LoopEvent::EmptyReply && 0 < limits.max_empty <= st.empty_responses + 1)
        }),
{
}

/// Empty responses are counted in a row: one more on each, none after a response
/// that says something or asks for tools, and no change by anything else.
pub proof fn empty_responses_count_in_a_row(st: LoopState, event: LoopEvent, limits: LoopLimits)
    requires
        st.reasoning_turn < u32::MAX,
        st.empty_responses < u32::MAX,
    ensures
        ({
            let next = advanced(st, event, limits).0;
            &&& event == LoopEvent::EmptyReply ==> next.empty_responses == st.empty_responses + 1
            &&& (event == LoopEvent::Answer || event is ToolRequest) ==> next.empty_responses == 0
            &&& !(event == LoopEvent::EmptyReply || event == LoopEvent::Answer
                || event is ToolRequest) ==> next.empty_responses == st.empty_responses
        }),
{
}

/// A tool is run only where the last response asked for it.
pub proof fn only_requested_tools_run(st: LoopState, event: LoopEvent, limits: LoopLimits)
    ensures
        ({
            let (next, action) = advanced(st, event, limits);
            action is RunTool ==> {
                &&& action->RunTool_0 < next.tools
                &&& action->RunTool_0 == next.tools_done
                &&& event is ToolRequest || event == LoopEvent::ToolDone
            }
        }),
{
}

proof fn lemma_tools_left(st: LoopState, limits: LoopLimits, k: nat)
    requires
        st.tools_done == 0,
        k < st.tools,
    ensures
        after_tools(st, limits, k) == (LoopState { tools_done: k as usize, ..st }),
    decreases k,
{
    if k > 0 {
        lemma_tools_left(st, limits, (k - 1) as nat);
    }
}

/// What follows a response that asks for `n` tools, once all of them are done.
pub open spec fn after_request(st: LoopState, limits: LoopLimits, n: usize) -> (
    LoopState,
    LoopAction,
) {
    let asked = advanced(st, LoopEvent::ToolRequest(n), limits).0;
    advanced(after_tools(asked, limits, (n - 1) as nat), LoopEvent::ToolDone, limits)
}

/// The results of all tools go back to the model in the round that follows, as long
/// as the limit of turns allows it.
pub proof fn results_go_back_to_the_model(st: LoopState, limits: LoopLimits, n: usize)
    requires
        n > 0,
        st.reasoning_turn < u32::MAX,
    ensures
        ({
            let (next, action) = after_request(st, limits, n);
            &&& next.reasoning_turn == st.reasoning_turn + 1
            &&& next.empty_responses == 0
            &&& action == LoopAction::CallModel <==> (limits.max_turns == 0 || st.reasoning_turn
                < limits.max_turns)
        }),
{
    let asked = advanced(st, LoopEvent::ToolRequest(n), limits).0;
    lemma_tools_left(asked, limits, (n - 1) as nat);
}

/// A task whose first `k` responses each ask for some tools.
pub open spec fn task(limits: LoopLimits, tools: Seq<usize>, k: nat) -> (LoopState, LoopAction)
    decreases k,
{
    let new = LoopState { reasoning_turn: 0, empty_responses: 0, tools: 0, tools_done: 0 };
    if k == 0 {
        advanced(new, LoopEvent::Begin, limits)
    } else {
        after_request(task(limits, tools, (k - 1) as nat).0, limits, tools[k - 1])
    }
}

/// A task gets every call of the model that its limit allows, and no more: after
/// `k` responses that ask for tools the model is called again exactly where `k` is
/// below the limit of turns.
pub proof fn tasks_get_all_their_calls(limits: LoopLimits, tools: Seq<usize>, k: nat)
    requires
        k <= tools.len(),
        k < u32::MAX,
        forall|i: int| 0 <= i < tools.len() ==> #[trigger] tools[i] > 0,
    ensures
        task(limits, tools, k).0.reasoning_turn == k + 1,
        task(limits, tools, k).1 == LoopAction::CallModel <==> (limits.max_turns == 0 || k
            < limits.max_turns),
    decreases k,
{
    if k > 0 {
        tasks_get_all_their_calls(limits, tools, (k - 1) as nat);
        results_go_back_to_the_model(task(limits, tools, (k - 1) as nat).0, limits, tools[k - 1]);
    }
}

/// A response that asks for tools has each of them run; one that says anything is an
/// answer; one of nothing but white space is empty.
pub proof fn replies_are_told_apart(m: MessageView)
    requires
        m.tool_calls is Some ==> m.tool_calls->0.len() <= usize::MAX,
    ensures
        m.tool_calls is Some ==> reply_event(m) is ToolRequest
            && reply_event(m)->ToolRequest_0 == m.tool_calls->0.len(),
        m.tool_calls is None && (exists|i: int|
            0 <= i < m.content.len() && !is_space(#[trigger] m.content[i])) ==> reply_event(m)
            == LoopEvent::Answer,
        m.tool_calls is None && (forall|i: int|
            0 <= i < m.content.len() ==> is_space(#[trigger] m.content[i])) ==> reply_event(m)
            == LoopEvent::EmptyReply,
{
    blank_texts_trim_to_nothing(m.content);
}

// ---------------------------------------------------------------------------
// The user message of a turn
// ---------------------------------------------------------------------------

proof fn lemma_last_of_role(messages: Seq<MessageView>, role: Seq<char>, n: int)
    requires
        0 <= n <= messages.len(),
    ensures
        -1 <= last_of_role(messages, role, n) < n,
        last_of_role(messages, role, n) >= 0 ==> messages[last_of_role(messages, role, n)].role
            == role,
        forall|k: int|
            last_of_role(messages, role, n) < k < n ==> (#[trigger] messages[k]).role != role,
        role_count(messages, role, n) > 0 <==> last_of_role(messages, role, n) >= 0,
    decreases n,
{
    if n > 0 {
        lemma_last_of_role(messages, role, n - 1);
    }
}

/// A turn that broke off is taken up again: the last user message gets the new
/// input and files, and every other message stays as it is.
pub proof fn broken_turns_are_taken_up(
    messages: Seq<MessageView>,
    input: Seq<char>,
    files: Seq<AttachedFileView>,
    at: int,
)
    requires
        0 <= at < messages.len(),
        messages[at].role == "user"@,
        forall|k: int| at < k < messages.len() ==> (#[trigger] messages[k]).role != "user"@,
    ensures
        ({
            let out = with_last_user(messages, input, files);
            &&& out.len() == messages.len()
            &&& out[at].content == input
            &&& out[at].attached_files == files
            &&& out[at].role == "user"@
            &&& out[at].session_id == messages[at].session_id
            &&& out[at].timestamp == messages[at].timestamp
            &&& forall|k: int| 0 <= k < messages.len() && k != at ==> #[trigger] out[k]
                == messages[k]
        }),
{
    lemma_last_of_role(messages, "user"@, messages.len() as int);
    let l = last_of_role(messages, "user"@, messages.len() as int);
    if l < at {
        assert(messages[at].role != "user"@);
    } else if l > at {
        assert(messages[l].role != "user"@);
    }
}

/// The count of a role is that of the messages of the first part and of the second.
pub proof fn role_counts_add_up(a: Seq<MessageView>, b: Seq<MessageView>, role: Seq<char>, n: int)
    requires
        0 <= n <= b.len(),
    ensures
        role_count(a + b, role, a.len() + n) == role_count(a, role, a.len() as int) + role_count(
            b,
            role,
            n,
        ),
        n > 0 ==> role_count(b, role, n) == role_count(b, role, n - 1) + if b[n - 1].role == role {
            1int
        } else {
            0int
        },
    decreases n,
{
    if n > 0 {
        role_counts_add_up(a, b, role, n - 1);
        assert((a + b)[a.len() + n - 1] == b[n - 1]);
    } else {
        lemma_count_prefix(a, b, role, a.len() as int);
    }
}

proof fn lemma_count_prefix(a: Seq<MessageView>, b: Seq<MessageView>, role: Seq<char>, n: int)
    requires
        0 <= n <= a.len(),
    ensures
        role_count(a + b, role, n) == role_count(a, role, n),
    decreases n,
{
    if n > 0 {
        lemma_count_prefix(a, b, role, n - 1);
        assert((a + b)[n - 1] == a[n - 1]);
    }
}

// ---------------------------------------------------------------------------
// Streams
// ---------------------------------------------------------------------------

/// The message part of an event, for a state of the stream.
pub open spec fn part_of(st: StreamView, provider: LlmProvider, event: JsonView) -> JsonView {
    msg_base(standard_payload(event_payload(provider, event, st.tool_index)))
}

/// The text in the member `key` of a message part; nothing where there is none.
pub open spec fn part_text(part: JsonView, key: Seq<char>) -> Seq<char> {
    match part.get(key) {
        Some(JsonView::Str(s)) => s,
        _ => Seq::empty(),
    }
}

/// The member that holds the reasoning of a message part: `reasoning_content`, or
/// `reasoning` where that is not there at all.
pub open spec fn reasoning_key(part: JsonView) -> Seq<char> {
    if part.get("reasoning_content"@) is Some {
        "reasoning_content"@
    } else {
        "reasoning"@
    }
}

/// Whether a message part has any reasoning, be it empty.
pub open spec fn has_reasoning(part: JsonView) -> bool {
    part.get(reasoning_key(part)) is Some && part.get(reasoning_key(part))->0 is Str
}

/// What an optional text holds; nothing where there is none.
pub open spec fn held(o: Option<Seq<char>>) -> Seq<char> {
    match o {
        Some(s) => s,
        None => Seq::empty(),
    }
}

/// One event adds its content and its reasoning behind what was read before, and
/// takes nothing away.
pub proof fn events_add_their_texts(
    st: StreamView,
    provider: LlmProvider,
    verbose: u8,
    raw: Seq<char>,
    event: JsonView,
)
    ensures
        ({
            let part = part_of(st, provider, event);
            let next = after_event(st, provider, verbose, raw, event);
            &&& next.content == st.content + part_text(part, "content"@)
            &&& held(next.reasoning) == held(st.reasoning) + part_text(part, reasoning_key(part))
            &&& next.reasoning is Some <==> (st.reasoning is Some || has_reasoning(part))
        }),
{
    let part = part_of(st, provider, event);
    assert(st.content + Seq::<char>::empty() =~= st.content);
    assert(held(st.reasoning) + Seq::<char>::empty() =~= held(st.reasoning));
    let s = part_text(part, reasoning_key(part));
    assert(Seq::<char>::empty() + s =~= s);
}

/// The last event, which came without a line feed, adds its texts in the same way.
pub proof fn last_events_add_their_texts(st: StreamView, provider: LlmProvider, event: JsonView)
    ensures
        ({
            let part = part_of(st, provider, event);
            let next = after_last_event(st, provider, event);
            &&& next.content == st.content + part_text(part, "content"@)
            &&& held(next.reasoning) == held(st.reasoning) + part_text(part, reasoning_key(part))
            &&& next.reasoning is Some <==> (st.reasoning is Some || has_reasoning(part))
        }),
{
    let part = part_of(st, provider, event);
    assert(st.content + Seq::<char>::empty() =~= st.content);
    assert(held(st.reasoning) + Seq::<char>::empty() =~= held(st.reasoning));
    let s = part_text(part, reasoning_key(part));
    assert(Seq::<char>::empty() + s =~= s);
}

/// The state after the first `n` events of a response.
pub open spec fn events_read(
    provider: LlmProvider,
    verbose: u8,
    raws: Seq<Seq<char>>,
    events: Seq<JsonView>,
    n: int,
) -> StreamView
    decreases n,
{
    if n <= 0 {
        empty_stream()
    } else {
        after_event(
            events_read(provider, verbose, raws, events, n - 1),
            provider,
            verbose,
            raws[n - 1],
            events[n - 1],
        )
    }
}

/// A response holds all that its events carried, in order: its content is their
/// contents one after the other, its reasoning their reasoning one after the other,
/// and it has no reasoning only where no event had any.
pub proof fn responses_hold_all_their_events(
    provider: LlmProvider,
    verbose: u8,
    raws: Seq<Seq<char>>,
    events: Seq<JsonView>,
    parts: Seq<JsonView>,
)
    requires
        raws.len() == events.len(),
        parts.len() == events.len(),
        forall|i: int|
            0 <= i < events.len() ==> #[trigger] parts[i] == part_of(
                events_read(provider, verbose, raws, events, i),
                provider,
                events[i],
            ),
    ensures
        ({
            let st = events_read(provider, verbose, raws, events, events.len() as int);
            &&& st.content == run_together(
                parts.map_values(|p: JsonView| part_text(p, "content"@)),
            )
            &&& held(st.reasoning) == run_together(
                parts.map_values(|p: JsonView| part_text(p, reasoning_key(p))),
            )
            &&& st.reasoning is None <==> forall|i: int|
                0 <= i < parts.len() ==> !has_reasoning(#[trigger] parts[i])
        }),
    decreases events.len(),
{
    let n = events.len() as int;
    let said = |p: JsonView| part_text(p, "content"@);
    let thought = |p: JsonView| part_text(p, reasoning_key(p));
    if n == 0 {
        assert(parts.map_values(said) =~= Seq::<Seq<char>>::empty());
        assert(parts.map_values(thought) =~= Seq::<Seq<char>>::empty());
    } else {
        let r0 = raws.drop_last();
        let e0 = events.drop_last();
        let p0 = parts.drop_last();
        assert forall|i: int| 0 <= i < n implies events_read(provider, verbose, raws, events, i)
            == events_read(provider, verbose, r0, e0, i) by {
            lemma_events_prefix(provider, verbose, raws, events, i);
        }
        assert forall|i: int| 0 <= i < e0.len() implies #[trigger] p0[i] == part_of(
            events_read(provider, verbose, r0, e0, i),
            provider,
            e0[i],
        ) by {
            assert(p0[i] == parts[i]);
        }
        responses_hold_all_their_events(provider, verbose, r0, e0, p0);
        let st = events_read(provider, verbose, r0, e0, n - 1);
        assert(parts[n - 1] == part_of(st, provider, events[n - 1]));
        events_add_their_texts(st, provider, verbose, raws[n - 1], events[n - 1]);
        assert(parts.map_values(said) =~= p0.map_values(said).push(said(parts[n - 1])));
        assert(parts.map_values(thought) =~= p0.map_values(thought).push(thought(parts[n - 1])));
        lemma_run_push(p0.map_values(said), said(parts[n - 1]));
        lemma_run_push(p0.map_values(thought), thought(parts[n - 1]));
        if st.reasoning is None && !has_reasoning(parts[n - 1]) {
            assert forall|i: int| 0 <= i < parts.len() implies !has_reasoning(
                #[trigger] parts[i],
            ) by {
                if i < n - 1 {
                    assert(p0[i] == parts[i]);
                }
            }
        } else if st.reasoning is Some {
            let i = choose|i: int| 0 <= i < p0.len() && has_reasoning(#[trigger] p0[i]);
            assert(has_reasoning(parts[i]));
        }
    }
}

proof fn lemma_events_prefix(
    provider: LlmProvider,
    verbose: u8,
    raws: Seq<Seq<char>>,
    events: Seq<JsonView>,
    i: int,
)
    requires
        raws.len() == events.len(),
        0 <= i < events.len(),
    ensures
        events_read(provider, verbose, raws, events, i) == events_read(
            provider,
            verbose,
            raws.drop_last(),
            events.drop_last(),
            i,
        ),
    decreases i,
{
    if i > 0 {
        lemma_events_prefix(provider, verbose, raws, events, i - 1);
    }
}

/// A line of a stream that carries an event is read as that event, whether a blank
/// follows `data:` or not.
pub proof fn data_lines_are_events(
    st: StreamView,
    provider: LlmProvider,
    verbose: u8,
    payload: Seq<char>,
    event: JsonView,
    spaced: bool,
)
    requires
        payload.len() > 0,
        !is_space(payload[0]),
        payload != "[DONE]"@,
        json_read(payload) == Reading::Value(event),
    ensures
        ({
            let line = if spaced {
                "data: "@ + payload
            } else {
                "data:"@ + payload
            };
            after_line(st, provider, verbose, line) == after_event(
                st,
                provider,
                verbose,
                payload,
                event,
            ) && !is_done_line(line)
        }),
{
    reveal_strlit("data: ");
    reveal_strlit("data:");
    reveal_strlit("event:");
    reveal_strlit(":");
    let line = if spaced {
        "data: "@ + payload
    } else {
        "data:"@ + payload
    };
    assert("data:"@.is_prefix_of(line)) by {
        assert(line.subrange(0, 5) =~= "data:"@);
    }
    assert(line[0] == 'd');
    assert(!"event:"@.is_prefix_of(line)) by {
        if "event:"@.is_prefix_of(line) {
            assert("event:"@[0] == line.subrange(0, 6)[0]);
        }
    }
    assert(!":"@.is_prefix_of(line)) by {
        if ":"@.is_prefix_of(line) {
            assert(":"@[0] == line.subrange(0, 1)[0]);
        }
    }
    let rest = line.skip(5);
    if spaced {
        assert(rest =~= seq![' '] + payload);
        assert(rest[0] == ' ');
        assert(rest[1] == payload[0]);
        assert(space_end(rest, 1) == 1);
        assert(space_end(rest, 0) == 1);
        assert(rest.skip(1) =~= payload);
    } else {
        assert(rest =~= payload);
        assert(space_end(rest, 0) == 0);
        assert(rest.skip(0) =~= payload);
    }
}

/// What is left without a line feed at the end of a stream is read as its last event; what
/// is no text is passed over.
pub proof fn the_rest_is_the_last_event(
    st: StreamView,
    provider: LlmProvider,
    rest: Seq<u8>,
    payload: Seq<char>,
    event: JsonView,
)
    requires
        payload.len() > 0,
        !is_space(payload[0]),
        payload != "[DONE]"@,
        json_read(payload) == Reading::Value(event),
        trimmed(decode_utf8(rest)) == "data: "@ + payload,
    ensures
        after_remainder(st, provider, rest) == if valid_utf8(rest) {
            after_last_event(st, provider, event)
        } else {
            st
        },
{
    data_lines_are_events(st, provider, 0, payload, event, true);
    blank_texts_trim_to_nothing(Seq::empty());
    reveal_strlit("");
    assert(""@ =~= Seq::<char>::empty());
    reveal_strlit("data: ");
    reveal_strlit("data:");
    reveal_strlit("event:");
    let line = "data: "@ + payload;
    assert("data:"@.is_prefix_of(line)) by {
        assert(line.subrange(0, 5) =~= "data:"@);
    }
    assert(!"event:"@.is_prefix_of(line)) by {
        if "event:"@.is_prefix_of(line) {
            assert("event:"@[0] == line.subrange(0, 6)[0]);
        }
    }
    let tail = line.skip(5);
    assert(tail =~= seq![' '] + payload);
    assert(tail[0] == ' ');
    assert(tail[1] == payload[0]);
    assert(space_end(tail, 1) == 1);
    assert(space_end(tail, 0) == 1);
    assert(tail.skip(1) =~= payload);
}

/// Comments and the names of events change nothing that is read; `[DONE]` ends the
/// reading of the lines at hand.
pub proof fn other_lines_carry_nothing(
    st: StreamView,
    provider: LlmProvider,
    verbose: u8,
    line: Seq<char>,
)
    requires
        is_protocol_line(line) || line == "data: [DONE]"@ || line.len() == 0,
    ensures
        ({
            let next = after_line(st, provider, verbose, line);
            next == StreamView { shown: next.shown, ..st }
        }),
        is_done_line(line) <==> line == "data: [DONE]"@,
{
    reveal_strlit("data: [DONE]");
    reveal_strlit("data:");
    reveal_strlit("[DONE]");
    reveal_strlit("event:");
    reveal_strlit(":");
    if line == "data: [DONE]"@ {
        assert("data:"@.is_prefix_of(line)) by {
            assert(line.subrange(0, 5) =~= "data:"@);
        }
        let rest = line.skip(5);
        assert(rest[0] == ' ' && rest[1] == '[');
        assert(space_end(rest, 1) == 1);
        assert(space_end(rest, 0) == 1);
        assert(rest.skip(1) =~= "[DONE]"@);
        assert(line[0] == 'd');
        assert(!"event:"@.is_prefix_of(line)) by {
            if "event:"@.is_prefix_of(line) {
                assert("event:"@[0] == line.subrange(0, 6)[0]);
            }
        }
        assert(!":"@.is_prefix_of(line)) by {
            if ":"@.is_prefix_of(line) {
                assert(":"@[0] == line.subrange(0, 1)[0]);
            }
        }
    }
}

proof fn lemma_feed_at(line: Seq<u8>, rest: Seq<u8>, i: int)
    requires
        0 <= i <= line.len(),
        forall|k: int| 0 <= k < line.len() ==> #[trigger] line[k] != 10,
    ensures
        line_feed(line + seq![10u8] + rest, i) == line.len(),
    decreases line.len() - i,
{
    let b = line + seq![10u8] + rest;
    if i < line.len() {
        assert(b[i] == line[i]);
        lemma_feed_at(line, rest, i + 1);
    } else {
        assert(b[i] == 10);
    }
}

/// A stream is read line by line: each complete line is read, and what follows it is
/// read in the state that it leaves.
pub proof fn streams_are_read_line_by_line(
    st: StreamView,
    provider: LlmProvider,
    verbose: u8,
    line: Seq<u8>,
    rest: Seq<u8>,
)
    requires
        forall|k: int| 0 <= k < line.len() ==> #[trigger] line[k] != 10,
    ensures
        ({
            let next = after_line_bytes(st, provider, verbose, line);
            after_lines(st, provider, verbose, line + seq![10u8] + rest) == if is_done_bytes(line) {
                (next, rest)
            } else {
                after_lines(next, provider, verbose, rest)
            }
        }),
        after_lines(st, provider, verbose, line) == (st, line),
{
    let b = line + seq![10u8] + rest;
    lemma_feed_at(line, rest, 0);
    assert(b.take(line.len() as int) =~= line);
    assert(b.skip((line.len() + 1) as int) =~= rest);
    lemma_no_feed(line, 0);
}

proof fn lemma_no_feed(line: Seq<u8>, i: int)
    requires
        0 <= i <= line.len(),
        forall|k: int| 0 <= k < line.len() ==> #[trigger] line[k] != 10,
    ensures
        line_feed(line, i) == line.len(),
    decreases line.len() - i,
{
    if i < line.len() {
        assert(line[i] != 10);
        lemma_no_feed(line, i + 1);
    }
}

/// A finished response is an assistant message of what was read: the content, the
/// reasoning, and no tool call that was not asked for.
pub proof fn finished_messages_keep_what_was_read(
    st: StreamView,
    defs: Seq<JsonView>,
    model: Seq<char>,
    timestamp: i64,
)
    ensures
        ({
            let m = finished_message(st, defs, model, timestamp);
            &&& m.role == "assistant"@
            &&& m.content == st.content
            &&& m.reasoning_content == st.reasoning
            &&& m.model == Some(model)
            &&& m.timestamp == timestamp
            &&& st.calls is None ==> m.tool_calls is None
            &&& m.tool_calls is Some ==> m.tool_calls->0.len() > 0
            &&& st.calls is Some && recovered_calls(st.calls->0, defs).len() > 0 ==> m.tool_calls
                == Some(recovered_calls(st.calls->0, defs))
            &&& m.tool_call_id is None && m.attached_files.len() == 0
        }),
{
}

// ---------------------------------------------------------------------------
// Tools
// ---------------------------------------------------------------------------

/// The result of a tool goes back as a message that names the call it answers and the
/// tool, holds the result as JSON text and says how the call was decided on.
pub proof fn results_answer_their_call(
    call: ToolCallView,
    result: JsonView,
    decision: DecisionView,
    id: Seq<char>,
    timestamp: i64,
)
    ensures
        ({
            let m = tool_message(call, result, decision, id, timestamp);
            &&& m.role == "tool"@
            &&& m.content == json_written(result)
            &&& m.tool_call_id == Some(call.id)
            &&& m.tool_name == Some(call.name)
            &&& m.tool_call_decision == Some(decision)
            &&& m.session_id == id
            &&& m.timestamp == timestamp
            &&& m.tool_calls is None && m.reasoning_content is None && m.attached_files.len() == 0
        }),
{
}

/// What a tool gave back is its result; an error is told as such, in its own words.
pub proof fn outcomes_are_told(outcome: Result<Json, String>)
    ensures
        outcome is Ok ==> executed_result(outcome) == outcome->Ok_0@,
        outcome is Err ==> executed_result(outcome).str_at("error"@) == Some(outcome->Err_0@),
{
}

/// A call that is not run is answered all the same: as denied where the user said no, as
/// an error with its reason where something else did.
pub proof fn refusals_are_told(d: ToolRunDecision)
    ensures
        ({
            let r = refused_result(d);
            &&& r.str_at("message"@) is Some
            &&& d.kind == ToolRunDecisionKind::UserCancel <==> r.str_at("status"@) == Some(
                "denied"@,
            )
            &&& d.kind != ToolRunDecisionKind::UserCancel ==> r.str_at("status"@) == Some("error"@)
            &&& d.kind == ToolRunDecisionKind::SystemError && d.reason is Some
                ==> d.reason->0@.is_suffix_of(r.str_at("message"@)->0)
        }),
{
    lemma_kb_keys();
    if d.kind == ToolRunDecisionKind::SystemError && d.reason is Some {
        let head = "Tool execution skipped due to a system error: "@;
        let m = head + d.reason->0@;
        assert(m.subrange(m.len() - d.reason->0@.len(), m.len() as int) =~= d.reason->0@);
    }
}

/// Arguments that could be read are handed to the tool as they are; those that could not
/// be are told of.
pub proof fn arguments_are_handed_on(r: Reading)
    ensures
        r is Value ==> arguments_read(r) == (r->Value_0, None::<Seq<char>>),
        r is Malformed ==> arguments_read(r).1 == Some(r->Malformed_0),
{
}

/// A user message holds the input and the files of its turn and belongs to the session.
pub proof fn inputs_become_user_messages(
    input: Seq<char>,
    files: Seq<AttachedFileView>,
    id: Seq<char>,
    timestamp: i64,
)
    ensures
        ({
            let m = user_message(input, files, id, timestamp);
            &&& m.role == "user"@
            &&& m.content == input
            &&& m.attached_files == files
            &&& m.session_id == id
            &&& m.timestamp == timestamp
            &&& m.tool_calls is None && m.tool_call_id is None && m.reasoning_content is None
        }),
{
}

/// A message that joins a session keeps all it has and takes the identifier of the
/// session.
pub proof fn messages_join_their_session(m: MessageView, id: Seq<char>)
    ensures
        stamped(m, id).role == m.role,
        stamped(m, id).content == m.content,
        stamped(m, id).reasoning_content == m.reasoning_content,
        stamped(m, id).tool_calls == m.tool_calls,
        stamped(m, id).tool_call_id == m.tool_call_id,
        stamped(m, id).attached_files == m.attached_files,
        stamped(m, id).model == m.model,
        stamped(m, id).session_id == id,
{
}

/// Every request is authenticated with the key: as Anthropic asks for it, or as a bearer.
pub proof fn requests_are_authenticated(provider: LlmProvider, key: Seq<char>)
    ensures
        provider == LlmProvider::Anthropic ==> auth_pairs(provider, key)[0] == ("x-api-key"@, key),
        provider != LlmProvider::Anthropic ==> auth_pairs(provider, key) == seq![
            ("Authorization"@, "Bearer "@ + key),
        ],
{
}

} // verus!
