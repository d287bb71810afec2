//! The reasoning loop and the reading of a streamed response.
//!
//! Holds every decision of the loop (model, tools, feedback) and of the
//! streaming client. Sending, waiting and printing are left to the caller,
//! which performs what a decision asks for and hands back what came of it.

use vstd::prelude::*;
use vstd::string::*;
use vstd::utf8::*;

use crate::compat_provider::{
    accumulate_usage, anth_index_after, anth_payload, convert_anth_to_openai_format,
    convert_openai_responses_event_to_openai_format, responses_payload, usage_after, LlmProvider,
};
use crate::compat_resilience::{
    extract_msg_base, merge_tool_call_delta, merged_calls, msg_base, normalize_tool_call_format,
    argument_reading, post_process_tool_calls, read_argument, recovered_calls, wrapped_payload, ToolResultFormat,
};
use crate::json_model::{empty_object, group_json, json_seq, Json, JsonView};
use crate::json_text::{json_read, json_written, parse_json, print_json, reading_of, Reading};
use crate::llm_stats::{CallStatus, LlmCallRecord, LlmRequestInfo};
use crate::model::{
    calls_view, copy_messages, messages_view, no_usage, now_seconds, opt_calls_view, plain_message,
    stamped, ChatRequest, DecisionView, Message, MessageView, Session, SessionView, Settings,
    ToolCall, ToolCallView, ToolRunDecision, ToolRunDecisionKind, Usage,
};
use crate::attach::{files_view, AttachedFile, AttachedFileView};
use crate::startup::{C_DIM_GRAY, C_DIM_GREEN, C_GREEN, C_MAGENTA, C_RED, C_YELLOW, RESET};
use crate::text::{
    after_prefix, byte_len, decimal, first_chars, opt_str_view, opt_view, pairs_view, starts_with, str_eq,
    strip_prefix, take_chars, trim, trim_start, trimmed, trimmed_start, u64_text, usize_text,
    utf8_fault, utf8_len, utf8_text,
};

verus! {

broadcast use group_json;

// ---------------------------------------------------------------------------
// Reading a stream
// ---------------------------------------------------------------------------

/// What has been read of a response.
pub struct StreamState {
    pub content: String,
    pub reasoning: Option<String>,
    pub calls: Option<Vec<ToolCall>>,
    pub usage: Option<Usage>,
    /// Whether the last thing shown was reasoning.
    pub thinking: bool,
    /// Whether content has been shown.
    pub started: bool,
    /// Position of the tool call in progress.
    pub tool_index: usize,
    /// Whether a tool call came in the flat form.
    pub nonstandard: bool,
    /// What is to be shown and has not been taken yet.
    pub shown: String,
}

/// What has been read of a response.
#[verifier::ext_equal]
pub struct StreamView {
    pub content: Seq<char>,
    pub reasoning: Option<Seq<char>>,
    pub calls: Option<Seq<ToolCallView>>,
    pub usage: Option<Usage>,
    pub thinking: bool,
    pub started: bool,
    pub tool_index: usize,
    pub nonstandard: bool,
    pub shown: Seq<char>,
}

impl View for StreamState {
    type V = StreamView;

    open spec fn view(&self) -> StreamView {
        StreamView {
            content: self.content@,
            reasoning: opt_view(self.reasoning),
            calls: opt_calls_view(self.calls),
            usage: self.usage,
            thinking: self.thinking,
            started: self.started,
            tool_index: self.tool_index,
            nonstandard: self.nonstandard,
            shown: self.shown@,
        }
    }
}

/// Nothing read yet.
pub open spec fn empty_stream() -> StreamView {
    StreamView {
        content: Seq::empty(),
        reasoning: None,
        calls: None,
        usage: None,
        thinking: false,
        started: false,
        tool_index: 0,
        nonstandard: false,
        shown: Seq::empty(),
    }
}

/// A text appended to an optional text.
pub open spec fn appended(o: Option<Seq<char>>, s: Seq<char>) -> Option<Seq<char>> {
    match o {
        Some(t) => Some(t + s),
        None => Some(s),
    }
}

/// An event in the one form that is read, whatever the provider sends.
pub open spec fn event_payload(provider: LlmProvider, j: JsonView, tool_index: usize) -> JsonView {
    match provider {
        LlmProvider::Anthropic => anth_payload(j, tool_index),
        LlmProvider::OpenAiResponses => responses_payload(j),
        _ => j,
    }
}

/// A payload with its tool calls in the standard form.
pub open spec fn standard_payload(j: JsonView) -> JsonView {
    match wrapped_payload(j) {
        Some(w) => w,
        None => j,
    }
}

/// The state after the conversion of an event: its position, whether a flat
/// call came, and its usage.
pub open spec fn after_conversion(st: StreamView, provider: LlmProvider, j: JsonView) -> StreamView {
    let p = event_payload(provider, j, st.tool_index);
    StreamView {
        tool_index: if provider == LlmProvider::Anthropic {
            anth_index_after(j, st.tool_index)
        } else {
            st.tool_index
        },
        nonstandard: st.nonstandard || wrapped_payload(p) is Some,
        usage: usage_after(st.usage, standard_payload(p)),
        ..st
    }
}

/// The reasoning that a message part carries, under either of its names.
pub open spec fn reasoning_text(base: JsonView) -> Option<Seq<char>> {
    match base.get("reasoning_content"@) {
        Some(v) => v.as_str(),
        None => base.str_at("reasoning"@),
    }
}

fn get_reasoning(base: &Json) -> (r: Option<&str>)
    ensures
        opt_str_view(r) == reasoning_text(base@),
{
    match base.get("reasoning_content") {
        Some(v) => v.as_str(),
        None => base.str_at("reasoning"),
    }
}

/// The state after the reasoning of a message part.
pub open spec fn after_reasoning(st: StreamView, base: JsonView) -> StreamView {
    match reasoning_text(base) {
        None => st,
        Some(s) => StreamView {
            reasoning: appended(st.reasoning, s),
            thinking: true,
            shown: (if st.thinking {
                st.shown
            } else {
                st.shown + "\n"@ + C_DIM_GREEN@ + "[Thinking]\n"@
            }) + s,
            ..st
        },
    }
}

/// The state after the content of a message part.
pub open spec fn after_content(st: StreamView, base: JsonView) -> StreamView {
    match base.str_at("content"@) {
        Some(s) if s.len() > 0 => {
            let a = if st.thinking {
                st.shown + "\x1b[0m\n\n"@
            } else {
                st.shown
            };
            let b = if st.started {
                a
            } else {
                a + "Assistant > "@
            };
            StreamView {
                content: st.content + s,
                thinking: false,
                started: true,
                shown: b + s,
                ..st
            }
        },
        _ => st,
    }
}

/// The calls so far, none where there have not been any.
pub open spec fn calls_so_far(st: StreamView) -> Seq<ToolCallView> {
    match st.calls {
        Some(c) => c,
        None => Seq::empty(),
    }
}

/// The state after the tool calls of a message part.
pub open spec fn after_calls(st: StreamView, base: JsonView) -> StreamView {
    match base.array_at("tool_calls"@) {
        None => st,
        Some(deltas) => StreamView {
            calls: Some(merged_calls(calls_so_far(st), deltas, 0, true, deltas.len() as int)),
            ..st
        },
    }
}

/// A text with a dimmed line.
pub open spec fn with_log(s: Seq<char>, label: Seq<char>, text: Seq<char>) -> Seq<char> {
    s + "\x1b[90m"@ + label + text + "\x1b[0m\n"@
}

/// A text with a warning line.
pub open spec fn with_warning(s: Seq<char>, text: Seq<char>) -> Seq<char> {
    s + "\x1b[93m"@ + text + "\x1b[0m\n"@
}

/// Whether a message part carries fragments of tool calls.
pub open spec fn has_fragments(base: JsonView) -> bool {
    match base.array_at("tool_calls"@) {
        Some(a) => a.len() > 0,
        None => false,
    }
}

/// The state after one event of the stream; `raw` is the text of the event.
pub open spec fn after_event(
    st: StreamView,
    provider: LlmProvider,
    verbose: u8,
    raw: Seq<char>,
    j: JsonView,
) -> StreamView {
    let a = after_conversion(st, provider, j);
    let base = msg_base(standard_payload(event_payload(provider, j, st.tool_index)));
    let b = if verbose >= 4 {
        StreamView { shown: with_log(a.shown, "[SSE] "@, raw), ..a }
    } else if verbose == 3 && has_fragments(base) {
        StreamView { shown: with_log(a.shown, "[TOOL RAW] "@, raw), ..a }
    } else {
        a
    };
    after_calls(after_content(after_reasoning(b, base), base), base)
}

/// The state after the last event, which came without a line feed: nothing is
/// shown of it, empty content counts, and a fragment without a position starts
/// a new call.
pub open spec fn after_last_event(st: StreamView, provider: LlmProvider, j: JsonView) -> StreamView {
    let a = after_conversion(st, provider, j);
    let base = msg_base(standard_payload(event_payload(provider, j, st.tool_index)));
    let b = match reasoning_text(base) {
        Some(s) => StreamView { reasoning: appended(a.reasoning, s), ..a },
        None => a,
    };
    let c = match base.str_at("content"@) {
        Some(s) => StreamView { content: b.content + s, ..b },
        None => b,
    };
    match base.array_at("tool_calls"@) {
        None => c,
        Some(deltas) => StreamView {
            calls: Some(
                merged_calls(
                    calls_so_far(c),
                    deltas,
                    calls_so_far(c).len() as usize,
                    false,
                    deltas.len() as int,
                ),
            ),
            ..c
        },
    }
}

fn put_log(s: &mut String, label: &str, text: &str)
    ensures
        final(s)@ == with_log(old(s)@, label@, text@),
{
    s.append("\x1b[90m");
    s.append(label);
    s.append(text);
    s.append("\x1b[0m\n");
}

fn put_warning(s: &mut String, text: &str)
    ensures
        final(s)@ == with_warning(old(s)@, text@),
{
    s.append("\x1b[93m");
    s.append(text);
    s.append("\x1b[0m\n");
}

impl StreamState {
    /// Nothing read yet.
    pub fn new() -> (r: StreamState)
        ensures
            r@ == empty_stream(),
    {
        StreamState {
            content: String::new(),
            reasoning: None,
            calls: None,
            usage: None,
            thinking: false,
            started: false,
            tool_index: 0,
            nonstandard: false,
            shown: String::new(),
        }
    }

    /// Converts an event and captures its usage; returns the message part.
    fn convert(&mut self, provider: LlmProvider, json: &Json) -> (r: Json)
        ensures
            final(self)@ == after_conversion(old(self)@, provider, json@),
            r@ == msg_base(
                standard_payload(event_payload(provider, json@, old(self)@.tool_index)),
            ),
    {
        let mut payload = match provider {
            LlmProvider::Anthropic => convert_anth_to_openai_format(json, &mut self.tool_index),
            LlmProvider::OpenAiResponses => convert_openai_responses_event_to_openai_format(json),
            LlmProvider::OpenAi | LlmProvider::Ollama => json.copy(),
        };
        if normalize_tool_call_format(&mut payload) {
            self.nonstandard = true;
        }
        accumulate_usage(&payload, &mut self.usage);
        extract_msg_base(&payload)
    }

    fn add_reasoning(&mut self, s: &str)
        ensures
            final(self)@ == (StreamView {
                reasoning: appended(old(self)@.reasoning, s@),
                ..old(self)@
            }),
    {
        let mut t = match &self.reasoning {
            Some(t) => t.clone(),
            None => String::new(),
        };
        t.append(s);
        proof {
            assert(Seq::<char>::empty() + s@ =~= s@);
        }
        self.reasoning = Some(t);
    }

    fn take_calls(&mut self) -> (r: Vec<ToolCall>)
        ensures
            calls_view(r@) == calls_so_far(old(self)@),
            final(self)@ == (StreamView { calls: None, ..old(self)@ }),
    {
        match self.calls.take() {
            Some(v) => v,
            None => {
                let v: Vec<ToolCall> = Vec::new();
                proof {
                    assert(calls_view(v@) =~= Seq::<ToolCallView>::empty());
                }
                v
            },
        }
    }

    /// Reads one event; `raw` is its text.
    pub fn apply_event(&mut self, provider: LlmProvider, verbose: u8, raw: &str, json: &Json)
        ensures
            final(self)@ == after_event(old(self)@, provider, verbose, raw@, json@),
    {
        let base = self.convert(provider, json);
        if verbose >= 4 {
            put_log(&mut self.shown, "[SSE] ", raw);
        }
        if verbose == 3 {
            let some = match base.array_at("tool_calls") {
                Some(a) => a.len() > 0,
                None => false,
            };
            if some {
                put_log(&mut self.shown, "[TOOL RAW] ", raw);
            }
        }
        match get_reasoning(&base) {
            None => {},
            Some(s) => {
                if !self.thinking {
                    self.shown.append("\n");
                    self.shown.append(C_DIM_GREEN);
                    self.shown.append("[Thinking]\n");
                    self.thinking = true;
                }
                self.shown.append(s);
                self.add_reasoning(s);
            },
        }
        match base.str_at("content") {
            None => {},
            Some(s) => {
                if !s.is_empty() {
                    if self.thinking {
                        self.shown.append("\x1b[0m\n\n");
                        self.thinking = false;
                    }
                    if !self.started {
                        self.shown.append("Assistant > ");
                        self.started = true;
                    }
                    self.shown.append(s);
                    self.content.append(s);
                }
            },
        }
        match base.array_at("tool_calls") {
            None => {},
            Some(deltas) => {
                let mut calls = self.take_calls();
                proof {
                    assert(json_seq(deltas@).len() == deltas@.len());
                }
                merge_tool_call_delta(&mut calls, deltas, 0, true);
                self.calls = Some(calls);
            },
        }
    }

    /// Reads the last event, which came without a line feed.
    pub fn apply_last_event(&mut self, provider: LlmProvider, json: &Json)
        ensures
            final(self)@ == after_last_event(old(self)@, provider, json@),
    {
        let base = self.convert(provider, json);
        match get_reasoning(&base) {
            None => {},
            Some(s) => {
                self.add_reasoning(s);
            },
        }
        match base.str_at("content") {
            None => {},
            Some(s) => {
                self.content.append(s);
            },
        }
        match base.array_at("tool_calls") {
            None => {},
            Some(deltas) => {
                let mut calls = self.take_calls();
                proof {
                    assert(json_seq(deltas@).len() == deltas@.len());
                    assert(calls_view(calls@).len() == calls@.len());
                }
                let n: usize = calls.len();
                merge_tool_call_delta(&mut calls, deltas, n, false);
                self.calls = Some(calls);
            },
        }
    }
}

// ---------------------------------------------------------------------------
// Lines of a stream
// ---------------------------------------------------------------------------

/// The payload of a line: what follows `data:`, or the whole line.
pub open spec fn line_payload(line: Seq<char>) -> Seq<char> {
    match after_prefix(line, "data:"@) {
        Some(rest) => trimmed_start(rest),
        None => line,
    }
}

fn get_payload<'a>(line: &'a str) -> (r: &'a str)
    ensures
        r@ == line_payload(line@),
{
    match strip_prefix(line, "data:") {
        Some(rest) => trim_start(rest),
        None => line,
    }
}

/// Whether a line is an event type or a comment.
pub open spec fn is_protocol_line(line: Seq<char>) -> bool {
    "event:"@.is_prefix_of(line) || ":"@.is_prefix_of(line)
}

/// The warning on a line that cannot be read.
pub open spec fn unread_warning(payload: Seq<char>, why: Seq<char>) -> Seq<char> {
    "[SSE Parse Warning] Skipping unparseable line: "@ + first_chars(payload, 120) + " ("@ + why
        + ")"@
}

/// Whether a line, trimmed, ends the reading of the lines at hand.
pub open spec fn is_done_line(line: Seq<char>) -> bool {
    line.len() > 0 && !is_protocol_line(line) && line_payload(line) == "[DONE]"@
}

/// The state after one trimmed line.
pub open spec fn after_line(
    st: StreamView,
    provider: LlmProvider,
    verbose: u8,
    line: Seq<char>,
) -> StreamView {
    if line.len() == 0 || is_done_line(line) {
        st
    } else if is_protocol_line(line) {
        if verbose >= 4 {
            StreamView { shown: with_log(st.shown, "[SSE] "@, line), ..st }
        } else {
            st
        }
    } else {
        let payload = line_payload(line);
        match json_read(payload) {
            Reading::Value(j) => after_event(st, provider, verbose, payload, j),
            Reading::Malformed(why) => if verbose >= 2 {
                StreamView {
                    shown: with_warning(st.shown, unread_warning(payload, why)),
                    ..st
                }
            } else {
                st
            },
        }
    }
}

/// The state after the bytes of one line.
pub open spec fn after_line_bytes(
    st: StreamView,
    provider: LlmProvider,
    verbose: u8,
    bytes: Seq<u8>,
) -> StreamView {
    if valid_utf8(bytes) {
        after_line(st, provider, verbose, trimmed(decode_utf8(bytes)))
    } else if verbose >= 2 {
        StreamView {
            shown: with_warning(
                st.shown,
                "[SSE UTF-8 Error] Skipping line: "@ + utf8_fault(bytes).message,
            ),
            ..st
        }
    } else {
        st
    }
}

/// Whether the bytes of a line end the reading of the lines at hand.
pub open spec fn is_done_bytes(bytes: Seq<u8>) -> bool {
    valid_utf8(bytes) && is_done_line(trimmed(decode_utf8(bytes)))
}

/// Position of the first line feed at or after `i`, or the number of bytes.
pub open spec fn line_feed(bytes: Seq<u8>, i: int) -> int
    decreases bytes.len() - i,
{
    if i < 0 || i >= bytes.len() {
        bytes.len() as int
    } else if bytes[i] == 10 {
        i
    } else {
        line_feed(bytes, i + 1)
    }
}

proof fn lemma_line_feed(bytes: Seq<u8>, i: int)
    requires
        0 <= i <= bytes.len(),
    ensures
        i <= line_feed(bytes, i) <= bytes.len(),
    decreases bytes.len() - i,
{
    if i < bytes.len() && bytes[i] != 10 {
        lemma_line_feed(bytes, i + 1);
    }
}

/// The state, and the bytes left over, after all complete lines at hand. A line
/// that says `[DONE]` leaves what follows it for later.
pub open spec fn after_lines(
    st: StreamView,
    provider: LlmProvider,
    verbose: u8,
    buffer: Seq<u8>,
) -> (StreamView, Seq<u8>)
    decreases buffer.len(),
{
    let nl = line_feed(buffer, 0);
    if 0 <= nl < buffer.len() {
        let line = buffer.take(nl);
        let rest = buffer.skip(nl + 1);
        let next = after_line_bytes(st, provider, verbose, line);
        if is_done_bytes(line) {
            (next, rest)
        } else {
            after_lines(next, provider, verbose, rest)
        }
    } else {
        (st, buffer)
    }
}

/// The state after the bytes that are left at the end of the stream.
pub open spec fn after_remainder(st: StreamView, provider: LlmProvider, buffer: Seq<u8>) -> StreamView {
    let text = if valid_utf8(buffer) {
        trimmed(decode_utf8(buffer))
    } else {
        trimmed(""@)
    };
    if text.len() == 0 || "event:"@.is_prefix_of(text) {
        st
    } else {
        let payload = line_payload(text);
        if payload == "[DONE]"@ {
            st
        } else {
            match json_read(payload) {
                Reading::Value(j) => after_last_event(st, provider, j),
                Reading::Malformed(_) => st,
            }
        }
    }
}

impl StreamState {
    /// Reads one trimmed line; says whether it ends the reading of the lines at
    /// hand.
    pub fn feed_line(&mut self, provider: LlmProvider, verbose: u8, line: &str) -> (r: bool)
        ensures
            final(self)@ == after_line(old(self)@, provider, verbose, line@),
            r == is_done_line(line@),
    {
        if line.is_empty() {
            return false;
        }
        if starts_with(line, "event:") || starts_with(line, ":") {
            if verbose >= 4 {
                put_log(&mut self.shown, "[SSE] ", line);
            }
            return false;
        }
        let payload = get_payload(line);
        if str_eq(payload, "[DONE]") {
            return true;
        }
        match parse_json(payload) {
            Ok(json) => {
                self.apply_event(provider, verbose, payload, &json);
            },
            Err(why) => {
                if verbose >= 2 {
                    let mut w = String::from_str("[SSE Parse Warning] Skipping unparseable line: ");
                    w.append(take_chars(payload, 120));
                    w.append(" (");
                    w.append(why.as_str());
                    w.append(")");
                    put_warning(&mut self.shown, w.as_str());
                }
            },
        }
        false
    }

    fn feed_line_bytes(&mut self, provider: LlmProvider, verbose: u8, bytes: &Vec<u8>) -> (r: bool)
        ensures
            final(self)@ == after_line_bytes(old(self)@, provider, verbose, bytes@),
            r == is_done_bytes(bytes@),
    {
        match utf8_text(bytes) {
            Ok(s) => self.feed_line(provider, verbose, trim(s.as_str())),
            Err(e) => {
                if verbose >= 2 {
                    let mut w = String::from_str("[SSE UTF-8 Error] Skipping line: ");
                    w.append(e.message.as_str());
                    put_warning(&mut self.shown, w.as_str());
                }
                false
            },
        }
    }

    /// Reads the complete lines of `buffer` and leaves the rest in it. Only
    /// whole lines are decoded, so a character that two chunks share is never
    /// split.
    pub fn feed_lines(&mut self, provider: LlmProvider, verbose: u8, buffer: &mut Vec<u8>)
        ensures
            (final(self)@, final(buffer)@) == after_lines(
                old(self)@,
                provider,
                verbose,
                old(buffer)@,
            ),
    {
        loop
            invariant
                after_lines(self@, provider, verbose, buffer@) == after_lines(
                    old(self)@,
                    provider,
                    verbose,
                    old(buffer)@,
                ),
            decreases buffer@.len(),
        {
            let n: usize = buffer.len();
            let mut nl: usize = 0;
            while nl < n && buffer[nl] != 10
                invariant
                    nl <= n,
                    n == buffer@.len(),
                    line_feed(buffer@, nl as int) == line_feed(buffer@, 0),
                decreases n - nl,
            {
                nl = nl + 1;
            }
            if nl >= n {
                return;
            }
            let ghost whole = buffer@;
            let mut rest = buffer.split_off(nl + 1);
            buffer.pop();
            proof {
                assert(buffer@ =~= whole.take(nl as int));
                assert(rest@ =~= whole.skip(nl + 1));
            }
            let done = self.feed_line_bytes(provider, verbose, buffer);
            std::mem::swap(buffer, &mut rest);
            if done {
                return;
            }
        }
    }

    /// Reads what is left at the end of the stream.
    pub fn feed_remainder(&mut self, provider: LlmProvider, buffer: &Vec<u8>)
        ensures
            final(self)@ == after_remainder(old(self)@, provider, buffer@),
    {
        let decoded = match utf8_text(buffer) {
            Ok(s) => s,
            Err(_) => "".to_owned(),
        };
        let text = trim(decoded.as_str());
        if text.is_empty() || starts_with(text, "event:") {
            return;
        }
        let payload = get_payload(text);
        if str_eq(payload, "[DONE]") {
            return;
        }
        match parse_json(payload) {
            Ok(json) => {
                self.apply_last_event(provider, &json);
            },
            Err(_) => {},
        }
    }
}

/// Whether no complete line at hand says `[DONE]`.
pub open spec fn no_done_line(buffer: Seq<u8>) -> bool
    decreases buffer.len(),
{
    let nl = line_feed(buffer, 0);
    0 <= nl < buffer.len() ==> !is_done_bytes(buffer.take(nl)) && no_done_line(buffer.skip(nl + 1))
}

proof fn lemma_line_feed_prefix(a: Seq<u8>, b: Seq<u8>, i: int)
    requires
        0 <= i <= a.len(),
    ensures
        line_feed(a, i) < a.len() ==> line_feed(a + b, i) == line_feed(a, i),
    decreases a.len() - i,
{
    if i < a.len() && a[i] != 10 {
        lemma_line_feed_prefix(a, b, i + 1);
    }
}

/// Where the stream is cut into chunks does not matter: reading `a` and then
/// `b` is reading both at once, as long as no line of `a` says `[DONE]`.
pub proof fn chunks_do_not_matter(
    st: StreamView,
    provider: LlmProvider,
    verbose: u8,
    a: Seq<u8>,
    b: Seq<u8>,
)
    requires
        no_done_line(a),
    ensures
        after_lines(
            after_lines(st, provider, verbose, a).0,
            provider,
            verbose,
            after_lines(st, provider, verbose, a).1 + b,
        ) == after_lines(st, provider, verbose, a + b),
    decreases a.len(),
{
    let nl = line_feed(a, 0);
    lemma_line_feed(a, 0);
    if nl < a.len() {
        lemma_line_feed_prefix(a, b, 0);
        assert((a + b).take(nl) =~= a.take(nl));
        assert((a + b).skip(nl + 1) =~= a.skip(nl + 1) + b);
        chunks_do_not_matter(
            after_line_bytes(st, provider, verbose, a.take(nl)),
            provider,
            verbose,
            a.skip(nl + 1),
            b,
        );
    }
}

// ---------------------------------------------------------------------------
// The end of a response
// ---------------------------------------------------------------------------

/// The tool calls of a finished response: those that could be recovered, and
/// no list where none could.
pub open spec fn finished_calls(st: StreamView, defs: Seq<JsonView>) -> Option<Seq<ToolCallView>> {
    match st.calls {
        None => None,
        Some(calls) => {
            let kept = recovered_calls(calls, defs);
            if kept.len() == 0 {
                None
            } else {
                Some(kept)
            }
        },
    }
}

/// The message that a finished response comes to.
pub open spec fn finished_message(
    st: StreamView,
    defs: Seq<JsonView>,
    model: Seq<char>,
    timestamp: i64,
) -> MessageView {
    MessageView {
        reasoning_content: st.reasoning,
        tool_calls: finished_calls(st, defs),
        model: Some(model),
        ..plain_message("assistant"@, st.content, timestamp)
    }
}

pub const FLAT_CALL_WARNING: &'static str = "(Warning: tool call fields (name/arguments) at top level, not inside 'function'. Assuming non-OpenAI format)";

/// What is shown when a response that showed no content ends.
pub open spec fn silent_end(has_tool: bool, reasoning: Option<Seq<char>>) -> Seq<char> {
    let thought = reasoning is Some && trimmed(reasoning->0).len() > 0;
    if has_tool && thought {
        "Assistant > [Tool Call] (after reasoning)\n"@
    } else if has_tool {
        "Assistant > [Tool Call]\n"@
    } else if thought {
        "Assistant > (Thought only)\n"@
    } else if reasoning is None {
        "Assistant > (No response - reasoning not supported)\n"@
    } else {
        "Assistant > (No response)\n"@
    }
}

/// What is shown when a response ends.
pub open spec fn end_text(st: StreamView, has_tool: bool) -> Seq<char> {
    let a = if st.thinking {
        "\x1b[0m\n\n"@
    } else {
        Seq::empty()
    };
    let b = if st.started {
        a + "\n"@
    } else {
        let c = a + silent_end(has_tool, st.reasoning);
        if st.nonstandard {
            with_warning(c, FLAT_CALL_WARNING@)
        } else {
            c
        }
    };
    b + "\n"@
}

impl StreamState {
    /// Finishes the response: the message, and what is shown at its end.
    pub fn finish(self, tool_defs: &Vec<Json>, model: &str) -> (r: (Message, String))
        ensures
            r.0@ == finished_message(self@, json_seq(tool_defs@), model@, r.0.timestamp),
            r.1@ == end_text(self@, r.0@.tool_calls is Some),
    {
        let mut out = String::new();
        if self.thinking {
            out = String::from_str("\x1b[0m\n\n");
        }
        let mut message = Message::plain("assistant", self.content.as_str(), now_seconds());
        message.model = Some(model.to_owned());
        let mut calls: Option<Vec<ToolCall>> = None;
        match self.calls {
            None => {},
            Some(v) => {
                let mut v = v;
                post_process_tool_calls(&mut v, tool_defs);
                proof {
                    assert(calls_view(v@).len() == v@.len());
                }
                if v.len() > 0 {
                    calls = Some(v);
                }
            },
        }
        let has_tool = calls.is_some();
        if self.started {
            out.append("\n");
        } else {
            let thought = match &self.reasoning {
                Some(s) => !trim(s.as_str()).is_empty(),
                None => false,
            };
            if has_tool && thought {
                out.append("Assistant > [Tool Call] (after reasoning)\n");
            } else if has_tool {
                out.append("Assistant > [Tool Call]\n");
            } else if thought {
                out.append("Assistant > (Thought only)\n");
            } else if self.reasoning.is_none() {
                out.append("Assistant > (No response - reasoning not supported)\n");
            } else {
                out.append("Assistant > (No response)\n");
            }
            if self.nonstandard {
                put_warning(&mut out, FLAT_CALL_WARNING);
            }
        }
        out.append("\n");
        message.tool_calls = calls;
        message.reasoning_content = self.reasoning;
        (message, out)
    }
}

// ---------------------------------------------------------------------------
// Requests
// ---------------------------------------------------------------------------

/// The request for the next response.
pub fn build_request(
    provider: LlmProvider,
    settings: &Settings,
    messages: &Vec<Message>,
    tools: Vec<Json>,
    tool_result_format: ToolResultFormat,
    max_tokens_fallback: bool,
) -> (r: ChatRequest)
    ensures
        r.provider == provider,
        r.model@ == settings.llm_model@,
        r.max_output_tokens == settings.max_output_tokens,
        r.stream,
        r.tools@ == tools@,
        messages_view(r.messages@) == messages_view(messages@),
        r.tool_result_format == tool_result_format,
        r.max_tokens_fallback == max_tokens_fallback,
{
    ChatRequest {
        provider,
        model: settings.llm_model.clone(),
        max_output_tokens: settings.max_output_tokens as usize,
        tools,
        stream: true,
        messages: copy_messages(messages),
        tool_result_format,
        max_tokens_fallback,
    }
}

/// Whether only the messages since the last response are logged.
pub open spec fn logs_increment(last_sent: usize, count: nat) -> bool {
    0 < last_sent < count
}

/// What is logged of a request. `text` is the request as it is sent, `tail` the
/// request with the messages since the last response only.
pub open spec fn request_log_text(
    verbose: u8,
    url: Seq<char>,
    text: Seq<char>,
    last_sent: usize,
    count: nat,
    tail: Seq<char>,
) -> Seq<char> {
    let full = "\x1b[90m--- [API REQUEST: "@ + url + "] ---\n"@ + text + "\x1b[0m\n"@;
    if verbose == 3 || verbose == 4 {
        full
    } else if verbose == 2 {
        if logs_increment(last_sent, count) {
            "\x1b[90m--- [API REQUEST: "@ + url + " (Verbose 2: Incremental)] ---\x1b[0m\n"@
                + "\x1b[92;2;3m... ["@ + decimal(last_sent as nat)
                + " messages omitted] ...\x1b[0m\n\x1b[90m"@ + tail + "\x1b[0m\n"@
        } else {
            full
        }
    } else if verbose == 0 {
        Seq::empty()
    } else {
        "\x1b[90m--- [API REQUEST: "@ + url + "] (Content-Length: "@ + decimal(utf8_len(text))
            + ") ---\x1b[0m\n"@
    }
}

/// What is logged of a request.
pub fn request_log(
    verbose: u8,
    url: &str,
    text: &str,
    last_sent: usize,
    count: usize,
    tail: &str,
) -> (r: String)
    ensures
        r@ == request_log_text(verbose, url@, text@, last_sent, count as nat, tail@),
{
    if verbose == 0 {
        return String::new();
    }
    let mut s = String::from_str("\x1b[90m--- [API REQUEST: ");
    s.append(url);
    if verbose == 2 && 0 < last_sent && last_sent < count {
        s.append(" (Verbose 2: Incremental)] ---\x1b[0m\n");
        s.append("\x1b[92;2;3m... [");
        let n = usize_text(last_sent);
        s.append(n.as_str());
        s.append(" messages omitted] ...\x1b[0m\n\x1b[90m");
        s.append(tail);
        s.append("\x1b[0m\n");
    } else if verbose == 2 || verbose == 3 || verbose == 4 {
        s.append("] ---\n");
        s.append(text);
        s.append("\x1b[0m\n");
    } else {
        s.append("] (Content-Length: ");
        let n = usize_text(byte_len(text));
        s.append(n.as_str());
        s.append(") ---\x1b[0m\n");
    }
    s
}

/// The headers that authenticate a request.
pub open spec fn auth_pairs(provider: LlmProvider, key: Seq<char>) -> Seq<(Seq<char>, Seq<char>)> {
    if provider == LlmProvider::Anthropic {
        seq![("x-api-key"@, key), ("anthropic-version"@, "2023-11-01"@)]
    } else {
        seq![("Authorization"@, "Bearer "@ + key)]
    }
}

/// The headers that authenticate a request.
pub fn auth_headers(provider: LlmProvider, api_key: &str) -> (r: Vec<(String, String)>)
    ensures
        pairs_view(r@) == auth_pairs(provider, api_key@),
{
    let mut out: Vec<(String, String)> = Vec::new();
    if provider == LlmProvider::Anthropic {
        out.push(("x-api-key".to_owned(), api_key.to_owned()));
        out.push(("anthropic-version".to_owned(), "2023-11-01".to_owned()));
    } else {
        let mut v = String::from_str("Bearer ");
        v.append(api_key);
        out.push(("Authorization".to_owned(), v));
    }
    proof {
        assert(pairs_view(out@) =~= auth_pairs(provider, api_key@));
    }
    out
}

/// The line that says how a request is authenticated, without the key.
pub open spec fn auth_line(provider: LlmProvider, verbose: u8) -> Seq<char> {
    if verbose == 0 {
        Seq::empty()
    } else if provider == LlmProvider::Anthropic {
        C_DIM_GRAY@ + "[AUTH: x-api-key] masked: ****"@ + RESET@ + "\n"@
    } else {
        C_DIM_GRAY@ + "[AUTH: Authorization/Bearer] masked: Bearer ****"@ + RESET@ + "\n"@
    }
}

/// The line that says how a request is authenticated, without the key.
pub fn auth_log(provider: LlmProvider, verbose: u8) -> (r: String)
    ensures
        r@ == auth_line(provider, verbose),
{
    if verbose == 0 {
        return String::new();
    }
    let mut s = String::from_str(C_DIM_GRAY);
    if provider == LlmProvider::Anthropic {
        s.append("[AUTH: x-api-key] masked: ****");
    } else {
        s.append("[AUTH: Authorization/Bearer] masked: Bearer ****");
    }
    s.append(RESET);
    s.append("\n");
    s
}

/// Whether a failed request is shown in part.
pub open spec fn shows_excerpt(request: Seq<char>, verbose: u8) -> bool {
    utf8_len(request) > 62 && verbose < 2
}

/// A failed request as it is shown: whole, or its first and last 30 bytes.
pub open spec fn request_excerpt(request: Seq<char>, verbose: u8) -> Seq<char> {
    let bytes = encode_utf8(request);
    if shows_excerpt(request, verbose) {
        decode_utf8(bytes.take(30)) + "...("@ + decimal(bytes.len()) + "bytes)..."@ + decode_utf8(
            bytes.skip(bytes.len() - 30),
        )
    } else {
        request
    }
}

/// The error on a response that is no success.
pub open spec fn api_error(status: Seq<char>, body: Seq<char>, excerpt: Seq<char>) -> Seq<char> {
    "API Error ("@ + status + ")\nResponse: "@ + body + "\nRequest Payload: "@ + excerpt
}

/// The error on a response that is no success. Where the request is shown in
/// part, its 30th byte from either end is the edge of a character.
pub fn api_error_text(status: &str, body: &str, request: &str, verbose: u8) -> (r: String)
    requires
        shows_excerpt(request@, verbose) ==> is_char_boundary(encode_utf8(request@), 30)
            && is_char_boundary(encode_utf8(request@), utf8_len(request@) - 30),
    ensures
        r@ == api_error(status@, body@, request_excerpt(request@, verbose)),
{
    let mut s = String::from_str("API Error (");
    s.append(status);
    s.append(")\nResponse: ");
    s.append(body);
    s.append("\nRequest Payload: ");
    let n: usize = byte_len(request);
    if n > 62 && verbose < 2 {
        let ghost bytes = encode_utf8(request@);
        let (head, _) = request.split_at(30);
        let (_, tail) = request.split_at(n - 30);
        proof {
            encode_utf8_decode_utf8(head@);
            encode_utf8_decode_utf8(tail@);
            assert(bytes.subrange(0, 30) =~= bytes.take(30));
            assert(bytes.subrange(n - 30, n as int) =~= bytes.skip(n - 30));
        }
        let mut x = head.to_owned();
        x.append("...(");
        let d = usize_text(n);
        x.append(d.as_str());
        x.append("bytes)...");
        x.append(tail);
        s.append(x.as_str());
    } else {
        s.append(request);
    }
    s
}

// ---------------------------------------------------------------------------
// The loop
// ---------------------------------------------------------------------------

/// Why the reasoning loop ended.
#[derive(Debug, Clone, Copy, PartialEq, Eq, Structural)]
pub enum EndReason {
    /// A final answer: the last message of the session, without tool calls.
    Completed,
    /// The call failed.
    LlmError,
    /// The user interrupted.
    Interrupted,
    /// Too many consecutive empty responses.
    EmptyLimit,
    /// Too many turns.
    MaxTurns,
}

impl EndReason {
    /// Whether the loop ended with a final answer.
    pub fn is_completed(self) -> (r: bool)
        ensures
            r == (self == EndReason::Completed),
    {
        match self {
            EndReason::Completed => true,
            _ => false,
        }
    }
}

/// How many messages of a role there are among the first `n`.
pub open spec fn role_count(messages: Seq<MessageView>, role: Seq<char>, n: int) -> nat
    decreases n,
{
    if n <= 0 {
        0
    } else {
        role_count(messages, role, n - 1) + if messages[n - 1].role == role {
            1nat
        } else {
            0nat
        }
    }
}

/// Position of the last message of a role among the first `n`, or -1.
pub open spec fn last_of_role(messages: Seq<MessageView>, role: Seq<char>, n: int) -> int
    decreases n,
{
    if n <= 0 {
        -1
    } else if messages[n - 1].role == role {
        n - 1
    } else {
        last_of_role(messages, role, n - 1)
    }
}

/// A user message of the present session.
pub open spec fn user_message(
    input: Seq<char>,
    files: Seq<AttachedFileView>,
    id: Seq<char>,
    timestamp: i64,
) -> MessageView {
    MessageView {
        attached_files: files,
        session_id: id,
        ..plain_message("user"@, input, timestamp)
    }
}

/// Whether the user message of the present turn is there already, from a turn
/// that broke off.
pub open spec fn has_turn_message(s: SessionView) -> bool {
    role_count(s.messages, "user"@, s.messages.len() as int) >= s.turn
}

/// The messages with the last user message replaced in content and files.
pub open spec fn with_last_user(
    messages: Seq<MessageView>,
    input: Seq<char>,
    files: Seq<AttachedFileView>,
) -> Seq<MessageView> {
    let i = last_of_role(messages, "user"@, messages.len() as int);
    if 0 <= i < messages.len() {
        messages.update(i, MessageView { content: input, attached_files: files, ..messages[i] })
    } else {
        messages
    }
}

/// Counts the messages of a role.
pub fn count_role(messages: &Vec<Message>, role: &str) -> (r: usize)
    ensures
        r == role_count(messages_view(messages@), role@, messages@.len() as int),
        r <= messages@.len(),
{
    let ghost mv = messages_view(messages@);
    let mut n: usize = 0;
    let mut i: usize = 0;
    while i < messages.len()
        invariant
            i <= messages@.len(),
            n <= i,
            mv == messages_view(messages@),
            n == role_count(mv, role@, i as int),
        decreases messages@.len() - i,
    {
        proof {
            assert(mv[i as int] == messages@[i as int]@);
        }
        if str_eq(messages[i].role.as_str(), role) {
            n = n + 1;
        }
        i = i + 1;
    }
    n
}

/// Takes the user input of a turn into the session: into the message that a
/// broken turn left, else as a new message. Says whether it is new, and so has
/// to be saved.
pub fn begin_turn(session: &mut Session, user_input: &str, attached_files: Vec<AttachedFile>) -> (r:
    bool)
    requires
        old(session).turn >= 0,
    ensures
        r == !has_turn_message(old(session)@),
        !r ==> final(session)@ == (SessionView {
            messages: with_last_user(
                old(session)@.messages,
                user_input@,
                files_view(attached_files@),
            ),
            ..old(session)@
        }),
        r ==> final(session)@ == (SessionView {
            messages: old(session)@.messages.push(
                user_message(
                    user_input@,
                    files_view(attached_files@),
                    old(session)@.id,
                    final(session)@.messages.last().timestamp,
                ),
            ),
            ..old(session)@
        }),
{
    let ghost mv = messages_view(session.messages@);
    let ghost fv = files_view(attached_files@);
    proof {
        assert(mv.len() == session.messages@.len());
    }
    if count_role(&session.messages, "user") >= session.turn as usize {
        let n: usize = session.messages.len();
        let mut i: usize = n;
        while i > 0 && !str_eq(session.messages[i - 1].role.as_str(), "user")
            invariant
                i <= n,
                n == session.messages@.len(),
                mv == messages_view(session.messages@),
                last_of_role(mv, "user"@, i as int) == last_of_role(mv, "user"@, n as int),
            decreases i,
        {
            proof {
                assert(mv[i - 1] == session.messages@[i - 1]@);
            }
            i = i - 1;
        }
        if i > 0 {
            proof {
                assert(mv[i - 1] == session.messages@[i - 1]@);
            }
            let mut m = session.messages[i - 1].copy();
            m.content = user_input.to_owned();
            m.attached_files = attached_files;
            let ghost nv = m@;
            session.messages.set(i - 1, m);
            proof {
                assert(messages_view(session.messages@) =~= mv.update(i - 1, nv));
            }
        }
        false
    } else {
        let mut m = Message::plain("user", user_input, now_seconds());
        m.attached_files = attached_files;
        session.push_message(m);
        proof {
            assert(session@.messages.last() == stamped(m@, old(session)@.id));
        }
        true
    }
}

/// Where the loop stands.
#[derive(Debug, Clone, Copy, PartialEq, Eq, Structural)]
pub struct LoopState {
    /// Rounds started.
    pub reasoning_turn: u32,
    /// Empty responses since the last that was not.
    pub empty_responses: u32,
    /// Tools that the last response asked for.
    pub tools: usize,
    /// Tools of the last response that are done.
    pub tools_done: usize,
}

/// The limits of the loop; 0 is no limit.
#[derive(Debug, Clone, Copy, PartialEq, Eq, Structural)]
pub struct LoopLimits {
    pub max_turns: u32,
    /// Consecutive empty responses.
    pub max_empty: u32,
    /// Whether there is no user to return to.
    pub is_batch: bool,
}

/// What came of the last action.
#[derive(Debug, Clone, Copy, PartialEq, Eq, Structural)]
pub enum LoopEvent {
    /// The turn begins.
    Begin,
    /// The call failed.
    CallFailed,
    /// The user interrupted.
    Interrupted,
    /// The response is empty.
    EmptyReply,
    /// The response is a final answer.
    Answer,
    /// The response asks for this many tools.
    ToolRequest(usize),
    /// A tool is done.
    ToolDone,
}

/// What to do next.
#[derive(Debug, Clone, Copy, PartialEq, Eq, Structural)]
pub enum LoopAction {
    /// Call the model.
    CallModel,
    /// Run the tool at this position in the last response.
    RunTool(usize),
    /// Return to the user.
    End(EndReason),
    /// Fail: too many turns, and no user to return to.
    Fail,
}

/// The start of a round.
pub open spec fn round_started(st: LoopState, limits: LoopLimits) -> (LoopState, LoopAction) {
    let next = LoopState { reasoning_turn: (st.reasoning_turn + 1) as u32, ..st };
    let action = if limits.max_turns > 0 && next.reasoning_turn > limits.max_turns {
        if limits.is_batch {
            LoopAction::Fail
        } else {
            LoopAction::End(EndReason::MaxTurns)
        }
    } else {
        LoopAction::CallModel
    };
    (next, action)
}

/// The next state and action of the loop.
pub open spec fn advanced(st: LoopState, event: LoopEvent, limits: LoopLimits) -> (
    LoopState,
    LoopAction,
) {
    match event {
        LoopEvent::Begin => round_started(st, limits),
        LoopEvent::CallFailed => (st, LoopAction::End(EndReason::LlmError)),
        LoopEvent::Interrupted => (st, LoopAction::End(EndReason::Interrupted)),
        LoopEvent::EmptyReply => {
            let next = LoopState { empty_responses: (st.empty_responses + 1) as u32, ..st };
            if limits.max_empty > 0 && next.empty_responses >= limits.max_empty {
                (next, LoopAction::End(EndReason::EmptyLimit))
            } else {
                round_started(next, limits)
            }
        },
        LoopEvent::Answer => (
            LoopState { empty_responses: 0, ..st },
            LoopAction::End(EndReason::Completed),
        ),
        LoopEvent::ToolRequest(n) => {
            let next = LoopState { empty_responses: 0, tools: n, tools_done: 0, ..st };
            if n > 0 {
                (next, LoopAction::RunTool(0))
            } else {
                round_started(next, limits)
            }
        },
        LoopEvent::ToolDone => if st.tools_done + 1 < st.tools {
            (
                LoopState { tools_done: (st.tools_done + 1) as usize, ..st },
                LoopAction::RunTool((st.tools_done + 1) as usize),
            )
        } else {
            round_started(LoopState { tools_done: st.tools, ..st }, limits)
        },
    }
}

/// Whether a response has neither content nor tool calls.
pub open spec fn is_empty_reply(m: MessageView) -> bool {
    trimmed(m.content).len() == 0 && m.tool_calls is None
}

/// What a response means for the loop.
pub open spec fn reply_event(m: MessageView) -> LoopEvent {
    if is_empty_reply(m) {
        LoopEvent::EmptyReply
    } else {
        match m.tool_calls {
            Some(calls) => LoopEvent::ToolRequest(calls.len() as usize),
            None => LoopEvent::Answer,
        }
    }
}

/// Whether a response has neither content nor tool calls.
pub fn reply_is_empty(message: &Message) -> (r: bool)
    ensures
        r == is_empty_reply(message@),
{
    trim(message.content.as_str()).is_empty() && message.tool_calls.is_none()
}

/// What a response means for the loop.
pub fn classify_reply(message: &Message) -> (r: LoopEvent)
    ensures
        r == reply_event(message@),
{
    if reply_is_empty(message) {
        return LoopEvent::EmptyReply;
    }
    match &message.tool_calls {
        Some(calls) => {
            proof {
                assert(calls_view(calls@).len() == calls@.len());
            }
            LoopEvent::ToolRequest(calls.len())
        },
        None => LoopEvent::Answer,
    }
}

impl LoopState {
    /// The loop before its first round.
    pub fn new() -> (r: LoopState)
        ensures
            r == (LoopState { reasoning_turn: 0, empty_responses: 0, tools: 0, tools_done: 0 }),
    {
        LoopState { reasoning_turn: 0, empty_responses: 0, tools: 0, tools_done: 0 }
    }

    fn start_round(&mut self, limits: &LoopLimits) -> (r: LoopAction)
        requires
            old(self).reasoning_turn < u32::MAX,
        ensures
            (*final(self), r) == round_started(*old(self), *limits),
    {
        self.reasoning_turn = self.reasoning_turn + 1;
        if limits.max_turns > 0 && self.reasoning_turn > limits.max_turns {
            if limits.is_batch {
                LoopAction::Fail
            } else {
                LoopAction::End(EndReason::MaxTurns)
            }
        } else {
            LoopAction::CallModel
        }
    }

    /// Takes what came of the last action and decides what to do next.
    pub fn advance(&mut self, event: LoopEvent, limits: &LoopLimits) -> (r: LoopAction)
        requires
            old(self).reasoning_turn < u32::MAX,
            old(self).empty_responses < u32::MAX,
        ensures
            (*final(self), r) == advanced(*old(self), event, *limits),
    {
        match event {
            LoopEvent::Begin => self.start_round(limits),
            LoopEvent::CallFailed => LoopAction::End(EndReason::LlmError),
            LoopEvent::Interrupted => LoopAction::End(EndReason::Interrupted),
            LoopEvent::EmptyReply => {
                self.empty_responses = self.empty_responses + 1;
                if limits.max_empty > 0 && self.empty_responses >= limits.max_empty {
                    LoopAction::End(EndReason::EmptyLimit)
                } else {
                    self.start_round(limits)
                }
            },
            LoopEvent::Answer => {
                self.empty_responses = 0;
                LoopAction::End(EndReason::Completed)
            },
            LoopEvent::ToolRequest(n) => {
                self.empty_responses = 0;
                self.tools = n;
                self.tools_done = 0;
                if n > 0 {
                    LoopAction::RunTool(0)
                } else {
                    self.start_round(limits)
                }
            },
            LoopEvent::ToolDone => {
                if self.tools > 0 && self.tools_done < self.tools - 1 {
                    self.tools_done = self.tools_done + 1;
                    LoopAction::RunTool(self.tools_done)
                } else {
                    self.tools_done = self.tools;
                    self.start_round(limits)
                }
            },
        }
    }
}

/// A limit on turns is kept: the model is called in a round only while the
/// number of rounds is within it.
pub proof fn calls_stay_within_turns(st: LoopState, event: LoopEvent, limits: LoopLimits)
    requires
        limits.max_turns > 0,
        st.reasoning_turn < u32::MAX,
        advanced(st, event, limits).1 == LoopAction::CallModel,
    ensures
        advanced(st, event, limits).0.reasoning_turn <= limits.max_turns,
{
}

/// A limit on empty responses is kept: the loop goes on only while their run is
/// shorter than the limit.
pub proof fn empty_run_stays_below_limit(st: LoopState, event: LoopEvent, limits: LoopLimits)
    requires
        limits.max_empty > 0,
        st.empty_responses < limits.max_empty,
        advanced(st, event, limits).1 == LoopAction::CallModel,
    ensures
        advanced(st, event, limits).0.empty_responses < limits.max_empty,
{
}

/// The loop ends with a final answer on a response with content and without
/// tool calls, and on nothing else.
pub proof fn completes_on_answer_alone(st: LoopState, event: LoopEvent, limits: LoopLimits)
    ensures
        advanced(st, event, limits).1 == LoopAction::End(EndReason::Completed) <==> event
            == LoopEvent::Answer,
{
}

/// The state after `k` tools of a response are done.
pub open spec fn after_tools(st: LoopState, limits: LoopLimits, k: nat) -> LoopState
    decreases k,
{
    if k == 0 {
        st
    } else {
        advanced(after_tools(st, limits, (k - 1) as nat), LoopEvent::ToolDone, limits).0
    }
}

/// A response that asks for `n` tools has each of them run once, in order:
/// after `k` of them the next to run is the one at position `k`.
pub proof fn tools_run_in_order(st: LoopState, limits: LoopLimits, n: usize, k: nat)
    requires
        0 < k < n,
    ensures
        ({
            let asked = advanced(st, LoopEvent::ToolRequest(n), limits);
            asked.1 == LoopAction::RunTool(0) && advanced(
                after_tools(asked.0, limits, (k - 1) as nat),
                LoopEvent::ToolDone,
                limits,
            ).1 == LoopAction::RunTool(k as usize)
        }),
{
    let asked = advanced(st, LoopEvent::ToolRequest(n), limits).0;
    lemma_tools_done(asked, limits, n, (k - 1) as nat);
}

proof fn lemma_tools_done(st: LoopState, limits: LoopLimits, n: usize, k: nat)
    requires
        st.tools == n,
        st.tools_done == 0,
        k < n,
    ensures
        after_tools(st, limits, k).tools == n,
        after_tools(st, limits, k).tools_done == k,
    decreases k,
{
    if k > 0 {
        lemma_tools_done(st, limits, n, (k - 1) as nat);
    }
}

/// `"Max reasoning turns (<n>) exceeded without a final answer"`.
pub fn max_turns_error(max_turns: u32) -> (r: String)
    ensures
        r@ == "Max reasoning turns ("@ + decimal(max_turns as nat)
            + ") exceeded without a final answer"@,
{
    let mut s = String::from_str("Max reasoning turns (");
    let n = u64_text(max_turns as u64);
    s.append(n.as_str());
    s.append(") exceeded without a final answer");
    s
}

/// The warning on reaching the limit of turns.
pub fn max_turns_warning(max_turns: u32) -> (r: String)
    ensures
        r@ == "\x1b[93m\u{26a0}\u{fe0f} Max reasoning turns ("@ + decimal(max_turns as nat)
            + ") reached. Returning to prompt.\x1b[0m"@,
{
    let mut s = String::from_str("\x1b[93m\u{26a0}\u{fe0f} Max reasoning turns (");
    let n = u64_text(max_turns as u64);
    s.append(n.as_str());
    s.append(") reached. Returning to prompt.\x1b[0m");
    s
}

/// What is said of an empty response.
pub open spec fn empty_notice(model: Seq<char>, count: nat, limit: u32) -> Seq<char> {
    if limit > 0 && count >= limit {
        if count == 1 {
            "\x1b[91m\u{26a0}\u{fe0f} "@ + model + " returned an empty response (limit: "@ + decimal(
                limit as nat,
            ) + "). Stopping.\x1b[0m"@
        } else {
            "\x1b[91m\u{26a0}\u{fe0f} "@ + model + " returned "@ + decimal(count)
                + " consecutive empty responses (limit: "@ + decimal(limit as nat)
                + "). Stopping.\x1b[0m"@
        }
    } else if limit > 0 {
        "\x1b[93m(Empty response from "@ + model + ", retrying "@ + decimal(count) + "/"@ + decimal(
            limit as nat,
        ) + "...)\x1b[0m"@
    } else {
        "\x1b[93m(Empty response from "@ + model + ", retrying "@ + decimal(count) + "...)\x1b[0m"@
    }
}

/// What is said of an empty response.
pub fn empty_notice_text(model: &str, count: u32, limit: u32) -> (r: String)
    ensures
        r@ == empty_notice(model@, count as nat, limit),
{
    let n = u64_text(count as u64);
    let l = u64_text(limit as u64);
    if limit > 0 && count >= limit {
        let mut s = String::from_str("\x1b[91m\u{26a0}\u{fe0f} ");
        s.append(model);
        if count == 1 {
            s.append(" returned an empty response (limit: ");
        } else {
            s.append(" returned ");
            s.append(n.as_str());
            s.append(" consecutive empty responses (limit: ");
        }
        s.append(l.as_str());
        s.append("). Stopping.\x1b[0m");
        s
    } else {
        let mut s = String::from_str("\x1b[93m(Empty response from ");
        s.append(model);
        s.append(", retrying ");
        s.append(n.as_str());
        if limit > 0 {
            s.append("/");
            s.append(l.as_str());
        }
        s.append("...)\x1b[0m");
        s
    }
}

// ---------------------------------------------------------------------------
// Call records
// ---------------------------------------------------------------------------

/// The record of a call that failed.
pub fn failed_call_record(
    model: &str,
    provider: LlmProvider,
    label: &str,
    latency_ms: u128,
    retry_count: u32,
) -> (r: LlmCallRecord)
    ensures
        r.model@ == model@,
        r.provider == provider,
        r.call_label@ == label@,
        r.usage == no_usage(),
        r.latency_ms == latency_ms,
        r.ttft_ms == 0,
        r.request_bytes == 0,
        r.response_bytes == 0,
        r.retry_count == retry_count,
        r.status == CallStatus::HttpError,
{
    LlmCallRecord {
        timestamp: now_seconds(),
        model: model.to_owned(),
        provider,
        call_label: label.to_owned(),
        usage: Usage::default(),
        latency_ms,
        ttft_ms: 0,
        request_bytes: 0,
        response_bytes: 0,
        retry_count,
        status: CallStatus::HttpError,
    }
}

/// The number of tools that a message asks for.
pub open spec fn tool_count(m: MessageView) -> nat {
    match m.tool_calls {
        Some(c) => c.len(),
        None => 0,
    }
}

/// The record of a call that was answered, and the number of tools that the
/// answer asks for.
pub fn call_record(
    model: &str,
    provider: LlmProvider,
    label: &str,
    message: &Message,
    usage: Option<Usage>,
    info: LlmRequestInfo,
    retry_count: u32,
) -> (r: (LlmCallRecord, usize))
    ensures
        r.0.model@ == model@,
        r.0.provider == provider,
        r.0.call_label@ == label@,
        r.0.usage == match usage {
            Some(u) => u,
            None => no_usage(),
        },
        r.0.latency_ms == info.latency_ms,
        r.0.ttft_ms == info.ttft_ms,
        r.0.request_bytes == info.request_bytes,
        r.0.response_bytes == info.response_bytes,
        r.0.retry_count == retry_count,
        r.0.status == if is_empty_reply(message@) {
            CallStatus::Empty
        } else {
            CallStatus::Success
        },
        r.1 == tool_count(message@),
{
    let status = if reply_is_empty(message) {
        CallStatus::Empty
    } else {
        CallStatus::Success
    };
    let count: usize = match &message.tool_calls {
        Some(c) => {
            proof {
                assert(calls_view(c@).len() == c@.len());
            }
            c.len()
        },
        None => 0,
    };
    let usage = match usage {
        Some(u) => u,
        None => Usage::default(),
    };
    (
        LlmCallRecord {
            timestamp: now_seconds(),
            model: model.to_owned(),
            provider,
            call_label: label.to_owned(),
            usage,
            latency_ms: info.latency_ms,
            ttft_ms: info.ttft_ms,
            request_bytes: info.request_bytes,
            response_bytes: info.response_bytes,
            retry_count,
            status,
        },
        count,
    )
}

/// Takes an accepted response into the session. What follows it, the results of
/// its tools, is what the next request adds.
pub fn accept_reply(session: &mut Session, settings: &mut Settings, message: Message)
    requires
        old(session).messages@.len() < usize::MAX,
    ensures
        final(session)@ == (SessionView {
            messages: old(session)@.messages.push(stamped(message@, old(session)@.id)),
            ..old(session)@
        }),
        final(settings)@ == (crate::model::SettingsView {
            last_sent_count: (old(session)@.messages.len() + 1) as usize,
            ..old(settings)@
        }),
{
    session.push_message(message);
    proof {
        assert(session@.messages.len() == session.messages@.len());
        assert(old(session)@.messages.len() == old(session).messages@.len());
    }
    settings.last_sent_count = session.messages.len();
}

// ---------------------------------------------------------------------------
// Tools
// ---------------------------------------------------------------------------

/// The arguments of a tool call, given what was read in them. The error says why
/// they could not be read, and the arguments are then null.
pub open spec fn arguments_read(r: Reading) -> (JsonView, Option<Seq<char>>) {
    match r {
        Reading::Value(v) => (v, None),
        Reading::Malformed(why) => (JsonView::Null, Some(why)),
    }
}

/// The arguments of a tool call that were read, or why they could not be.
pub fn take_arguments(r: Result<Json, String>) -> (a: (Json, Option<String>))
    ensures
        (a.0@, opt_view(a.1)) == arguments_read(reading_of(r)),
{
    match r {
        Ok(v) => (v, None),
        Err(why) => (Json::Null, Some(why)),
    }
}

/// The arguments of a tool call, and why they could not be read.
pub fn read_call_arguments(arguments: &Json) -> (r: (Json, Option<String>))
    ensures
        (r.0@, opt_view(r.1)) == arguments_read(argument_reading(arguments@)),
{
    take_arguments(read_argument(arguments))
}

/// A result of a status and a message.
pub open spec fn status_result(status: Seq<char>, message: Seq<char>) -> JsonView {
    empty_object().with("status"@, JsonView::Str(status)).with("message"@, JsonView::Str(message))
}

fn make_status(status: &str, message: &str) -> (r: Json)
    ensures
        r@ == status_result(status@, message@),
{
    Json::object().with("status", Json::text(status)).with("message", Json::text(message))
}

/// The reason of a decision, or nothing.
pub open spec fn reason_text(d: ToolRunDecision) -> Seq<char> {
    match d.reason {
        Some(s) => s@,
        None => ""@,
    }
}

fn reason_str(d: &ToolRunDecision) -> (r: &str)
    ensures
        r@ == reason_text(*d),
{
    match &d.reason {
        Some(s) => s.as_str(),
        None => "",
    }
}

/// The result of a tool call that is not run.
pub open spec fn refused_result(d: ToolRunDecision) -> JsonView {
    match d.kind {
        ToolRunDecisionKind::UserCancel => status_result(
            "denied"@,
            "Tool execution skipped by user."@,
        ),
        ToolRunDecisionKind::SystemError => status_result(
            "error"@,
            "Tool execution skipped due to a system error: "@ + reason_text(d),
        ),
        _ => status_result("error"@, "unknown app bug"@),
    }
}

/// What is shown of a tool call that is not run.
pub open spec fn refused_notice(d: ToolRunDecision) -> Seq<char> {
    match d.kind {
        ToolRunDecisionKind::UserCancel => C_YELLOW@ + "*"@ + RESET@
            + " Tool execution was canceled by user."@,
        ToolRunDecisionKind::SystemError => C_RED@ + "*"@ + RESET@
            + " Tool execution was canceled due to a system error: "@ + reason_text(d),
        _ => C_RED@ + "**"@ + RESET@ + " Tool execution was canceled due to unknown app bug"@,
    }
}

/// The result of a tool call that is not run, and what is shown of it.
pub fn refuse_tool(d: &ToolRunDecision) -> (r: (Json, String))
    ensures
        r.0@ == refused_result(*d),
        r.1@ == refused_notice(*d),
{
    match d.kind {
        ToolRunDecisionKind::UserCancel => {
            let mut s = String::from_str(C_YELLOW);
            s.append("*");
            s.append(RESET);
            s.append(" Tool execution was canceled by user.");
            (make_status("denied", "Tool execution skipped by user."), s)
        },
        ToolRunDecisionKind::SystemError => {
            let mut s = String::from_str(C_RED);
            s.append("*");
            s.append(RESET);
            s.append(" Tool execution was canceled due to a system error: ");
            s.append(reason_str(d));
            let mut m = String::from_str("Tool execution skipped due to a system error: ");
            m.append(reason_str(d));
            (make_status("error", m.as_str()), s)
        },
        ToolRunDecisionKind::UserConfirm | ToolRunDecisionKind::AutoConfirm => {
            let mut s = String::from_str(C_RED);
            s.append("**");
            s.append(RESET);
            s.append(" Tool execution was canceled due to unknown app bug");
            (make_status("error", "unknown app bug"), s)
        },
    }
}

/// Whether a decision is one that runs a tool.
pub open spec fn is_confirmation(kind: ToolRunDecisionKind) -> bool {
    kind == ToolRunDecisionKind::UserConfirm || kind == ToolRunDecisionKind::AutoConfirm
}

/// What is shown of a tool call that is run.
pub fn confirm_notice(d: &ToolRunDecision) -> (r: String)
    requires
        is_confirmation(d.kind),
    ensures
        r@ == (if d.kind == ToolRunDecisionKind::UserConfirm {
            "     "@ + C_GREEN@ + " User-confirmed"@
        } else {
            "     "@ + C_MAGENTA@ + " Auto-confirmed"@
        }) + RESET@ + ": "@ + reason_text(*d) + RESET@,
{
    let mut s = String::from_str("     ");
    if d.kind == ToolRunDecisionKind::UserConfirm {
        s.append(C_GREEN);
        s.append(" User-confirmed");
    } else {
        s.append(C_MAGENTA);
        s.append(" Auto-confirmed");
    }
    s.append(RESET);
    s.append(": ");
    s.append(reason_str(d));
    s.append(RESET);
    s
}

/// The result of a tool call that was run.
pub open spec fn executed_result(outcome: Result<Json, String>) -> JsonView {
    match outcome {
        Ok(j) => j@,
        Err(e) => empty_object().with("error"@, JsonView::Str(e@)),
    }
}

/// The result of a tool call that was run, and what is shown of it.
pub fn execute_outcome(outcome: Result<Json, String>) -> (r: (Json, String))
    ensures
        r.0@ == executed_result(outcome),
        r.1@ == match outcome {
            Ok(_) => C_GREEN@ + "*"@ + RESET@ + " Tool executed successfully."@,
            Err(e) => C_RED@ + "*"@ + RESET@ + " Tool execution failed: "@ + e@,
        },
{
    match outcome {
        Ok(j) => {
            let mut s = String::from_str(C_GREEN);
            s.append("*");
            s.append(RESET);
            s.append(" Tool executed successfully.");
            (j, s)
        },
        Err(e) => {
            let mut s = String::from_str(C_RED);
            s.append("*");
            s.append(RESET);
            s.append(" Tool execution failed: ");
            s.append(e.as_str());
            (Json::object().with("error", Json::Str(e)), s)
        },
    }
}

/// The message that answers a tool call.
pub open spec fn tool_message(
    call: ToolCallView,
    result: JsonView,
    decision: DecisionView,
    id: Seq<char>,
    timestamp: i64,
) -> MessageView {
    MessageView {
        tool_call_id: Some(call.id),
        tool_name: Some(call.name),
        tool_call_decision: Some(decision),
        session_id: id,
        ..plain_message("tool"@, json_written(result), timestamp)
    }
}

/// Takes the result of a tool call into the session.
pub fn push_tool_result(
    session: &mut Session,
    call: &ToolCall,
    result: &Json,
    decision: &ToolRunDecision,
)
    ensures
        final(session)@ == (SessionView {
            messages: old(session)@.messages.push(
                tool_message(
                    call@,
                    result@,
                    decision@,
                    old(session)@.id,
                    final(session)@.messages.last().timestamp,
                ),
            ),
            ..old(session)@
        }),
{
    let text = print_json(result);
    let mut m = Message::plain("tool", text.as_str(), now_seconds());
    m.tool_call_id = Some(call.id.clone());
    m.tool_name = Some(call.function.name.clone());
    m.tool_call_decision = Some(decision.copy());
    session.push_message(m);
    proof {
        assert(session@.messages.last() == stamped(m@, old(session)@.id));
    }
}

} // verus!
