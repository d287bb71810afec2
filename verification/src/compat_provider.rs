//! Provider compatibility: request shapes, message formats and stream events.
//!
//! Detects the provider from an URL, shapes requests and conversations for it,
//! and turns its stream events into the one form that the rest of the library
//! reads.

use vstd::prelude::*;
use vstd::string::*;

use crate::attach::{files_view, AttachedFile, AttachedFileView};
use crate::compat_resilience::{argument_reading, opt_owned, read_argument, ToolResultFormat};
use crate::file::{data_url, data_url_parts, data_url_text, parse_data_url, FileType, FileTypeView};
use crate::json::{slot_value, slots_fit};
use crate::json_model::{
    empty_object, group_json, has_slots, json_seq, lemma_json_seq_push, lemma_with, members_of,
    opt_json, slot, Json, JsonView, Members,
};
use crate::json_text::{json_read, json_written, parse_json, print_json, reading_of, Reading};
use crate::model::{
    message_json, message_to_json, messages_view, no_usage, ChatRequest, CompletionTokensDetails,
    Message, MessageView, PromptTokensDetails, Usage,
};
use crate::text::{
    ascii_lower, ascii_upper, contains, decimal, join, join_of, lemma_case_forgotten,
    lemma_views_push, opt_is, opt_str_view, opt_view, replace, replaced, str_eq, str_or,
    text_contains, text_or, to_ascii_lower, trim, trim_end, trimmed, trimmed_end, u128_text,
    u64_text, usize_text, views,
};

verus! {

broadcast use group_json;

// ---------------------------------------------------------------------------
// Providers
// ---------------------------------------------------------------------------

/// The provider of an LLM API.
#[derive(Debug, Clone, Copy, PartialEq, Eq, Structural)]
pub enum LlmProvider {
    OpenAi,
    OpenAiResponses,
    Ollama,
    Anthropic,
}

/// The name of a provider.
pub open spec fn provider_name(p: LlmProvider) -> Seq<char> {
    match p {
        LlmProvider::OpenAi => "openai"@,
        LlmProvider::OpenAiResponses => "openai-responses"@,
        LlmProvider::Ollama => "ollama"@,
        LlmProvider::Anthropic => "anthropic"@,
    }
}

impl LlmProvider {
    /// The name of the provider.
    pub fn name(&self) -> (r: &'static str)
        ensures
            r@ == provider_name(*self),
    {
        match self {
            LlmProvider::OpenAi => "openai",
            LlmProvider::OpenAiResponses => "openai-responses",
            LlmProvider::Ollama => "ollama",
            LlmProvider::Anthropic => "anthropic",
        }
    }
}

/// Extra behaviours of gateways.
#[derive(Debug, Clone, Copy, PartialEq, Eq, Structural)]
pub enum ProviderExtra {
    /// Send `x-opencode-session` with the identifier of the session.
    Opencode,
}

/// The provider of an URL given in lower case.
pub open spec fn provider_of(lower: Seq<char>) -> LlmProvider {
    if text_contains(lower, "api.anthropic.com"@) || text_contains(lower, "/anthropic"@)
        || text_contains(lower, "/v1/messages"@) {
        LlmProvider::Anthropic
    } else if text_contains(lower, "/api/chat"@) || text_contains(lower, ":11434"@) {
        LlmProvider::Ollama
    } else if text_contains(lower, "/v1/responses"@) {
        LlmProvider::OpenAiResponses
    } else {
        LlmProvider::OpenAi
    }
}

/// Detects the provider of an URL given in lower case.
pub fn detect_lowered(lower: &str) -> (r: LlmProvider)
    ensures
        r == provider_of(lower@),
{
    if contains(lower, "api.anthropic.com") || contains(lower, "/anthropic") || contains(
        lower,
        "/v1/messages",
    ) {
        LlmProvider::Anthropic
    } else if contains(lower, "/api/chat") || contains(lower, ":11434") {
        LlmProvider::Ollama
    } else if contains(lower, "/v1/responses") {
        LlmProvider::OpenAiResponses
    } else {
        LlmProvider::OpenAi
    }
}

/// Detects the provider from an URL, whatever its case.
pub fn detect_provider(url: &str) -> (r: LlmProvider)
    ensures
        r == provider_of(ascii_lower(url@)),
{
    let lower = to_ascii_lower(url);
    detect_lowered(lower.as_str())
}

/// The case of an URL does not decide its provider.
pub proof fn provider_ignores_case(url: Seq<char>)
    ensures
        provider_of(ascii_lower(ascii_upper(url))) == provider_of(ascii_lower(url)),
{
    lemma_case_forgotten(url);
}

// ---------------------------------------------------------------------------
// Tool results as text
// ---------------------------------------------------------------------------

/// The text member `k`, or `d` where there is none.
pub open spec fn str_in(j: JsonView, k: Seq<char>, d: Seq<char>) -> Seq<char> {
    text_or(j.str_at(k), d)
}

pub(crate) fn get_str<'a>(j: &'a Json, k: &str, d: &'a str) -> (r: &'a str)
    ensures
        r@ == str_in(j@, k@, d@),
{
    str_or(j.str_at(k), d)
}

/// The non-negative integer member `k`, or 0.
pub open spec fn count_in(j: JsonView, k: Seq<char>) -> nat {
    match j.u64_at(k) {
        Some(n) => n as nat,
        None => 0,
    }
}

fn get_count(j: &Json, k: &str) -> (r: u64)
    ensures
        r == count_in(j@, k@),
{
    match j.u64_at(k) {
        Some(n) => n,
        None => 0,
    }
}

/// The parts `key: value` of the first `n` members, keys with spaces for
/// underscores.
pub open spec fn diff_parts(m: Members, n: int) -> Seq<Seq<char>>
    decreases n,
{
    if n <= 0 {
        Seq::empty()
    } else {
        diff_parts(m, n - 1).push(
            replaced(m[n - 1].0, "_"@, " "@) + ": "@ + json_written(m[n - 1].1),
        )
    }
}

/// The parts of a difference that is an object; none of any other.
pub open spec fn parts_of(diff: JsonView) -> Seq<Seq<char>> {
    match diff.as_object() {
        Some(m) => diff_parts(m, m.len() as int),
        None => Seq::empty(),
    }
}

fn list_parts(diff: &Json) -> (r: Vec<String>)
    ensures
        views(r@) == parts_of(diff@),
{
    let mut out: Vec<String> = Vec::new();
    proof {
        assert(views(out@) =~= Seq::<Seq<char>>::empty());
        reveal_strlit("_");
    }
    match diff.as_object() {
        None => {},
        Some(m) => {
            let mut i: usize = 0;
            while i < m.len()
                invariant
                    i <= m@.len(),
                    "_"@.len() > 0,
                    views(out@) == diff_parts(members_of(m@), i as int),
                decreases m@.len() - i,
            {
                let mut s = replace(m[i].0.as_str(), "_", " ");
                s.append(": ");
                let v = print_json(&m[i].1);
                s.append(v.as_str());
                proof {
                    lemma_views_push(out@, s);
                }
                out.push(s);
                i = i + 1;
            }
        },
    }
    out
}

/// A text followed by the lines on the first `n` issues that have a numerical
/// difference.
pub open spec fn with_issues(text: Seq<char>, issues: Seq<JsonView>, n: int) -> Seq<char>
    decreases n,
{
    if n <= 0 {
        text
    } else {
        let before = with_issues(text, issues, n - 1);
        match issues[n - 1].get("numerical_diff"@) {
            None => before,
            Some(diff) => before + "\n  Line "@ + str_in(issues[n - 1], "line"@, "?"@) + ": "@
                + join_of(parts_of(diff), ", "@),
        }
    }
}

/// The summary of a replacement.
pub open spec fn replacement_text(result: JsonView) -> Seq<char> {
    let head = "Replaced "@ + decimal(count_in(result, "occurrences_replaced"@))
        + " occurrence(s) in "@ + str_in(result, "path"@, "?"@) + " ("@ + str_in(
        result,
        "match_type"@,
        ""@,
    ) + ")"@;
    match result.get("fuzzy_match_detail"@) {
        None => head,
        Some(detail) => {
            let body = match detail.array_at("line_issues"@) {
                Some(issues) => with_issues(head, issues, issues.len() as int),
                None => head,
            };
            match detail.str_at("hint"@) {
                Some(hint) => body + "\n\n"@ + hint,
                None => body,
            }
        },
    }
}

fn render_replacement(result: &Json) -> (r: String)
    ensures
        r@ == replacement_text(result@),
{
    let mut text = String::from_str("Replaced ");
    let n = u64_text(get_count(result, "occurrences_replaced"));
    text.append(n.as_str());
    text.append(" occurrence(s) in ");
    text.append(get_str(result, "path", "?"));
    text.append(" (");
    text.append(get_str(result, "match_type", ""));
    text.append(")");
    let ghost head = text@;
    match result.get("fuzzy_match_detail") {
        None => {},
        Some(detail) => {
            match detail.array_at("line_issues") {
                None => {},
                Some(issues) => {
                    let mut i: usize = 0;
                    while i < issues.len()
                        invariant
                            i <= issues@.len(),
                            text@ == with_issues(head, json_seq(issues@), i as int),
                        decreases issues@.len() - i,
                    {
                        proof {
                            assert(json_seq(issues@)[i as int] == issues@[i as int]@);
                        }
                        match issues[i].get("numerical_diff") {
                            None => {},
                            Some(diff) => {
                                text.append("\n  Line ");
                                text.append(get_str(&issues[i], "line", "?"));
                                text.append(": ");
                                let parts = list_parts(diff);
                                let joined = join(&parts, ", ");
                                text.append(joined.as_str());
                            },
                        }
                        i = i + 1;
                    }
                },
            }
            match detail.str_at("hint") {
                None => {},
                Some(hint) => {
                    text.append("\n\n");
                    text.append(hint);
                },
            }
        },
    }
    text
}

/// One line for each of the first `n` matches.
pub open spec fn match_lines(matches: Seq<JsonView>, n: int) -> Seq<char>
    decreases n,
{
    if n <= 0 {
        Seq::empty()
    } else {
        let m = matches[n - 1];
        match_lines(matches, n - 1) + str_in(m, "path"@, "?"@) + ":"@ + decimal(
            count_in(m, "line"@),
        ) + ":"@ + str_in(m, "text"@, ""@) + "\n"@
    }
}

/// Whether a result says that it was truncated.
pub open spec fn is_truncated(result: JsonView) -> bool {
    match result.get("truncated"@) {
        Some(v) => v.as_bool() == Some(true),
        None => false,
    }
}

pub const NO_MATCHES: &'static str = "No matches found.";

pub const MATCHES_CUT: &'static str = "Matches were truncated (the kept tail has none); narrow the query or scope the path.";

pub const MATCHES_CUT_NOTE: &'static str = " (truncated; narrow the query or scope the path)";

/// The summary of a search.
pub open spec fn search_text(result: JsonView) -> Option<Seq<char>> {
    match result.array_at("matches"@) {
        None => None,
        Some(matches) => if matches.len() == 0 {
            Some(
                if is_truncated(result) {
                    MATCHES_CUT@
                } else {
                    NO_MATCHES@
                },
            )
        } else {
            let text = match_lines(matches, matches.len() as int) + "\u{2192} "@ + decimal(
                matches.len(),
            ) + " matches"@;
            Some(
                if is_truncated(result) {
                    text + MATCHES_CUT_NOTE@
                } else {
                    text
                },
            )
        },
    }
}

fn render_search(result: &Json) -> (r: Option<String>)
    ensures
        opt_view(r) == search_text(result@),
{
    let truncated = match result.get("truncated") {
        Some(v) => match v.as_bool() {
            Some(b) => b,
            None => false,
        },
        None => false,
    };
    match result.array_at("matches") {
        None => None,
        Some(matches) => {
            proof {
                assert(json_seq(matches@).len() == matches@.len());
            }
            if matches.len() == 0 {
                return Some(
                    if truncated {
                        MATCHES_CUT.to_owned()
                    } else {
                        NO_MATCHES.to_owned()
                    },
                );
            }
            let mut text = String::new();
            let mut i: usize = 0;
            while i < matches.len()
                invariant
                    i <= matches@.len(),
                    text@ == match_lines(json_seq(matches@), i as int),
                decreases matches@.len() - i,
            {
                let m = &matches[i];
                text.append(get_str(m, "path", "?"));
                text.append(":");
                let line = u64_text(get_count(m, "line"));
                text.append(line.as_str());
                text.append(":");
                text.append(get_str(m, "text", ""));
                text.append("\n");
                i = i + 1;
            }
            text.append("\u{2192} ");
            let n = usize_text(matches.len());
            text.append(n.as_str());
            text.append(" matches");
            if truncated {
                text.append(MATCHES_CUT_NOTE);
            }
            Some(text)
        },
    }
}

/// One line for each of the first `n` directory entries.
pub open spec fn entry_lines(entries: Seq<JsonView>, n: int) -> Seq<char>
    decreases n,
{
    if n <= 0 {
        Seq::empty()
    } else {
        let e = entries[n - 1];
        entry_lines(entries, n - 1) + str_in(e, "name"@, "?"@) + "\t"@ + str_in(e, "type"@, "?"@)
            + "\t"@ + decimal(count_in(e, "size"@)) + " bytes\n"@
    }
}

/// The listing of a directory.
pub open spec fn listing_text(result: JsonView) -> Option<Seq<char>> {
    match result.array_at("entries"@) {
        None => None,
        Some(entries) => if entries.len() == 0 {
            Some("(empty directory)"@)
        } else {
            Some(trimmed_end(entry_lines(entries, entries.len() as int)))
        },
    }
}

fn render_listing(result: &Json) -> (r: Option<String>)
    ensures
        opt_view(r) == listing_text(result@),
{
    match result.array_at("entries") {
        None => None,
        Some(entries) => {
            proof {
                assert(json_seq(entries@).len() == entries@.len());
            }
            if entries.len() == 0 {
                return Some("(empty directory)".to_owned());
            }
            let mut text = String::new();
            let mut i: usize = 0;
            while i < entries.len()
                invariant
                    i <= entries@.len(),
                    text@ == entry_lines(json_seq(entries@), i as int),
                decreases entries@.len() - i,
            {
                let e = &entries[i];
                text.append(get_str(e, "name", "?"));
                text.append("\t");
                text.append(get_str(e, "type", "?"));
                text.append("\t");
                let size = u64_text(get_count(e, "size"));
                text.append(size.as_str());
                text.append(" bytes\n");
                i = i + 1;
            }
            Some(trim_end(text.as_str()).to_owned())
        },
    }
}

/// What a command printed.
pub open spec fn command_text(result: JsonView) -> Seq<char> {
    let out = str_in(result, "stdout"@, ""@);
    let code = match result.i64_at("exit_code"@) {
        Some(n) => n,
        None => 0,
    };
    if code != 0 {
        out + "\nstderr:\n"@ + str_in(result, "stderr"@, ""@)
    } else {
        out
    }
}

fn render_command(result: &Json) -> (r: String)
    ensures
        r@ == command_text(result@),
{
    let code: i64 = match result.i64_at("exit_code") {
        Some(n) => n,
        None => 0,
    };
    let mut text = get_str(result, "stdout", "").to_owned();
    if code != 0 {
        text.append("\nstderr:\n");
        text.append(get_str(result, "stderr", ""));
    }
    text
}

/// A tool result as a concise text, for the tools that have one.
pub open spec fn tool_result_text(result: JsonView, tool: Seq<char>) -> Option<Seq<char>> {
    if tool == "read_file"@ || tool == "fetch_web"@ {
        result.str_at("content"@)
    } else if tool == "execute_bash"@ {
        Some(command_text(result))
    } else if tool == "write_file"@ {
        Some(
            "Written "@ + decimal(count_in(result, "bytes_written"@)) + " bytes to "@ + str_in(
                result,
                "path"@,
                "?"@,
            ),
        )
    } else if tool == "str_replace_editor"@ {
        Some(replacement_text(result))
    } else if tool == "grep_search"@ {
        search_text(result)
    } else if tool == "list_directory"@ {
        listing_text(result)
    } else {
        None
    }
}

/// Renders a tool result as a concise text.
pub fn render_tool_text(result: &Json, tool_name: &str) -> (r: Option<String>)
    ensures
        opt_view(r) == tool_result_text(result@, tool_name@),
{
    if str_eq(tool_name, "read_file") || str_eq(tool_name, "fetch_web") {
        match result.str_at("content") {
            Some(s) => Some(s.to_owned()),
            None => None,
        }
    } else if str_eq(tool_name, "execute_bash") {
        Some(render_command(result))
    } else if str_eq(tool_name, "write_file") {
        let mut text = String::from_str("Written ");
        let n = u64_text(get_count(result, "bytes_written"));
        text.append(n.as_str());
        text.append(" bytes to ");
        text.append(get_str(result, "path", "?"));
        Some(text)
    } else if str_eq(tool_name, "str_replace_editor") {
        Some(render_replacement(result))
    } else if str_eq(tool_name, "grep_search") {
        render_search(result)
    } else if str_eq(tool_name, "list_directory") {
        render_listing(result)
    } else {
        None
    }
}

// ---------------------------------------------------------------------------
// Tool results in messages
// ---------------------------------------------------------------------------

/// A message in the given format, given what was read in its content: a tool
/// result is rendered as text, or stands as the value itself. What is no JSON
/// stays as it is.
pub open spec fn message_with_reading(
    msg: JsonView,
    tool_name: Option<Seq<char>>,
    mode: ToolResultFormat,
    reading: Reading,
) -> JsonView {
    match (mode, reading) {
        (ToolResultFormat::Text, Reading::Value(result)) => match tool_name {
            Some(name) => match tool_result_text(result, name) {
                Some(text) => msg.with("content"@, JsonView::Str(text)),
                None => msg,
            },
            None => msg,
        },
        (ToolResultFormat::JsonStructured, Reading::Value(v)) => msg.with("content"@, v),
        _ => msg,
    }
}

/// Whether a message is the result of a tool.
pub open spec fn from_tool(msg: JsonView) -> bool {
    msg.str_at("role"@) == Some("tool"@)
}

/// One message in the given format: only the result of a tool is reformatted.
pub open spec fn formatted_message(msg: JsonView, orig: MessageView, mode: ToolResultFormat) -> JsonView {
    match msg.str_at("content"@) {
        Some(content) if from_tool(msg) => message_with_reading(
            msg,
            orig.tool_name,
            mode,
            json_read(content),
        ),
        _ => msg,
    }
}

/// Formats a message, given what was read in its content.
pub fn format_with_reading(
    msg: &Json,
    tool_name: Option<&str>,
    mode: ToolResultFormat,
    reading: Result<Json, String>,
) -> (r: Json)
    ensures
        r@ == message_with_reading(msg@, opt_str_view(tool_name), mode, reading_of(reading)),
{
    match (mode, reading) {
        (ToolResultFormat::Text, Ok(result)) => {
            if let Some(name) = tool_name {
                if let Some(text) = render_tool_text(&result, name) {
                    return msg.copy().with("content", Json::Str(text));
                }
            }
            msg.copy()
        },
        (ToolResultFormat::JsonStructured, Ok(v)) => msg.copy().with("content", v),
        _ => msg.copy(),
    }
}

fn format_message(msg: &Json, orig: &Message, mode: ToolResultFormat) -> (r: Json)
    ensures
        r@ == formatted_message(msg@, orig@, mode),
{
    if let ToolResultFormat::JsonString = mode {
        return msg.copy();
    }
    if !opt_is(msg.str_at("role"), "tool") {
        return msg.copy();
    }
    match msg.str_at("content") {
        Some(content) => {
            let name = match &orig.tool_name {
                Some(n) => Some(n.as_str()),
                None => None,
            };
            format_with_reading(msg, name, mode, parse_json(content))
        },
        None => msg.copy(),
    }
}

/// The messages, each in the given format.
pub open spec fn formatted_messages(
    messages: Seq<JsonView>,
    originals: Seq<MessageView>,
    mode: ToolResultFormat,
) -> Seq<JsonView> {
    Seq::new(messages.len(), |i: int| formatted_message(messages[i], originals[i], mode))
}

/// Reformats the tool results of a conversation: as JSON text, as a concise
/// text, or as JSON values.
pub fn reformat_tool_results(
    messages_json: &Vec<Json>,
    originals: &Vec<Message>,
    mode: ToolResultFormat,
) -> (r: Vec<Json>)
    requires
        messages_json@.len() == originals@.len(),
    ensures
        json_seq(r@) == formatted_messages(
            json_seq(messages_json@),
            messages_view(originals@),
            mode,
        ),
{
    let mut out: Vec<Json> = Vec::new();
    let mut i: usize = 0;
    while i < messages_json.len()
        invariant
            i <= messages_json@.len(),
            messages_json@.len() == originals@.len(),
            out@.len() == i,
            forall|k: int|
                0 <= k < i ==> #[trigger] out@[k]@ == formatted_message(
                    messages_json@[k]@,
                    originals@[k]@,
                    mode,
                ),
        decreases messages_json@.len() - i,
    {
        out.push(format_message(&messages_json[i], &originals[i], mode));
        i = i + 1;
    }
    proof {
        assert(json_seq(out@) =~= formatted_messages(
            json_seq(messages_json@),
            messages_view(originals@),
            mode,
        ));
    }
    out
}

/// Whether formatting a message meets a tool result that is no JSON.
pub open spec fn unreadable_result(msg: JsonView, orig: MessageView, mode: ToolResultFormat) -> bool {
    match msg.str_at("content"@) {
        None => false,
        Some(content) => json_read(content) is Malformed && from_tool(msg) && match mode {
            ToolResultFormat::JsonString => false,
            ToolResultFormat::Text => orig.tool_name is Some,
            ToolResultFormat::JsonStructured => true,
        },
    }
}

/// Whether a warning is due on a tool result that is no JSON and goes out as it
/// is.
pub fn has_unreadable_result(msg: &Json, orig: &Message, mode: ToolResultFormat) -> (r: bool)
    ensures
        r == unreadable_result(msg@, orig@, mode),
{
    match msg.str_at("content") {
        None => false,
        Some(content) => parse_json(content).is_err() && opt_is(msg.str_at("role"), "tool")
            && match mode {
            ToolResultFormat::JsonString => false,
            ToolResultFormat::Text => orig.tool_name.is_some(),
            ToolResultFormat::JsonStructured => true,
        },
    }
}

// ---------------------------------------------------------------------------
// Attachments
// ---------------------------------------------------------------------------

/// A `text` content block.
pub open spec fn text_block(text: Seq<char>) -> JsonView {
    empty_object().with("type"@, JsonView::Str("text"@)).with("text"@, JsonView::Str(text))
}

fn make_text_block(text: &str) -> (r: Json)
    ensures
        r@ == text_block(text@),
{
    Json::object().with("type", Json::text("text")).with("text", Json::text(text))
}

/// The content block of an attached file.
pub open spec fn file_block(f: AttachedFileView) -> JsonView {
    match f.attach_type {
        FileTypeView::Text => text_block(
            "<attached_file path=\""@ + f.path + "\">\n"@ + f.content + "\n</attached_file>"@,
        ),
        FileTypeView::Image(_) => empty_object().with("type"@, JsonView::Str("image_url"@)).with(
            "image_url"@,
            empty_object().with("url"@, JsonView::Str(f.content)),
        ),
        FileTypeView::Audio(format) => empty_object().with(
            "type"@,
            JsonView::Str("input_audio"@),
        ).with(
            "input_audio"@,
            empty_object().with("data"@, JsonView::Str(f.content)).with(
                "format"@,
                JsonView::Str(format),
            ),
        ),
        FileTypeView::Document(mime) => empty_object().with(
            "type"@,
            JsonView::Str("document"@),
        ).with(
            "source"@,
            empty_object().with("type"@, JsonView::Str("base64"@)).with(
                "media_type"@,
                JsonView::Str(mime),
            ).with("data"@, JsonView::Str(f.content)),
        ),
    }
}

fn make_file_block(f: &AttachedFile) -> (r: Json)
    ensures
        r@ == file_block(f@),
{
    match &f.attach_type {
        FileType::Text => {
            let mut s = String::from_str("<attached_file path=\"");
            s.append(f.path.as_str());
            s.append("\">\n");
            s.append(f.content.as_str());
            s.append("\n</attached_file>");
            make_text_block(s.as_str())
        },
        FileType::Image { .. } => {
            let inner = Json::object().with("url", Json::text(f.content.as_str()));
            Json::object().with("type", Json::text("image_url")).with("image_url", inner)
        },
        FileType::Audio { format } => {
            let inner = Json::object().with("data", Json::text(f.content.as_str())).with(
                "format",
                Json::text(format.as_str()),
            );
            Json::object().with("type", Json::text("input_audio")).with("input_audio", inner)
        },
        FileType::Document { mime } => {
            let inner = Json::object().with("type", Json::text("base64")).with(
                "media_type",
                Json::text(mime.as_str()),
            ).with("data", Json::text(f.content.as_str()));
            Json::object().with("type", Json::text("document")).with("source", inner)
        },
    }
}

/// The content blocks of a message with attachments: its text, unless it is
/// empty, and one block for each file.
pub open spec fn content_blocks(content: Seq<char>, files: Seq<AttachedFileView>) -> Seq<JsonView> {
    let head = if content.len() > 0 {
        seq![text_block(content)]
    } else {
        Seq::empty()
    };
    head + files.map_values(|f: AttachedFileView| file_block(f))
}

/// A message with the contents of its attachments.
pub open spec fn attached_message(msg: JsonView, orig: MessageView) -> JsonView {
    if orig.role == "user"@ && orig.attached_files.len() > 0 {
        msg.with("content"@, JsonView::Array(content_blocks(orig.content, orig.attached_files)))
    } else {
        msg
    }
}

fn attach_to_message(msg: &Json, orig: &Message) -> (r: Json)
    ensures
        r@ == attached_message(msg@, orig@),
{
    proof {
        assert(files_view(orig.attached_files@).len() == orig.attached_files@.len());
    }
    if !(str_eq(orig.role.as_str(), "user") && orig.attached_files.len() > 0) {
        return msg.copy();
    }
    let ghost fv = files_view(orig.attached_files@);
    let mut blocks: Vec<Json> = Vec::new();
    if !orig.content.as_str().is_empty() {
        blocks.push(make_text_block(orig.content.as_str()));
    }
    let ghost head = json_seq(blocks@);
    proof {
        if orig.content@.len() > 0 {
            assert(head =~= seq![text_block(orig.content@)]);
        } else {
            assert(head =~= Seq::<JsonView>::empty());
        }
        assert(head + fv.take(0).map_values(|f: AttachedFileView| file_block(f)) =~= head);
    }
    let mut i: usize = 0;
    while i < orig.attached_files.len()
        invariant
            i <= orig.attached_files@.len(),
            fv == files_view(orig.attached_files@),
            json_seq(blocks@) == head + fv.take(i as int).map_values(
                |f: AttachedFileView| file_block(f),
            ),
        decreases orig.attached_files@.len() - i,
    {
        let b = make_file_block(&orig.attached_files[i]);
        proof {
            lemma_json_seq_push(blocks@, b);
            assert(fv[i as int] == orig.attached_files@[i as int]@);
            assert(fv.take(i + 1).map_values(|f: AttachedFileView| file_block(f)) =~= fv.take(
                i as int,
            ).map_values(|f: AttachedFileView| file_block(f)).push(b@));
            assert((head + fv.take(i as int).map_values(|f: AttachedFileView| file_block(f))).push(
                b@,
            ) =~= head + fv.take(i + 1).map_values(|f: AttachedFileView| file_block(f)));
        }
        blocks.push(b);
        i = i + 1;
    }
    proof {
        assert(fv.take(fv.len() as int) =~= fv);
    }
    msg.copy().with("content", Json::Array(blocks))
}

/// The messages, each with the contents of its attachments.
pub open spec fn attached_messages(messages: Seq<JsonView>, originals: Seq<MessageView>) -> Seq<
    JsonView,
> {
    Seq::new(messages.len(), |i: int| attached_message(messages[i], originals[i]))
}

/// Expands each user message with attached files into content blocks.
pub fn attach_file_contents(messages_json: &Vec<Json>, originals: &Vec<Message>) -> (r: Vec<Json>)
    requires
        messages_json@.len() == originals@.len(),
    ensures
        json_seq(r@) == attached_messages(json_seq(messages_json@), messages_view(originals@)),
{
    let mut out: Vec<Json> = Vec::new();
    let mut i: usize = 0;
    while i < messages_json.len()
        invariant
            i <= messages_json@.len(),
            messages_json@.len() == originals@.len(),
            out@.len() == i,
            forall|k: int|
                0 <= k < i ==> #[trigger] out@[k]@ == attached_message(
                    messages_json@[k]@,
                    originals@[k]@,
                ),
        decreases messages_json@.len() - i,
    {
        out.push(attach_to_message(&messages_json[i], &originals[i]));
        i = i + 1;
    }
    proof {
        assert(json_seq(out@) =~= attached_messages(
            json_seq(messages_json@),
            messages_view(originals@),
        ));
    }
    out
}

// ---------------------------------------------------------------------------
// Conversations for Ollama
// ---------------------------------------------------------------------------

/// A tool result message with the name of its tool.
pub open spec fn named_result(msg: JsonView, orig: MessageView) -> JsonView {
    match orig.tool_name {
        Some(name) if orig.role == "tool"@ && name.len() > 0 => msg.with(
            "tool_name"@,
            JsonView::Str(name),
        ),
        _ => msg,
    }
}

/// The messages, each tool result with the name of its tool.
pub open spec fn named_results(messages: Seq<JsonView>, originals: Seq<MessageView>) -> Seq<JsonView> {
    Seq::new(messages.len(), |i: int| named_result(messages[i], originals[i]))
}

fn name_result(msg: &Json, orig: &Message) -> (r: Json)
    ensures
        r@ == named_result(msg@, orig@),
{
    match &orig.tool_name {
        Some(name) => {
            if str_eq(orig.role.as_str(), "tool") && !name.as_str().is_empty() {
                return msg.copy().with("tool_name", Json::text(name.as_str()));
            }
        },
        None => {},
    }
    msg.copy()
}

/// Gives each tool result message the name of its tool, which the serialised
/// message does not carry.
pub fn attach_ollama_tool_names(messages_json: &Vec<Json>, originals: &Vec<Message>) -> (r: Vec<
    Json,
>)
    requires
        messages_json@.len() == originals@.len(),
    ensures
        json_seq(r@) == named_results(json_seq(messages_json@), messages_view(originals@)),
{
    let mut out: Vec<Json> = Vec::new();
    let mut i: usize = 0;
    while i < messages_json.len()
        invariant
            i <= messages_json@.len(),
            messages_json@.len() == originals@.len(),
            out@.len() == i,
            forall|k: int|
                0 <= k < i ==> #[trigger] out@[k]@ == named_result(
                    messages_json@[k]@,
                    originals@[k]@,
                ),
        decreases messages_json@.len() - i,
    {
        out.push(name_result(&messages_json[i], &originals[i]));
        i = i + 1;
    }
    proof {
        assert(json_seq(out@) =~= named_results(
            json_seq(messages_json@),
            messages_view(originals@),
        ));
    }
    out
}

/// The URL of an image block.
pub open spec fn image_url_of(block: JsonView) -> Option<Seq<char>> {
    match block.get("image_url"@) {
        Some(v) => v.str_at("url"@),
        None => None,
    }
}

fn get_image_url(block: &Json) -> (r: Option<&str>)
    ensures
        opt_str_view(r) == image_url_of(block@),
{
    match block.get("image_url") {
        Some(v) => v.str_at("url"),
        None => None,
    }
}

/// The media type and payload of an image block whose URL is a data URL.
pub open spec fn image_payload(block: JsonView) -> Option<(Seq<char>, Seq<char>)> {
    if block.str_at("type"@) == Some("image_url"@) {
        match image_url_of(block) {
            Some(url) => data_url_parts(url),
            None => None,
        }
    } else {
        None
    }
}

fn get_image_payload(block: &Json) -> (r: Option<(&str, &str)>)
    ensures
        crate::text::opt_pair_view(r) == image_payload(block@),
{
    if opt_is(block.str_at("type"), "image_url") {
        match get_image_url(block) {
            Some(url) => parse_data_url(url),
            None => None,
        }
    } else {
        None
    }
}

pub open spec fn is_document(block: JsonView) -> bool {
    block.str_at("type"@) == Some("document"@)
}

/// The image payloads among the first `n` blocks.
pub open spec fn images_among(blocks: Seq<JsonView>, n: int) -> Seq<JsonView>
    decreases n,
{
    if n <= 0 {
        Seq::empty()
    } else {
        match image_payload(blocks[n - 1]) {
            Some(p) => images_among(blocks, n - 1).push(JsonView::Str(p.1)),
            None => images_among(blocks, n - 1),
        }
    }
}

/// The texts among the first `n` blocks that are neither images with a payload
/// nor documents.
pub open spec fn block_texts(blocks: Seq<JsonView>, n: int) -> Seq<Seq<char>>
    decreases n,
{
    if n <= 0 {
        Seq::empty()
    } else {
        let b = blocks[n - 1];
        match b.str_at("text"@) {
            Some(s) if image_payload(b) is None && !is_document(b) => block_texts(
                blocks,
                n - 1,
            ).push(s),
            _ => block_texts(blocks, n - 1),
        }
    }
}

/// The content blocks of a user message.
pub open spec fn user_blocks(msg: JsonView) -> Option<Seq<JsonView>> {
    if msg.str_at("role"@) == Some("user"@) {
        msg.array_at("content"@)
    } else {
        None
    }
}

fn get_user_blocks(msg: &Json) -> (r: Option<&Vec<Json>>)
    ensures
        match r {
            Some(v) => user_blocks(msg@) == Some(json_seq(v@)),
            None => user_blocks(msg@) is None,
        },
{
    if opt_is(msg.str_at("role"), "user") {
        msg.array_at("content")
    } else {
        None
    }
}

/// A user message with its images in a list of their own and its texts in one
/// string; documents are left out.
pub open spec fn ollama_user_message(msg: JsonView) -> JsonView {
    match user_blocks(msg) {
        None => msg,
        Some(blocks) => {
            let images = images_among(blocks, blocks.len() as int);
            let m = if images.len() > 0 {
                msg.with("images"@, JsonView::Array(images))
            } else {
                msg
            };
            m.with("content"@, JsonView::Str(join_of(block_texts(blocks, blocks.len() as int), "\n"@)))
        },
    }
}

/// An assistant message whose reasoning goes by the name `thinking`.
pub open spec fn ollama_reasoning(msg: JsonView) -> JsonView {
    if msg.str_at("role"@) == Some("assistant"@) {
        match msg.str_at("reasoning_content"@) {
            Some(s) if trimmed(s).len() > 0 => msg.without("reasoning_content"@).with(
                "thinking"@,
                JsonView::Str(s),
            ),
            _ => msg,
        }
    } else {
        msg
    }
}

/// A message in the native form of Ollama.
pub open spec fn ollama_message(msg: JsonView) -> JsonView {
    ollama_reasoning(ollama_user_message(msg))
}

fn make_ollama_message(msg: &Json) -> (r: Json)
    ensures
        r@ == ollama_message(msg@),
{
    let user = match get_user_blocks(msg) {
        None => msg.copy(),
        Some(blocks) => {
            let ghost bv = json_seq(blocks@);
            let mut images: Vec<Json> = Vec::new();
            let mut texts: Vec<String> = Vec::new();
            proof {
                assert(json_seq(images@) =~= Seq::<JsonView>::empty());
                assert(views(texts@) =~= Seq::<Seq<char>>::empty());
            }
            let mut i: usize = 0;
            while i < blocks.len()
                invariant
                    i <= blocks@.len(),
                    bv == json_seq(blocks@),
                    json_seq(images@) == images_among(bv, i as int),
                    views(texts@) == block_texts(bv, i as int),
                decreases blocks@.len() - i,
            {
                proof {
                    assert(bv[i as int] == blocks@[i as int]@);
                }
                let b = &blocks[i];
                match get_image_payload(b) {
                    Some((_, data)) => {
                        let j = Json::text(data);
                        proof {
                            lemma_json_seq_push(images@, j);
                        }
                        images.push(j);
                    },
                    None => {
                        if !opt_is(b.str_at("type"), "document") {
                            match b.str_at("text") {
                                Some(s) => {
                                    let t = s.to_owned();
                                    proof {
                                        lemma_views_push(texts@, t);
                                    }
                                    texts.push(t);
                                },
                                None => {},
                            }
                        }
                    },
                }
                i = i + 1;
            }
            let mut m = msg.copy();
            proof {
                assert(json_seq(images@).len() == images@.len());
            }
            if images.len() > 0 {
                m = m.with("images", Json::Array(images));
            }
            let joined = join(&texts, "\n");
            m.with("content", Json::Str(joined))
        },
    };
    let mut thinking: Option<String> = None;
    if opt_is(user.str_at("role"), "assistant") {
        match user.str_at("reasoning_content") {
            Some(s) => {
                if !trim(s).is_empty() {
                    thinking = Some(s.to_owned());
                }
            },
            None => {},
        }
    }
    match thinking {
        Some(s) => user.without("reasoning_content").with("thinking", Json::Str(s)),
        None => user,
    }
}

/// The messages in the native form of Ollama.
pub open spec fn ollama_messages(messages: Seq<JsonView>) -> Seq<JsonView> {
    messages.map_values(|m: JsonView| ollama_message(m))
}

/// Converts a conversation to the native form of Ollama: images in a list of
/// their own, texts in one string, reasoning as `thinking`.
pub fn convert_messages_for_ollama(messages_json: &Vec<Json>) -> (r: Vec<Json>)
    ensures
        json_seq(r@) == ollama_messages(json_seq(messages_json@)),
{
    let mut out: Vec<Json> = Vec::new();
    let mut i: usize = 0;
    while i < messages_json.len()
        invariant
            i <= messages_json@.len(),
            out@.len() == i,
            forall|k: int| 0 <= k < i ==> #[trigger] out@[k]@ == ollama_message(messages_json@[k]@),
        decreases messages_json@.len() - i,
    {
        out.push(make_ollama_message(&messages_json[i]));
        i = i + 1;
    }
    proof {
        assert(json_seq(out@) =~= ollama_messages(json_seq(messages_json@)));
    }
    out
}

/// Whether a message carries a document, which Ollama does not take.
pub open spec fn carries_document(msg: JsonView) -> bool {
    match user_blocks(msg) {
        None => false,
        Some(blocks) => any_document(blocks),
    }
}

/// Whether one of the blocks is a document.
pub open spec fn any_document(blocks: Seq<JsonView>) -> bool {
    exists|i: int| 0 <= i < blocks.len() && is_document(#[trigger] blocks[i])
}

/// Whether a warning is due on documents that Ollama does not take.
pub fn has_document(msg: &Json) -> (r: bool)
    ensures
        r == carries_document(msg@),
{
    match get_user_blocks(msg) {
        None => false,
        Some(blocks) => {
            let ghost bv = json_seq(blocks@);
            let mut i: usize = 0;
            while i < blocks.len()
                invariant
                    i <= blocks@.len(),
                    bv == json_seq(blocks@),
                    user_blocks(msg@) == Some(bv),
                    forall|k: int| 0 <= k < i ==> !is_document(#[trigger] bv[k]),
                decreases blocks@.len() - i,
            {
                proof {
                    assert(bv[i as int] == blocks@[i as int]@);
                }
                if opt_is(blocks[i].str_at("type"), "document") {
                    proof {
                        assert(bv.len() == blocks@.len());
                        assert(is_document(bv[i as int]));
                        assert(any_document(bv));
                    }
                    return true;
                }
                i = i + 1;
            }
            false
        },
    }
}

// ---------------------------------------------------------------------------
// Conversations for OpenAI
// ---------------------------------------------------------------------------

/// The media type and payload of a document block.
pub open spec fn document_payload(block: JsonView) -> Option<(Seq<char>, Seq<char>)> {
    if is_document(block) {
        match block.get("source"@) {
            None => None,
            Some(s) => match (s.str_at("media_type"@), s.str_at("data"@)) {
                (Some(m), Some(d)) => Some((m, d)),
                _ => None,
            },
        }
    } else {
        None
    }
}

/// A content block in the form of the Chat Completions API.
pub open spec fn openai_block(block: JsonView) -> JsonView {
    match document_payload(block) {
        Some(p) => empty_object().with("type"@, JsonView::Str("file"@)).with(
            "file"@,
            empty_object().with("file_data"@, JsonView::Str(data_url(p.0, p.1))),
        ),
        None => block,
    }
}

fn make_openai_block(block: &Json) -> (r: Json)
    ensures
        r@ == openai_block(block@),
{
    if opt_is(block.str_at("type"), "document") {
        match block.get("source") {
            None => {},
            Some(s) => match (s.str_at("media_type"), s.str_at("data")) {
                (Some(mime), Some(data)) => {
                    let url = data_url_text(mime, data);
                    let inner = Json::object().with("file_data", Json::Str(url));
                    return Json::object().with("type", Json::text("file")).with("file", inner);
                },
                _ => {},
            },
        }
    }
    block.copy()
}

/// A message in the form of the Chat Completions API.
pub open spec fn openai_message(msg: JsonView) -> JsonView {
    match user_blocks(msg) {
        None => msg,
        Some(blocks) => msg.with(
            "content"@,
            JsonView::Array(blocks.map_values(|b: JsonView| openai_block(b))),
        ),
    }
}

fn make_openai_message(msg: &Json) -> (r: Json)
    ensures
        r@ == openai_message(msg@),
{
    match get_user_blocks(msg) {
        None => msg.copy(),
        Some(blocks) => {
            let mut out: Vec<Json> = Vec::new();
            let mut i: usize = 0;
            while i < blocks.len()
                invariant
                    i <= blocks@.len(),
                    out@.len() == i,
                    forall|k: int| 0 <= k < i ==> #[trigger] out@[k]@ == openai_block(blocks@[k]@),
                decreases blocks@.len() - i,
            {
                out.push(make_openai_block(&blocks[i]));
                i = i + 1;
            }
            proof {
                assert(json_seq(out@) =~= json_seq(blocks@).map_values(
                    |b: JsonView| openai_block(b),
                ));
            }
            msg.copy().with("content", Json::Array(out))
        },
    }
}

/// The messages in the form of the Chat Completions API.
pub open spec fn openai_messages(messages: Seq<JsonView>) -> Seq<JsonView> {
    messages.map_values(|m: JsonView| openai_message(m))
}

/// Converts a conversation to the form of the Chat Completions API: documents
/// become `file` blocks.
pub fn convert_messages_for_openai(messages_json: &Vec<Json>) -> (r: Vec<Json>)
    ensures
        json_seq(r@) == openai_messages(json_seq(messages_json@)),
{
    let mut out: Vec<Json> = Vec::new();
    let mut i: usize = 0;
    while i < messages_json.len()
        invariant
            i <= messages_json@.len(),
            out@.len() == i,
            forall|k: int| 0 <= k < i ==> #[trigger] out@[k]@ == openai_message(messages_json@[k]@),
        decreases messages_json@.len() - i,
    {
        out.push(make_openai_message(&messages_json[i]));
        i = i + 1;
    }
    proof {
        assert(json_seq(out@) =~= openai_messages(json_seq(messages_json@)));
    }
    out
}

// ---------------------------------------------------------------------------
// Conversations for the Responses API
// ---------------------------------------------------------------------------

/// A block of the given type with a text.
pub open spec fn typed_text(kind: Seq<char>, text: Seq<char>) -> JsonView {
    empty_object().with("type"@, JsonView::Str(kind)).with("text"@, JsonView::Str(text))
}

fn make_typed_text(kind: &str, text: &str) -> (r: Json)
    ensures
        r@ == typed_text(kind@, text@),
{
    Json::object().with("type", Json::text(kind)).with("text", Json::text(text))
}

/// Wraps a value as an `input_text` block.
pub fn openai_responses_text_block(v: &Json) -> (r: Json)
    ensures
        r@ == typed_text("input_text"@, text_or(v@.as_str(), ""@)),
{
    make_typed_text("input_text", str_or(v.as_str(), ""))
}

/// Wraps a value as an `output_text` block.
pub fn openai_responses_output_text_block(v: &Json) -> (r: Json)
    ensures
        r@ == typed_text("output_text"@, text_or(v@.as_str(), ""@)),
{
    make_typed_text("output_text", str_or(v.as_str(), ""))
}

/// The text member `k` of the member `outer`, or nothing.
pub open spec fn inner_str(j: JsonView, outer: Seq<char>, k: Seq<char>) -> Seq<char> {
    match j.get(outer) {
        Some(v) => str_in(v, k, ""@),
        None => ""@,
    }
}

fn get_inner_str<'a>(j: &'a Json, outer: &str, k: &str) -> (r: &'a str)
    ensures
        r@ == inner_str(j@, outer@, k@),
{
    match j.get(outer) {
        Some(v) => get_str(v, k, ""),
        None => "",
    }
}

/// A block of the given type with one more text member.
pub open spec fn typed_member(kind: Seq<char>, key: Seq<char>, value: Seq<char>) -> JsonView {
    empty_object().with("type"@, JsonView::Str(kind)).with(key, JsonView::Str(value))
}

fn make_typed_member(kind: &str, key: &str, value: &str) -> (r: Json)
    ensures
        r@ == typed_member(kind@, key@, value@),
{
    Json::object().with("type", Json::text(kind)).with(key, Json::text(value))
}

/// A content block in the form of the Responses API.
pub open spec fn responses_block(block: JsonView) -> JsonView {
    let kind = block.str_at("type"@);
    if kind == Some("text"@) {
        typed_text("input_text"@, str_in(block, "text"@, ""@))
    } else if kind == Some("image_url"@) {
        typed_member("input_image"@, "image_url"@, inner_str(block, "image_url"@, "url"@))
    } else if kind == Some("document"@) {
        typed_member("input_file"@, "file_data"@, inner_str(block, "source"@, "data"@))
    } else if kind == Some("file"@) {
        let data = inner_str(block, "file"@, "file_data"@);
        typed_member(
            "input_file"@,
            "file_data"@,
            match data_url_parts(data) {
                Some(p) => p.1,
                None => data,
            },
        )
    } else {
        block
    }
}

/// Converts one content block to the form of the Responses API.
pub fn openai_responses_input_content_block(block: &Json) -> (r: Json)
    ensures
        r@ == responses_block(block@),
{
    let kind = block.str_at("type");
    if opt_is(kind, "text") {
        make_typed_text("input_text", get_str(block, "text", ""))
    } else if opt_is(kind, "image_url") {
        make_typed_member("input_image", "image_url", get_inner_str(block, "image_url", "url"))
    } else if opt_is(kind, "document") {
        make_typed_member("input_file", "file_data", get_inner_str(block, "source", "data"))
    } else if opt_is(kind, "file") {
        let data = get_inner_str(block, "file", "file_data");
        let payload = match parse_data_url(data) {
            Some((_, p)) => p,
            None => data,
        };
        make_typed_member("input_file", "file_data", payload)
    } else {
        block.copy()
    }
}

/// What has been converted so far.
#[verifier::ext_equal]
pub struct ResponsesState {
    pub items: Seq<JsonView>,
    /// Identifiers of calls that await their output.
    pub pending: Seq<Seq<char>>,
    /// Number of identifiers made up so far.
    pub made: nat,
}

pub open spec fn made_id(n: nat) -> Seq<char> {
    "call_openai_responses_"@ + decimal(n)
}

/// Text as it is; any other value as JSON text; nothing as the empty text.
pub open spec fn text_of_value(v: Option<JsonView>) -> Seq<char> {
    match v {
        Some(JsonView::Str(s)) => s,
        Some(other) => json_written(other),
        None => Seq::empty(),
    }
}

fn value_text(v: Option<&Json>) -> (r: String)
    ensures
        r@ == text_of_value(opt_json(v)),
{
    match v {
        Some(j) => match j {
            Json::Str(s) => s.clone(),
            other => print_json(other),
        },
        None => String::new(),
    }
}

/// A `function_call` item.
pub open spec fn call_item(id: Seq<char>, name: Seq<char>, arguments: Seq<char>) -> JsonView {
    empty_object().with("type"@, JsonView::Str("function_call"@)).with(
        "call_id"@,
        JsonView::Str(id),
    ).with("name"@, JsonView::Str(name)).with("arguments"@, JsonView::Str(arguments))
}

/// A `function_call_output` item.
pub open spec fn output_item(id: Seq<char>, output: Seq<char>) -> JsonView {
    empty_object().with("type"@, JsonView::Str("function_call_output"@)).with(
        "call_id"@,
        JsonView::Str(id),
    ).with("output"@, JsonView::Str(output))
}

/// A message item of the given role with content blocks.
pub open spec fn role_item(role: Seq<char>, blocks: Seq<JsonView>) -> JsonView {
    empty_object().with("role"@, JsonView::Str(role)).with("content"@, JsonView::Array(blocks))
}

pub(crate) fn make_role_item(role: &str, blocks: Vec<Json>) -> (r: Json)
    ensures
        r@ == role_item(role@, json_seq(blocks@)),
{
    Json::object().with("role", Json::text(role)).with("content", Json::Array(blocks))
}

/// A text that is there and not empty.
pub open spec fn filled(o: Option<Seq<char>>) -> Option<Seq<char>> {
    match o {
        Some(s) if s.len() > 0 => Some(s),
        _ => None,
    }
}

fn get_filled<'a>(o: Option<&'a str>) -> (r: Option<&'a str>)
    ensures
        opt_str_view(r) == filled(opt_str_view(o)),
{
    match o {
        Some(s) => if s.is_empty() {
            None
        } else {
            Some(s)
        },
        None => None,
    }
}

/// One tool call of an assistant message as an item that awaits its output.
pub open spec fn with_call(st: ResponsesState, call: JsonView) -> ResponsesState {
    let own = filled(call.str_at("id"@));
    let made = if own is Some {
        st.made
    } else {
        st.made + 1
    };
    let id = match own {
        Some(s) => s,
        None => made_id(made),
    };
    match call.get("function"@) {
        None => ResponsesState { made, ..st },
        Some(func) => ResponsesState {
            items: st.items.push(
                call_item(id, str_in(func, "name"@, ""@), text_of_value(func.get("arguments"@))),
            ),
            pending: st.pending.push(id),
            made,
        },
    }
}

/// The first `n` tool calls as items that await their output.
pub open spec fn with_calls(st: ResponsesState, calls: Seq<JsonView>, n: int) -> ResponsesState
    decreases n,
{
    if n <= 0 {
        st
    } else {
        with_call(with_calls(st, calls, n - 1), calls[n - 1])
    }
}

/// The content blocks of a user message, at least one.
pub open spec fn responses_user_blocks(content: Option<JsonView>) -> Seq<JsonView> {
    let blocks = match content {
        Some(JsonView::Array(a)) => a.map_values(|b: JsonView| responses_block(b)),
        Some(v) => seq![typed_text("input_text"@, text_or(v.as_str(), ""@))],
        None => Seq::empty(),
    };
    if blocks.len() == 0 {
        seq![typed_text("input_text"@, ""@)]
    } else {
        blocks
    }
}

/// The list without the first entry equal to `x`.
pub open spec fn without_first(list: Seq<Seq<char>>, x: Seq<char>, i: int) -> Seq<Seq<char>>
    decreases list.len() - i,
{
    if i < 0 || i >= list.len() {
        list
    } else if list[i] == x {
        list.remove(i)
    } else {
        without_first(list, x, i + 1)
    }
}

/// One message of a conversation as items.
pub open spec fn with_message(st: ResponsesState, msg: JsonView) -> ResponsesState {
    let role = str_in(msg, "role"@, ""@);
    if role == "system"@ {
        st
    } else if role == "user"@ {
        ResponsesState {
            items: st.items.push(role_item("user"@, responses_user_blocks(msg.get("content"@)))),
            ..st
        }
    } else if role == "assistant"@ {
        let said = match filled(msg.str_at("content"@)) {
            Some(text) => ResponsesState {
                items: st.items.push(
                    role_item("assistant"@, seq![typed_text("output_text"@, text)]),
                ),
                ..st
            },
            None => st,
        };
        match msg.array_at("tool_calls"@) {
            Some(calls) => with_calls(said, calls, calls.len() as int),
            None => said,
        }
    } else if role == "tool"@ {
        let own = filled(msg.str_at("tool_call_id"@));
        let made = if own is None && st.pending.len() == 0 {
            st.made + 1
        } else {
            st.made
        };
        let id = match own {
            Some(s) => s,
            None => if st.pending.len() > 0 {
                st.pending[0]
            } else {
                made_id(made)
            },
        };
        ResponsesState {
            items: st.items.push(output_item(id, text_of_value(msg.get("content"@)))),
            pending: without_first(st.pending, id, 0),
            made,
        }
    } else {
        st
    }
}

/// The items of the first `n` messages.
pub open spec fn responses_upto(messages: Seq<JsonView>, n: int) -> ResponsesState
    decreases n,
{
    if n <= 0 {
        ResponsesState { items: Seq::empty(), pending: Seq::empty(), made: 0 }
    } else {
        with_message(responses_upto(messages, n - 1), messages[n - 1])
    }
}

/// What has been converted so far.
struct ResponsesProgress {
    items: Vec<Json>,
    pending: Vec<String>,
    made: u128,
}

impl View for ResponsesProgress {
    type V = ResponsesState;

    closed spec fn view(&self) -> ResponsesState {
        ResponsesState {
            items: json_seq(self.items@),
            pending: views(self.pending@),
            made: self.made as nat,
        }
    }
}

fn make_id(n: u128) -> (r: String)
    ensures
        r@ == made_id(n as nat),
{
    let mut s = String::from_str("call_openai_responses_");
    let t = u128_text(n);
    s.append(t.as_str());
    s
}

fn add_call(st: &mut ResponsesProgress, call: &Json)
    requires
        old(st).made < u128::MAX,
    ensures
        final(st)@ == with_call(old(st)@, call@),
        final(st).made <= old(st).made + 1,
{
    let id = match get_filled(call.str_at("id")) {
        Some(s) => s.to_owned(),
        None => {
            st.made = st.made + 1;
            make_id(st.made)
        },
    };
    match call.get("function") {
        None => {},
        Some(func) => {
            let arguments = value_text(func.get("arguments"));
            let item = Json::object().with("type", Json::text("function_call")).with(
                "call_id",
                Json::text(id.as_str()),
            ).with("name", Json::text(get_str(func, "name", ""))).with(
                "arguments",
                Json::Str(arguments),
            );
            proof {
                lemma_json_seq_push(st.items@, item);
                lemma_views_push(st.pending@, id);
            }
            st.items.push(item);
            st.pending.push(id);
        },
    }
}

fn drop_pending(pending: &mut Vec<String>, id: &str)
    ensures
        views(final(pending)@) == without_first(views(old(pending)@), id@, 0),
{
    let ghost start = views(pending@);
    let n: usize = pending.len();
    let mut i: usize = 0;
    while i < n
        invariant
            i <= n,
            n == pending@.len(),
            start == views(pending@),
            start == views(old(pending)@),
            without_first(start, id@, i as int) == without_first(start, id@, 0),
        decreases n - i,
    {
        proof {
            assert(start[i as int] == pending@[i as int]@);
        }
        if str_eq(pending[i].as_str(), id) {
            pending.remove(i);
            proof {
                assert(views(pending@) =~= start.remove(i as int));
            }
            return;
        }
        i = i + 1;
    }
}

fn make_user_blocks(content: Option<&Json>) -> (r: Vec<Json>)
    ensures
        json_seq(r@) == responses_user_blocks(opt_json(content)),
{
    let mut blocks: Vec<Json> = Vec::new();
    proof {
        assert(json_seq(blocks@) =~= Seq::<JsonView>::empty());
    }
    match content {
        None => {},
        Some(v) => match v {
            Json::Array(a) => {
                let mut i: usize = 0;
                while i < a.len()
                    invariant
                        i <= a@.len(),
                        blocks@.len() == i,
                        forall|k: int|
                            0 <= k < i ==> #[trigger] blocks@[k]@ == responses_block(a@[k]@),
                    decreases a@.len() - i,
                {
                    blocks.push(openai_responses_input_content_block(&a[i]));
                    i = i + 1;
                }
                proof {
                    assert(json_seq(blocks@) =~= json_seq(a@).map_values(
                        |b: JsonView| responses_block(b),
                    ));
                }
            },
            other => {
                blocks.push(openai_responses_text_block(other));
                proof {
                    assert(json_seq(blocks@) =~= seq![blocks@[0]@]);
                }
            },
        },
    }
    proof {
        assert(json_seq(blocks@).len() == blocks@.len());
    }
    if blocks.len() == 0 {
        blocks.push(openai_responses_text_block(&Json::Null));
        proof {
            assert(json_seq(blocks@) =~= seq![typed_text("input_text"@, ""@)]);
        }
    }
    blocks
}

fn add_message(st: &mut ResponsesProgress, msg: &Json)
    requires
        old(st).made <= u128::MAX - 0xffff_ffff_ffff_ffff,
    ensures
        final(st)@ == with_message(old(st)@, msg@),
        final(st).made <= old(st).made + 0xffff_ffff_ffff_ffff,
{
    let role = get_str(msg, "role", "");
    if str_eq(role, "system") {
    } else if str_eq(role, "user") {
        let item = make_role_item("user", make_user_blocks(msg.get("content")));
        proof {
            lemma_json_seq_push(st.items@, item);
        }
        st.items.push(item);
    } else if str_eq(role, "assistant") {
        match get_filled(msg.str_at("content")) {
            Some(text) => {
                let mut blocks: Vec<Json> = Vec::new();
                blocks.push(make_typed_text("output_text", text));
                proof {
                    assert(json_seq(blocks@) =~= seq![typed_text("output_text"@, text@)]);
                }
                let item = make_role_item("assistant", blocks);
                proof {
                    lemma_json_seq_push(st.items@, item);
                }
                st.items.push(item);
            },
            None => {},
        }
        let ghost said = st@;
        let made: u128 = st.made;
        match msg.array_at("tool_calls") {
            None => {},
            Some(calls) => {
                let n: usize = calls.len();
                let mut i: usize = 0;
                while i < n
                    invariant
                        i <= n,
                        n == calls@.len(),
                        made <= u128::MAX - 0xffff_ffff_ffff_ffff,
                        st.made <= made + i,
                        st@ == with_calls(said, json_seq(calls@), i as int),
                    decreases n - i,
                {
                    proof {
                        assert(json_seq(calls@)[i as int] == calls@[i as int]@);
                    }
                    add_call(st, &calls[i]);
                    i = i + 1;
                }
            },
        }
    } else if str_eq(role, "tool") {
        proof {
            assert(views(st.pending@).len() == st.pending@.len());
        }
        let id = match get_filled(msg.str_at("tool_call_id")) {
            Some(s) => s.to_owned(),
            None => {
                if st.pending.len() > 0 {
                    proof {
                        assert(views(st.pending@)[0] == st.pending@[0]@);
                    }
                    st.pending[0].clone()
                } else {
                    st.made = st.made + 1;
                    make_id(st.made)
                }
            },
        };
        drop_pending(&mut st.pending, id.as_str());
        let output = value_text(msg.get("content"));
        let item = Json::object().with("type", Json::text("function_call_output")).with(
            "call_id",
            Json::text(id.as_str()),
        ).with("output", Json::Str(output));
        proof {
            lemma_json_seq_push(st.items@, item);
        }
        st.items.push(item);
    }
}

/// Converts a conversation into the `input` items of the Responses API.
///
/// | Conversation            | Items                                                 |
/// |-------------------------|-------------------------------------------------------|
/// | system                  | none                                                  |
/// | user                    | `{ role: "user", content: [..] }`                     |
/// | assistant, text         | `{ role: "assistant", content: [output_text] }`       |
/// | assistant, tool calls   | `{ type: "function_call", call_id, name, arguments }` |
/// | tool                    | `{ type: "function_call_output", call_id, output }`   |
pub fn convert_messages_for_openai_responses(messages: &Vec<Json>) -> (r: Vec<Json>)
    ensures
        json_seq(r@) == responses_upto(json_seq(messages@), messages@.len() as int).items,
{
    let mut st = ResponsesProgress { items: Vec::new(), pending: Vec::new(), made: 0 };
    proof {
        assert(json_seq(st.items@) =~= Seq::<JsonView>::empty());
        assert(views(st.pending@) =~= Seq::<Seq<char>>::empty());
    }
    let n: usize = messages.len();
    let mut i: usize = 0;
    while i < n
        invariant
            i <= n,
            n == messages@.len(),
            st.made <= i * 0xffff_ffff_ffff_ffff,
            st@ == responses_upto(json_seq(messages@), i as int),
        decreases n - i,
    {
        proof {
            assert(json_seq(messages@)[i as int] == messages@[i as int]@);
            assert(i * 0xffff_ffff_ffff_ffff <= 0xffff_ffff_ffff_fffe * 0xffff_ffff_ffff_ffff)
                by (nonlinear_arith)
                requires
                    i < n,
                    n <= 0xffff_ffff_ffff_ffff,
            ;
        }
        add_message(&mut st, &messages[i]);
        i = i + 1;
    }
    st.items
}

// ---------------------------------------------------------------------------
// Conversations for Anthropic
// ---------------------------------------------------------------------------

/// The content of a tool result: text as it is, an object or a list as JSON
/// text, nothing else.
pub open spec fn result_content(v: Option<JsonView>) -> Seq<char> {
    match v {
        Some(JsonView::Str(s)) => s,
        Some(JsonView::Object(m)) => json_written(JsonView::Object(m)),
        Some(JsonView::Array(a)) => json_written(JsonView::Array(a)),
        _ => ""@,
    }
}

fn result_text(v: Option<&Json>) -> (r: String)
    ensures
        r@ == result_content(opt_json(v)),
{
    match v {
        Some(j) => match j {
            Json::Str(s) => s.clone(),
            Json::Object(_) => print_json(j),
            Json::Array(_) => print_json(j),
            _ => "".to_owned(),
        },
        None => "".to_owned(),
    }
}

/// A `tool_result` block.
pub open spec fn tool_result_block(id: Seq<char>, content: Seq<char>) -> JsonView {
    empty_object().with("type"@, JsonView::Str("tool_result"@)).with(
        "tool_use_id"@,
        JsonView::Str(id),
    ).with("content"@, JsonView::Str(content))
}

/// The input of a tool use, given what was read in its arguments: what cannot be
/// read is the empty object.
pub open spec fn input_read(r: Reading) -> JsonView {
    match r {
        Reading::Value(v) => v,
        Reading::Malformed(_) => empty_object(),
    }
}

/// The input of a tool use whose arguments were read.
pub fn take_input(r: Result<Json, String>) -> (j: Json)
    ensures
        j@ == input_read(reading_of(r)),
{
    match r {
        Ok(v) => v,
        Err(_) => Json::object(),
    }
}

/// The input of a tool use: arguments given as text are read as JSON.
pub open spec fn tool_input(arguments: Option<JsonView>) -> JsonView {
    match arguments {
        Some(a) => input_read(argument_reading(a)),
        None => empty_object(),
    }
}

fn make_tool_input(arguments: Option<&Json>) -> (r: Json)
    ensures
        r@ == tool_input(opt_json(arguments)),
{
    match arguments {
        Some(j) => take_input(read_argument(j)),
        None => Json::object(),
    }
}

/// The `tool_use` blocks of the first `n` tool calls that name a function.
pub open spec fn tool_use_blocks(calls: Seq<JsonView>, n: int) -> Seq<JsonView>
    decreases n,
{
    if n <= 0 {
        Seq::empty()
    } else {
        let c = calls[n - 1];
        match c.get("function"@) {
            None => tool_use_blocks(calls, n - 1),
            Some(func) => tool_use_blocks(calls, n - 1).push(
                empty_object().with("type"@, JsonView::Str("tool_use"@)).with(
                    "id"@,
                    JsonView::Str(str_in(c, "id"@, ""@)),
                ).with("name"@, JsonView::Str(str_in(func, "name"@, ""@))).with(
                    "input"@,
                    tool_input(func.get("arguments"@)),
                ),
            ),
        }
    }
}

/// The blocks of an assistant message: reasoning, text, tool uses.
pub open spec fn assistant_blocks(msg: JsonView) -> Seq<JsonView> {
    let a = match filled(msg.str_at("reasoning_content"@)) {
        Some(s) => seq![typed_member("thinking"@, "thinking"@, s)],
        None => Seq::empty(),
    };
    let b = match filled(msg.str_at("content"@)) {
        Some(s) => a.push(text_block(s)),
        None => a,
    };
    match msg.array_at("tool_calls"@) {
        Some(calls) => b + tool_use_blocks(calls, calls.len() as int),
        None => b,
    }
}

/// A content block in the form of Anthropic.
pub open spec fn anthropic_block(block: JsonView) -> JsonView {
    match image_payload(block) {
        Some(p) => empty_object().with("type"@, JsonView::Str("image"@)).with(
            "source"@,
            empty_object().with("type"@, JsonView::Str("base64"@)).with(
                "media_type"@,
                JsonView::Str(p.0),
            ).with("data"@, JsonView::Str(p.1)),
        ),
        None => block,
    }
}

/// A message in the form of Anthropic.
pub open spec fn anthropic_message(msg: JsonView) -> JsonView {
    let role = str_in(msg, "role"@, ""@);
    if role == "tool"@ {
        role_item(
            "user"@,
            seq![
                tool_result_block(
                    str_in(msg, "tool_call_id"@, ""@),
                    result_content(msg.get("content"@)),
                ),
            ],
        )
    } else if role == "assistant"@ {
        if msg.array_at("tool_calls"@) is Some || filled(msg.str_at("reasoning_content"@)) is Some {
            role_item("assistant"@, assistant_blocks(msg))
        } else {
            msg
        }
    } else if role == "user"@ {
        match msg.array_at("content"@) {
            Some(blocks) => role_item(
                "user"@,
                blocks.map_values(|b: JsonView| anthropic_block(b)),
            ),
            None => msg,
        }
    } else {
        msg
    }
}

fn make_anthropic_block(block: &Json) -> (r: Json)
    ensures
        r@ == anthropic_block(block@),
{
    match get_image_payload(block) {
        Some((mime, data)) => {
            let inner = Json::object().with("type", Json::text("base64")).with(
                "media_type",
                Json::text(mime),
            ).with("data", Json::text(data));
            Json::object().with("type", Json::text("image")).with("source", inner)
        },
        None => block.copy(),
    }
}

fn make_assistant_blocks(msg: &Json) -> (r: Vec<Json>)
    ensures
        json_seq(r@) == assistant_blocks(msg@),
{
    let mut blocks: Vec<Json> = Vec::new();
    proof {
        assert(json_seq(blocks@) =~= Seq::<JsonView>::empty());
    }
    match get_filled(msg.str_at("reasoning_content")) {
        Some(s) => {
            let b = make_typed_member("thinking", "thinking", s);
            proof {
                lemma_json_seq_push(blocks@, b);
                assert(json_seq(blocks@).push(b@) =~= seq![b@]);
            }
            blocks.push(b);
        },
        None => {},
    }
    match get_filled(msg.str_at("content")) {
        Some(s) => {
            let b = make_text_block(s);
            proof {
                lemma_json_seq_push(blocks@, b);
            }
            blocks.push(b);
        },
        None => {},
    }
    let ghost head = json_seq(blocks@);
    match msg.array_at("tool_calls") {
        None => {},
        Some(calls) => {
            let ghost cv = json_seq(calls@);
            let mut i: usize = 0;
            proof {
                assert(head + tool_use_blocks(cv, 0) =~= head);
            }
            while i < calls.len()
                invariant
                    i <= calls@.len(),
                    cv == json_seq(calls@),
                    json_seq(blocks@) == head + tool_use_blocks(cv, i as int),
                decreases calls@.len() - i,
            {
                let c = &calls[i];
                proof {
                    assert(cv[i as int] == c@);
                }
                match c.get("function") {
                    None => {},
                    Some(func) => {
                        let b = Json::object().with("type", Json::text("tool_use")).with(
                            "id",
                            Json::text(get_str(c, "id", "")),
                        ).with("name", Json::text(get_str(func, "name", ""))).with(
                            "input",
                            make_tool_input(func.get("arguments")),
                        );
                        proof {
                            lemma_json_seq_push(blocks@, b);
                            assert((head + tool_use_blocks(cv, i as int)).push(b@) =~= head
                                + tool_use_blocks(cv, i as int).push(b@));
                        }
                        blocks.push(b);
                    },
                }
                i = i + 1;
            }
        },
    }
    blocks
}

/// Converts a message to the form of Anthropic: a tool result becomes a user
/// message, and an assistant message with tool calls or reasoning becomes a
/// list of blocks.
pub fn convert_message_for_anthropic(msg: &Json) -> (r: Json)
    ensures
        r@ == anthropic_message(msg@),
{
    let role = get_str(msg, "role", "");
    if str_eq(role, "tool") {
        let b = Json::object().with("type", Json::text("tool_result")).with(
            "tool_use_id",
            Json::text(get_str(msg, "tool_call_id", "")),
        ).with("content", Json::Str(result_text(msg.get("content"))));
        Json::object().with("role", Json::text("user")).with("content", Json::list1(b))
    } else if str_eq(role, "assistant") {
        if msg.array_at("tool_calls").is_some() || get_filled(
            msg.str_at("reasoning_content"),
        ).is_some() {
            make_role_item("assistant", make_assistant_blocks(msg))
        } else {
            msg.copy()
        }
    } else if str_eq(role, "user") {
        match msg.array_at("content") {
            Some(blocks) => {
                let mut out: Vec<Json> = Vec::new();
                let mut i: usize = 0;
                while i < blocks.len()
                    invariant
                        i <= blocks@.len(),
                        out@.len() == i,
                        forall|k: int|
                            0 <= k < i ==> #[trigger] out@[k]@ == anthropic_block(blocks@[k]@),
                    decreases blocks@.len() - i,
                {
                    out.push(make_anthropic_block(&blocks[i]));
                    i = i + 1;
                }
                proof {
                    assert(json_seq(out@) =~= json_seq(blocks@).map_values(
                        |b: JsonView| anthropic_block(b),
                    ));
                }
                make_role_item("user", out)
            },
            None => msg.copy(),
        }
    } else {
        msg.copy()
    }
}

pub open spec fn is_tool_result(block: JsonView) -> bool {
    block.str_at("type"@) == Some("tool_result"@)
}

/// Whether a message is a user message of tool results alone.
pub open spec fn only_tool_results(msg: JsonView) -> bool {
    match user_blocks(msg) {
        None => false,
        Some(blocks) => blocks.len() > 0 && forall|i: int|
            0 <= i < blocks.len() ==> is_tool_result(#[trigger] blocks[i]),
    }
}

/// The first `n` messages with each run of messages of tool results merged into
/// one.
pub open spec fn merged_results(messages: Seq<JsonView>, n: int) -> Seq<JsonView>
    decreases n,
{
    if n <= 0 {
        Seq::empty()
    } else {
        let out = merged_results(messages, n - 1);
        let msg = messages[n - 1];
        if only_tool_results(msg) && out.len() > 0 && only_tool_results(out.last()) {
            out.drop_last().push(
                out.last().with(
                    "content"@,
                    JsonView::Array(user_blocks(out.last())->0 + user_blocks(msg)->0),
                ),
            )
        } else {
            out.push(msg)
        }
    }
}

fn has_only_tool_results(msg: &Json) -> (r: bool)
    ensures
        r == only_tool_results(msg@),
{
    match get_user_blocks(msg) {
        None => false,
        Some(blocks) => {
            let ghost bv = json_seq(blocks@);
            proof {
                assert(bv.len() == blocks@.len());
            }
            if blocks.len() == 0 {
                return false;
            }
            let mut i: usize = 0;
            while i < blocks.len()
                invariant
                    i <= blocks@.len(),
                    bv == json_seq(blocks@),
                    user_blocks(msg@) == Some(bv),
                    bv.len() == blocks@.len(),
                    forall|k: int| 0 <= k < i ==> is_tool_result(#[trigger] bv[k]),
                decreases blocks@.len() - i,
            {
                proof {
                    assert(bv[i as int] == blocks@[i as int]@);
                }
                if !opt_is(blocks[i].str_at("type"), "tool_result") {
                    proof {
                        assert(!is_tool_result(bv[i as int]));
                    }
                    return false;
                }
                i = i + 1;
            }
            true
        },
    }
}

fn append_copies(out: &mut Vec<Json>, list: &Vec<Json>)
    ensures
        json_seq(final(out)@) == json_seq(old(out)@) + json_seq(list@),
{
    let ghost start = json_seq(out@);
    let ghost lv = json_seq(list@);
    let mut i: usize = 0;
    proof {
        assert(start + lv.take(0) =~= start);
    }
    while i < list.len()
        invariant
            i <= list@.len(),
            lv == json_seq(list@),
            start == json_seq(old(out)@),
            json_seq(out@) == start + lv.take(i as int),
        decreases list@.len() - i,
    {
        let j = list[i].copy();
        proof {
            lemma_json_seq_push(out@, j);
            assert((start + lv.take(i as int)).push(j@) =~= start + lv.take(i + 1));
        }
        out.push(j);
        i = i + 1;
    }
    proof {
        assert(lv.take(lv.len() as int) =~= lv);
    }
}

/// Merges consecutive user messages of tool results alone into one, as
/// Anthropic wants the results of parallel calls in a single message.
pub fn merge_anthropic_tool_results(messages: &Vec<Json>) -> (r: Vec<Json>)
    ensures
        json_seq(r@) == merged_results(json_seq(messages@), messages@.len() as int),
{
    let ghost mv = json_seq(messages@);
    let mut out: Vec<Json> = Vec::new();
    let mut i: usize = 0;
    proof {
        assert(json_seq(out@) =~= Seq::<JsonView>::empty());
    }
    while i < messages.len()
        invariant
            i <= messages@.len(),
            mv == json_seq(messages@),
            json_seq(out@) == merged_results(mv, i as int),
        decreases messages@.len() - i,
    {
        let msg = &messages[i];
        let n: usize = out.len();
        let ghost ov = json_seq(out@);
        proof {
            assert(mv[i as int] == msg@);
            assert(ov.len() == out@.len());
        }
        let mut joined: Option<Json> = None;
        if has_only_tool_results(msg) && n > 0 && has_only_tool_results(&out[n - 1]) {
            match (get_user_blocks(&out[n - 1]), get_user_blocks(msg)) {
                (Some(a), Some(b)) => {
                    let mut list: Vec<Json> = Vec::new();
                    append_copies(&mut list, a);
                    append_copies(&mut list, b);
                    proof {
                        assert(json_seq(list@) =~= json_seq(a@) + json_seq(b@));
                    }
                    joined = Some(out[n - 1].copy().with("content", Json::Array(list)));
                },
                _ => {},
            }
        }
        match joined {
            Some(j) => {
                out.pop();
                proof {
                    assert(json_seq(out@) =~= ov.drop_last());
                    lemma_json_seq_push(out@, j);
                }
                out.push(j);
            },
            None => {
                let j = msg.copy();
                proof {
                    lemma_json_seq_push(out@, j);
                }
                out.push(j);
            },
        }
        i = i + 1;
    }
    out
}

// ---------------------------------------------------------------------------
// Tool definitions
// ---------------------------------------------------------------------------

/// A tool definition with a description where there is one.
pub open spec fn described(j: JsonView, func: JsonView) -> JsonView {
    match filled(func.str_at("description"@)) {
        Some(d) => j.with("description"@, JsonView::Str(d)),
        None => j,
    }
}

fn add_description(j: Json, func: &Json) -> (r: Json)
    ensures
        r@ == described(j@, func@),
{
    match get_filled(func.str_at("description")) {
        Some(d) => j.with("description", Json::text(d)),
        None => j,
    }
}

/// A tool definition in the form of the Responses API.
pub open spec fn responses_tool(t: JsonView) -> Option<JsonView> {
    match t.get("function"@) {
        None => None,
        Some(func) => match func.str_at("name"@) {
            None => None,
            Some(name) => {
                let base = described(
                    empty_object().with("type"@, JsonView::Str("function"@)),
                    func,
                ).with("name"@, JsonView::Str(name));
                Some(
                    match func.get("parameters"@) {
                        Some(p) => base.with("parameters"@, p),
                        None => base,
                    },
                )
            },
        },
    }
}

/// A tool definition in the form of Anthropic.
pub open spec fn anthropic_tool(t: JsonView) -> Option<JsonView> {
    match t.get("function"@) {
        None => None,
        Some(func) => match (func.str_at("name"@), func.get("parameters"@)) {
            (Some(name), Some(p)) => Some(
                described(empty_object(), func).with("name"@, JsonView::Str(name)).with(
                    "input_schema"@,
                    p,
                ),
            ),
            _ => None,
        },
    }
}

/// The definitions, among the first `n`, that have the form of the Responses
/// API.
pub open spec fn responses_tools(tools: Seq<JsonView>, n: int) -> Seq<JsonView>
    decreases n,
{
    if n <= 0 {
        Seq::empty()
    } else {
        match responses_tool(tools[n - 1]) {
            Some(t) => responses_tools(tools, n - 1).push(t),
            None => responses_tools(tools, n - 1),
        }
    }
}

/// The definitions, among the first `n`, that have the form of Anthropic.
pub open spec fn anthropic_tools(tools: Seq<JsonView>, n: int) -> Seq<JsonView>
    decreases n,
{
    if n <= 0 {
        Seq::empty()
    } else {
        match anthropic_tool(tools[n - 1]) {
            Some(t) => anthropic_tools(tools, n - 1).push(t),
            None => anthropic_tools(tools, n - 1),
        }
    }
}

fn make_responses_tool(t: &Json) -> (r: Option<Json>)
    ensures
        opt_owned(r) == responses_tool(t@),
{
    match t.get("function") {
        None => None,
        Some(func) => match func.str_at("name") {
            None => None,
            Some(name) => {
                let base = add_description(
                    Json::object().with("type", Json::text("function")),
                    func,
                ).with("name", Json::text(name));
                Some(
                    match func.get("parameters") {
                        Some(p) => base.with("parameters", p.copy()),
                        None => base,
                    },
                )
            },
        },
    }
}

fn make_anthropic_tool(t: &Json) -> (r: Option<Json>)
    ensures
        opt_owned(r) == anthropic_tool(t@),
{
    match t.get("function") {
        None => None,
        Some(func) => match (func.str_at("name"), func.get("parameters")) {
            (Some(name), Some(p)) => Some(
                add_description(Json::object(), func).with("name", Json::text(name)).with(
                    "input_schema",
                    p.copy(),
                ),
            ),
            _ => None,
        },
    }
}

/// Converts tool definitions to the form of the Responses API; malformed ones
/// are left out.
pub fn convert_tools_to_openai_responses(tools: &Vec<Json>) -> (r: Vec<Json>)
    ensures
        json_seq(r@) == responses_tools(json_seq(tools@), tools@.len() as int),
{
    let mut out: Vec<Json> = Vec::new();
    let mut i: usize = 0;
    proof {
        assert(json_seq(out@) =~= Seq::<JsonView>::empty());
    }
    while i < tools.len()
        invariant
            i <= tools@.len(),
            json_seq(out@) == responses_tools(json_seq(tools@), i as int),
        decreases tools@.len() - i,
    {
        match make_responses_tool(&tools[i]) {
            Some(t) => {
                proof {
                    lemma_json_seq_push(out@, t);
                }
                out.push(t);
            },
            None => {},
        }
        i = i + 1;
    }
    out
}

/// Converts tool definitions to the form of Anthropic; malformed ones are left
/// out.
pub fn convert_tools_to_anthropic(tools: &Vec<Json>) -> (r: Vec<Json>)
    ensures
        json_seq(r@) == anthropic_tools(json_seq(tools@), tools@.len() as int),
{
    let mut out: Vec<Json> = Vec::new();
    let mut i: usize = 0;
    proof {
        assert(json_seq(out@) =~= Seq::<JsonView>::empty());
    }
    while i < tools.len()
        invariant
            i <= tools@.len(),
            json_seq(out@) == anthropic_tools(json_seq(tools@), i as int),
        decreases tools@.len() - i,
    {
        match make_anthropic_tool(&tools[i]) {
            Some(t) => {
                proof {
                    lemma_json_seq_push(out@, t);
                }
                out.push(t);
            },
            None => {},
        }
        i = i + 1;
    }
    out
}

// ---------------------------------------------------------------------------
// Requests
// ---------------------------------------------------------------------------

/// The content of the first system message at or after `i`.
pub open spec fn system_content(messages: Seq<MessageView>, i: int) -> Option<Seq<char>>
    decreases messages.len() - i,
{
    if i < 0 || i >= messages.len() {
        None
    } else if messages[i].role == "system"@ {
        Some(messages[i].content)
    } else {
        system_content(messages, i + 1)
    }
}

pub(crate) fn find_system(messages: &Vec<Message>) -> (r: Option<String>)
    ensures
        opt_view(r) == system_content(messages_view(messages@), 0),
{
    let ghost mv = messages_view(messages@);
    let mut i: usize = 0;
    while i < messages.len()
        invariant
            i <= messages@.len(),
            mv == messages_view(messages@),
            system_content(mv, i as int) == system_content(mv, 0),
        decreases messages@.len() - i,
    {
        proof {
            assert(mv[i as int] == messages@[i as int]@);
        }
        if str_eq(messages[i].role.as_str(), "system") {
            return Some(messages[i].content.clone());
        }
        i = i + 1;
    }
    None
}

/// The messages, among the first `n`, that are no system messages, in the form
/// of Anthropic.
pub open spec fn anthropic_upto(messages: Seq<JsonView>, n: int) -> Seq<JsonView>
    decreases n,
{
    if n <= 0 {
        Seq::empty()
    } else if messages[n - 1].str_at("role"@) == Some("system"@) {
        anthropic_upto(messages, n - 1)
    } else {
        anthropic_upto(messages, n - 1).push(anthropic_message(messages[n - 1]))
    }
}

/// An object with a list member where the list is not empty.
pub open spec fn with_list(j: JsonView, key: Seq<char>, list: Seq<JsonView>) -> JsonView {
    if list.len() > 0 {
        j.with(key, JsonView::Array(list))
    } else {
        j
    }
}

pub(crate) fn add_list(j: Json, key: &str, list: Vec<Json>) -> (r: Json)
    ensures
        r@ == with_list(j@, key@, json_seq(list@)),
{
    proof {
        assert(json_seq(list@).len() == list@.len());
    }
    if list.len() > 0 {
        j.with(key, Json::Array(list))
    } else {
        j
    }
}

/// An object with a text member where there is a text.
pub(crate) fn add_opt_text(j: Json, key: &str, o: Option<String>) -> (r: Json)
    ensures
        r@ == crate::model::with_text(j@, key@, opt_view(o)),
{
    match o {
        Some(s) => j.with(key, Json::Str(s)),
        None => j,
    }
}

/// What every request starts with.
pub open spec fn request_base(req: ChatRequest) -> JsonView {
    empty_object().with("model"@, JsonView::Str(req.model@)).with(
        "stream"@,
        JsonView::Bool(req.stream),
    )
}

/// The conversation of a request, tool results formatted and attachments
/// expanded.
pub open spec fn request_messages(req: ChatRequest) -> Seq<JsonView> {
    let mv = messages_view(req.messages@);
    attached_messages(
        formatted_messages(
            mv.map_values(|m: MessageView| message_json(m)),
            mv,
            req.tool_result_format,
        ),
        mv,
    )
}

/// A request in the form of its provider.
pub open spec fn provider_json(req: ChatRequest) -> JsonView {
    let base = request_base(req);
    let messages = request_messages(req);
    let mv = messages_view(req.messages@);
    let tools = json_seq(req.tools@);
    let max = JsonView::Int(req.max_output_tokens as int);
    match req.provider {
        LlmProvider::OpenAi => {
            let key = if req.max_tokens_fallback {
                "max_tokens"@
            } else {
                "max_completion_tokens"@
            };
            let a = base.with(key, max).with(
                "messages"@,
                JsonView::Array(openai_messages(messages)),
            );
            let b = with_list(a, "tools"@, tools);
            if req.stream {
                b.with(
                    "stream_options"@,
                    empty_object().with("include_usage"@, JsonView::Bool(true)),
                )
            } else {
                b
            }
        },
        LlmProvider::OpenAiResponses => {
            let a = crate::model::with_text(base, "instructions"@, system_content(mv, 0));
            let b = a.with(
                "input"@,
                JsonView::Array(responses_upto(messages, messages.len() as int).items),
            ).with("max_output_tokens"@, max);
            with_list(b, "tools"@, responses_tools(tools, tools.len() as int))
        },
        LlmProvider::Ollama => {
            let a = base.with(
                "messages"@,
                JsonView::Array(ollama_messages(named_results(messages, mv))),
            );
            with_list(a, "tools"@, tools).with(
                "options"@,
                empty_object().with("num_predict"@, max),
            )
        },
        LlmProvider::Anthropic => {
            let kept = anthropic_upto(messages, messages.len() as int);
            let a = crate::model::with_text(
                base.with("max_tokens"@, max),
                "system"@,
                system_content(mv, 0),
            );
            let b = a.with("messages"@, JsonView::Array(merged_results(kept, kept.len() as int)));
            with_list(b, "tools"@, anthropic_tools(tools, tools.len() as int))
        },
    }
}

fn anthropic_conversation(messages: &Vec<Json>) -> (r: Vec<Json>)
    ensures
        json_seq(r@) == anthropic_upto(json_seq(messages@), messages@.len() as int),
{
    let ghost mv = json_seq(messages@);
    let mut out: Vec<Json> = Vec::new();
    let mut i: usize = 0;
    proof {
        assert(json_seq(out@) =~= Seq::<JsonView>::empty());
    }
    while i < messages.len()
        invariant
            i <= messages@.len(),
            mv == json_seq(messages@),
            json_seq(out@) == anthropic_upto(mv, i as int),
        decreases messages@.len() - i,
    {
        proof {
            assert(mv[i as int] == messages@[i as int]@);
        }
        if !opt_is(messages[i].str_at("role"), "system") {
            let j = convert_message_for_anthropic(&messages[i]);
            proof {
                lemma_json_seq_push(out@, j);
            }
            out.push(j);
        }
        i = i + 1;
    }
    out
}

pub(crate) fn copy_tools(tools: &Vec<Json>) -> (r: Vec<Json>)
    ensures
        json_seq(r@) == json_seq(tools@),
{
    let mut out: Vec<Json> = Vec::new();
    append_copies(&mut out, tools);
    proof {
        assert(json_seq(out@) =~= json_seq(tools@));
    }
    out
}

impl ChatRequest {
    /// The conversation as JSON, message by message.
    fn raw_messages(&self) -> (r: Vec<Json>)
        ensures
            json_seq(r@) == messages_view(self.messages@).map_values(
                |m: MessageView| message_json(m),
            ),
    {
        let mut out: Vec<Json> = Vec::new();
        let mut i: usize = 0;
        while i < self.messages.len()
            invariant
                i <= self.messages@.len(),
                out@.len() == i,
                forall|k: int|
                    0 <= k < i ==> #[trigger] out@[k]@ == message_json(self.messages@[k]@),
            decreases self.messages@.len() - i,
        {
            out.push(message_to_json(&self.messages[i]));
            i = i + 1;
        }
        proof {
            assert(json_seq(out@) =~= messages_view(self.messages@).map_values(
                |m: MessageView| message_json(m),
            ));
        }
        out
    }

    /// The request in the form of its provider.
    pub fn to_provider_json(&self) -> (r: Json)
        ensures
            r@ == provider_json(*self),
    {
        let raw = self.raw_messages();
        proof {
            assert(json_seq(raw@).len() == raw@.len());
            assert(messages_view(self.messages@).len() == self.messages@.len());
        }
        let formatted = reformat_tool_results(&raw, &self.messages, self.tool_result_format);
        proof {
            assert(json_seq(formatted@).len() == formatted@.len());
        }
        let messages = attach_file_contents(&formatted, &self.messages);
        proof {
            assert(json_seq(messages@).len() == messages@.len());
        }
        let base = Json::object().with("model", Json::text(self.model.as_str())).with(
            "stream",
            Json::Bool(self.stream),
        );
        let max = Json::Unsigned(self.max_output_tokens as u64);
        match self.provider {
            LlmProvider::OpenAi => {
                let key = if self.max_tokens_fallback {
                    "max_tokens"
                } else {
                    "max_completion_tokens"
                };
                let list = convert_messages_for_openai(&messages);
                let a = base.with(key, max).with("messages", Json::Array(list));
                let b = add_list(a, "tools", copy_tools(&self.tools));
                if self.stream {
                    b.with(
                        "stream_options",
                        Json::object().with("include_usage", Json::Bool(true)),
                    )
                } else {
                    b
                }
            },
            LlmProvider::OpenAiResponses => {
                let a = add_opt_text(base, "instructions", find_system(&self.messages));
                let items = convert_messages_for_openai_responses(&messages);
                let b = a.with("input", Json::Array(items)).with("max_output_tokens", max);
                proof {
                    assert(json_seq(self.tools@).len() == self.tools@.len());
                }
                add_list(b, "tools", convert_tools_to_openai_responses(&self.tools))
            },
            LlmProvider::Ollama => {
                let named = attach_ollama_tool_names(&messages, &self.messages);
                let list = convert_messages_for_ollama(&named);
                let a = base.with("messages", Json::Array(list));
                add_list(a, "tools", copy_tools(&self.tools)).with(
                    "options",
                    Json::object().with("num_predict", max),
                )
            },
            LlmProvider::Anthropic => {
                let kept = anthropic_conversation(&messages);
                proof {
                    assert(json_seq(kept@).len() == kept@.len());
                    assert(json_seq(self.tools@).len() == self.tools@.len());
                }
                let merged = merge_anthropic_tool_results(&kept);
                let a = add_opt_text(
                    base.with("max_tokens", max),
                    "system",
                    find_system(&self.messages),
                );
                let b = a.with("messages", Json::Array(merged));
                add_list(b, "tools", convert_tools_to_anthropic(&self.tools))
            },
        }
    }
}

// ---------------------------------------------------------------------------
// Usage
// ---------------------------------------------------------------------------

/// A count of 32 bits: 0 where it is absent, `None` where it is no such count.
pub open spec fn count32(v: Option<JsonView>) -> Option<u32> {
    match v {
        None => Some(0u32),
        Some(JsonView::Int(n)) => if 0 <= n <= u32::MAX {
            Some(n as u32)
        } else {
            None
        },
        Some(_) => None,
    }
}

fn get_count32(v: Option<&Json>) -> (r: Option<u32>)
    ensures
        r == count32(opt_json(v)),
{
    match v {
        None => Some(0),
        Some(j) => match j.as_u64() {
            Some(n) => if n <= 0xffff_ffff {
                Some(n as u32)
            } else {
                None
            },
            None => None,
        },
    }
}

/// The breakdown of prompt tokens that a value describes: an object, or the
/// counts in a list. What is absent counts 0.
pub open spec fn prompt_details(j: JsonView) -> Option<PromptTokensDetails> {
    if has_slots(j, 0, 3) {
        match (
            count32(slot(j, "cached_tokens"@, 0)),
            count32(slot(j, "cache_creation_tokens"@, 1)),
            count32(slot(j, "audio_tokens"@, 2)),
        ) {
            (Some(a), Some(b), Some(c)) => Some(
                PromptTokensDetails {
                    cached_tokens: a,
                    cache_creation_tokens: b,
                    audio_tokens: c,
                },
            ),
            _ => None,
        }
    } else {
        None
    }
}

/// The breakdown of completion tokens that a value describes: an object, or a
/// list of the count.
pub open spec fn completion_details(j: JsonView) -> Option<CompletionTokensDetails> {
    if has_slots(j, 0, 1) {
        match count32(slot(j, "reasoning_tokens"@, 0)) {
            Some(a) => Some(CompletionTokensDetails { reasoning_tokens: a }),
            None => None,
        }
    } else {
        None
    }
}

/// A breakdown of prompt tokens that may be absent or null; `None` where it is
/// malformed.
pub open spec fn prompt_slot(v: Option<JsonView>) -> Option<Option<PromptTokensDetails>> {
    match v {
        None => Some(None),
        Some(JsonView::Null) => Some(None),
        Some(j) => match prompt_details(j) {
            Some(d) => Some(Some(d)),
            None => None,
        },
    }
}

/// A breakdown of completion tokens that may be absent or null; `None` where it
/// is malformed.
pub open spec fn completion_slot(v: Option<JsonView>) -> Option<Option<CompletionTokensDetails>> {
    match v {
        None => Some(None),
        Some(JsonView::Null) => Some(None),
        Some(j) => match completion_details(j) {
            Some(d) => Some(Some(d)),
            None => None,
        },
    }
}

/// The usage that a value describes: an object, or a list of the two counts and
/// the two breakdowns. `None` where a part is malformed.
pub open spec fn usage_of(j: JsonView) -> Option<Usage> {
    if has_slots(j, 0, 4) {
        match (
            count32(slot(j, "prompt_tokens"@, 0)),
            count32(slot(j, "completion_tokens"@, 1)),
            prompt_slot(slot(j, "prompt_tokens_details"@, 2)),
            completion_slot(slot(j, "completion_tokens_details"@, 3)),
        ) {
            (
                Some(prompt_tokens),
                Some(completion_tokens),
                Some(prompt_tokens_details),
                Some(completion_tokens_details),
            ) => Some(
                Usage {
                    prompt_tokens,
                    completion_tokens,
                    prompt_tokens_details,
                    completion_tokens_details,
                },
            ),
            _ => None,
        }
    } else {
        None
    }
}

fn read_prompt_details(v: Option<&Json>) -> (r: Option<Option<PromptTokensDetails>>)
    ensures
        r == prompt_slot(opt_json(v)),
{
    let j = match v {
        None => {
            return Some(None);
        },
        Some(j) => j,
    };
    match j {
        Json::Null => {
            return Some(None);
        },
        _ => {},
    }
    if !slots_fit(j, 0, 3) {
        return None;
    }
    match (
        get_count32(slot_value(j, "cached_tokens", 0)),
        get_count32(slot_value(j, "cache_creation_tokens", 1)),
        get_count32(slot_value(j, "audio_tokens", 2)),
    ) {
        (Some(a), Some(b), Some(c)) => Some(
            Some(
                PromptTokensDetails { cached_tokens: a, cache_creation_tokens: b, audio_tokens: c },
            ),
        ),
        _ => None,
    }
}

fn read_completion_details(v: Option<&Json>) -> (r: Option<Option<CompletionTokensDetails>>)
    ensures
        r == completion_slot(opt_json(v)),
{
    let j = match v {
        None => {
            return Some(None);
        },
        Some(j) => j,
    };
    match j {
        Json::Null => {
            return Some(None);
        },
        _ => {},
    }
    if !slots_fit(j, 0, 1) {
        return None;
    }
    match get_count32(slot_value(j, "reasoning_tokens", 0)) {
        Some(a) => Some(Some(CompletionTokensDetails { reasoning_tokens: a })),
        None => None,
    }
}

/// Reads a usage.
pub fn read_usage(j: &Json) -> (r: Option<Usage>)
    ensures
        r == usage_of(j@),
{
    if !slots_fit(j, 0, 4) {
        return None;
    }
    match (
        get_count32(slot_value(j, "prompt_tokens", 0)),
        get_count32(slot_value(j, "completion_tokens", 1)),
        read_prompt_details(slot_value(j, "prompt_tokens_details", 2)),
        read_completion_details(slot_value(j, "completion_tokens_details", 3)),
    ) {
        (
            Some(prompt_tokens),
            Some(completion_tokens),
            Some(prompt_tokens_details),
            Some(completion_tokens_details),
        ) => Some(
            Usage {
                prompt_tokens,
                completion_tokens,
                prompt_tokens_details,
                completion_tokens_details,
            },
        ),
        _ => None,
    }
}

/// The sum of two counts, modulo 2^32.
pub open spec fn sum32(a: u32, b: u32) -> u32 {
    ((a + b) % 0x1_0000_0000) as u32
}

fn add32(a: u32, b: u32) -> (r: u32)
    ensures
        r == sum32(a, b),
{
    ((a as u64 + b as u64) % 0x1_0000_0000) as u32
}

/// Whether a breakdown of prompt tokens says anything.
pub open spec fn says_something(d: PromptTokensDetails) -> bool {
    d.cached_tokens > 0 || d.cache_creation_tokens > 0 || d.audio_tokens > 0
}

/// Two usages together: the counts add up, the first breakdown of the prompt
/// that says something stays.
pub open spec fn usage_sum(old_usage: Usage, new_usage: Usage) -> Usage {
    Usage {
        prompt_tokens: sum32(old_usage.prompt_tokens, new_usage.prompt_tokens),
        completion_tokens: sum32(old_usage.completion_tokens, new_usage.completion_tokens),
        prompt_tokens_details: match (old_usage.prompt_tokens_details, new_usage.prompt_tokens_details) {
            (None, Some(d)) => if says_something(d) {
                Some(d)
            } else {
                None
            },
            (o, _) => o,
        },
        completion_tokens_details: match (
            old_usage.completion_tokens_details,
            new_usage.completion_tokens_details,
        ) {
            (Some(a), Some(b)) => Some(
                CompletionTokensDetails {
                    reasoning_tokens: sum32(a.reasoning_tokens, b.reasoning_tokens),
                },
            ),
            (None, Some(b)) => Some(b),
            (o, None) => o,
        },
    }
}

/// The usage after one more event.
pub open spec fn usage_after(current: Option<Usage>, j: JsonView) -> Option<Usage> {
    match j.get("usage"@) {
        Some(v) => match (usage_of(v), current) {
            (Some(u), Some(c)) => Some(usage_sum(c, u)),
            (Some(u), None) => Some(u),
            (None, _) => current,
        },
        None => if j.get("done"@) == Some(JsonView::Bool(true)) {
            let p = (count_in(j, "prompt_eval_count"@) % 0x1_0000_0000) as u32;
            let c = (count_in(j, "eval_count"@) % 0x1_0000_0000) as u32;
            if p > 0 || c > 0 {
                Some(Usage { prompt_tokens: p, completion_tokens: c, ..no_usage() })
            } else {
                current
            }
        } else {
            current
        },
    }
}

/// Adds the token counts of one stream event to those captured so far, whether
/// it carries a `usage` object or the final counts of Ollama. Counts add up
/// because one provider splits them over two events.
pub fn accumulate_usage(json: &Json, current: &mut Option<Usage>)
    ensures
        *final(current) == usage_after(*old(current), json@),
{
    match json.get("usage") {
        Some(v) => match read_usage(v) {
            None => {},
            Some(u) => {
                let cur: Option<Usage> = *current;
                match cur {
                    None => {
                        *current = Some(u);
                    },
                    Some(c) => {
                        let prompt_tokens_details = match (
                            c.prompt_tokens_details,
                            u.prompt_tokens_details,
                        ) {
                            (None, Some(d)) => if d.cached_tokens > 0 || d.cache_creation_tokens > 0
                                || d.audio_tokens > 0 {
                                Some(d)
                            } else {
                                None
                            },
                            (o, _) => o,
                        };
                        let completion_tokens_details = match (
                            c.completion_tokens_details,
                            u.completion_tokens_details,
                        ) {
                            (Some(a), Some(b)) => Some(
                                CompletionTokensDetails {
                                    reasoning_tokens: add32(a.reasoning_tokens, b.reasoning_tokens),
                                },
                            ),
                            (None, Some(b)) => Some(b),
                            (o, None) => o,
                        };
                        *current = Some(
                            Usage {
                                prompt_tokens: add32(c.prompt_tokens, u.prompt_tokens),
                                completion_tokens: add32(c.completion_tokens, u.completion_tokens),
                                prompt_tokens_details,
                                completion_tokens_details,
                            },
                        );
                    },
                }
            },
        },
        None => {
            let done = match json.get("done") {
                Some(Json::Bool(b)) => *b,
                _ => false,
            };
            if done {
                let p: u32 = (get_count(json, "prompt_eval_count") % 0x1_0000_0000) as u32;
                let c: u32 = (get_count(json, "eval_count") % 0x1_0000_0000) as u32;
                if p > 0 || c > 0 {
                    *current = Some(
                        Usage {
                            prompt_tokens: p,
                            completion_tokens: c,
                            prompt_tokens_details: None,
                            completion_tokens_details: None,
                        },
                    );
                }
            }
        },
    }
}

// ---------------------------------------------------------------------------
// Stream events
// ---------------------------------------------------------------------------

/// A payload whose first choice is the given value.
pub open spec fn choice_payload(choice: JsonView) -> JsonView {
    empty_object().with("choices"@, JsonView::Array(seq![choice]))
}

fn make_choice(choice: Json) -> (r: Json)
    ensures
        r@ == choice_payload(choice@),
{
    Json::object().with("choices", Json::list1(choice))
}

/// A payload whose delta has one member.
pub open spec fn delta_payload(key: Seq<char>, value: JsonView) -> JsonView {
    choice_payload(empty_object().with("delta"@, empty_object().with(key, value)))
}

pub(crate) fn make_delta(key: &str, value: Json) -> (r: Json)
    ensures
        r@ == delta_payload(key@, value@),
{
    make_choice(Json::object().with("delta", Json::object().with(key, value)))
}

/// A payload with the arguments of the tool call at `index`.
pub open spec fn arguments_payload(index: int, arguments: JsonView) -> JsonView {
    delta_payload(
        "tool_calls"@,
        JsonView::Array(
            seq![
                empty_object().with("index"@, JsonView::Int(index)).with(
                    "function"@,
                    empty_object().with("arguments"@, arguments),
                ),
            ],
        ),
    )
}

pub(crate) fn make_arguments(index: u64, arguments: Json) -> (r: Json)
    ensures
        r@ == arguments_payload(index as int, arguments@),
{
    let call = Json::object().with("index", Json::Unsigned(index)).with(
        "function",
        Json::object().with("arguments", arguments),
    );
    make_delta("tool_calls", Json::list1(call))
}

/// A payload with the identifier and the name of the tool call at `index`.
pub open spec fn start_payload(index: int, id: Seq<char>, name: Seq<char>) -> JsonView {
    delta_payload(
        "tool_calls"@,
        JsonView::Array(
            seq![
                empty_object().with("index"@, JsonView::Int(index)).with(
                    "id"@,
                    JsonView::Str(id),
                ).with(
                    "function"@,
                    empty_object().with("name"@, JsonView::Str(name)).with(
                        "arguments"@,
                        JsonView::Str(""@),
                    ),
                ),
            ],
        ),
    )
}

pub(crate) fn make_start(index: u64, id: &str, name: &str) -> (r: Json)
    ensures
        r@ == start_payload(index as int, id@, name@),
{
    let func = Json::object().with("name", Json::text(name)).with("arguments", Json::text(""));
    let call = Json::object().with("index", Json::Unsigned(index)).with("id", Json::text(id)).with(
        "function",
        func,
    );
    make_delta("tool_calls", Json::list1(call))
}

/// The payload of a fragment of a content block.
pub open spec fn block_delta_payload(event: JsonView, tool_index: usize) -> JsonView {
    match event.get("delta"@) {
        None => empty_object(),
        Some(delta) => {
            let kind = delta.str_at("type"@);
            if kind == Some("text_delta"@) {
                match delta.get("text"@) {
                    Some(v) => delta_payload("content"@, v),
                    None => empty_object(),
                }
            } else if kind == Some("thinking_delta"@) {
                match delta.get("thinking"@) {
                    Some(v) => delta_payload("reasoning_content"@, v),
                    None => empty_object(),
                }
            } else if kind == Some("input_json_delta"@) {
                match delta.get("partial_json"@) {
                    Some(v) => arguments_payload(event_index(event, tool_index) as int, v),
                    None => empty_object(),
                }
            } else {
                empty_object()
            }
        },
    }
}

/// The position that an event names, or the one given.
pub open spec fn event_index(event: JsonView, tool_index: usize) -> usize {
    match event.u64_at("index"@) {
        Some(n) => n as usize,
        None => tool_index,
    }
}

pub(crate) fn get_event_index(event: &Json, tool_index: usize) -> (r: usize)
    ensures
        r == event_index(event@, tool_index),
{
    match event.u64_at("index") {
        Some(n) => n as usize,
        None => tool_index,
    }
}

/// The payload of the start of a content block.
pub open spec fn block_start_payload(event: JsonView, tool_index: usize) -> JsonView {
    match event.get("content_block"@) {
        Some(block) => if block.str_at("type"@) == Some("tool_use"@) {
            start_payload(
                event_index(event, tool_index) as int,
                str_in(block, "id"@, ""@),
                str_in(block, "name"@, ""@),
            )
        } else {
            empty_object()
        },
        None => empty_object(),
    }
}

/// The payload of the start of a message: the prompt tokens.
pub open spec fn message_start_payload(event: JsonView) -> JsonView {
    match event.get("message"@) {
        None => empty_object(),
        Some(m) => match m.get("usage"@) {
            None => empty_object(),
            Some(u) => empty_object().with(
                "usage"@,
                empty_object().with(
                    "prompt_tokens"@,
                    JsonView::Int(count_in(u, "input_tokens"@) as int),
                ).with("completion_tokens"@, JsonView::Int(0)).with(
                    "prompt_tokens_details"@,
                    empty_object().with(
                        "cached_tokens"@,
                        JsonView::Int(count_in(u, "cache_read_input_tokens"@) as int),
                    ).with(
                        "cache_creation_tokens"@,
                        JsonView::Int(count_in(u, "cache_creation_input_tokens"@) as int),
                    ),
                ),
            ),
        },
    }
}

/// The payload of the end of a message: the completion tokens.
pub open spec fn message_delta_payload(event: JsonView) -> JsonView {
    match event.get("usage"@) {
        None => empty_object(),
        Some(u) => empty_object().with(
            "usage"@,
            empty_object().with("prompt_tokens"@, JsonView::Int(0)).with(
                "completion_tokens"@,
                JsonView::Int(count_in(u, "output_tokens"@) as int),
            ),
        ),
    }
}

/// The position of the tool call in progress after an Anthropic event.
pub open spec fn anth_index_after(event: JsonView, tool_index: usize) -> usize {
    if event.str_at("type"@) == Some("content_block_start"@) {
        event_index(event, tool_index)
    } else {
        tool_index
    }
}

/// The payload that an Anthropic event comes to.
pub open spec fn anth_payload(event: JsonView, tool_index: usize) -> JsonView {
    let kind = event.str_at("type"@);
    if kind == Some("content_block_delta"@) {
        block_delta_payload(event, tool_index)
    } else if kind == Some("content_block_start"@) {
        block_start_payload(event, tool_index)
    } else if kind == Some("message_start"@) {
        message_start_payload(event)
    } else if kind == Some("message_delta"@) {
        message_delta_payload(event)
    } else {
        empty_object()
    }
}

fn make_block_delta(event: &Json, tool_index: usize) -> (r: Json)
    ensures
        r@ == block_delta_payload(event@, tool_index),
{
    match event.get("delta") {
        None => Json::object(),
        Some(delta) => {
            let kind = delta.str_at("type");
            if opt_is(kind, "text_delta") {
                match delta.get("text") {
                    Some(v) => make_delta("content", v.copy()),
                    None => Json::object(),
                }
            } else if opt_is(kind, "thinking_delta") {
                match delta.get("thinking") {
                    Some(v) => make_delta("reasoning_content", v.copy()),
                    None => Json::object(),
                }
            } else if opt_is(kind, "input_json_delta") {
                match delta.get("partial_json") {
                    Some(v) => make_arguments(
                        get_event_index(event, tool_index) as u64,
                        v.copy(),
                    ),
                    None => Json::object(),
                }
            } else {
                Json::object()
            }
        },
    }
}

fn make_message_start(event: &Json) -> (r: Json)
    ensures
        r@ == message_start_payload(event@),
{
    match event.get("message") {
        None => Json::object(),
        Some(m) => match m.get("usage") {
            None => Json::object(),
            Some(u) => {
                let details = Json::object().with(
                    "cached_tokens",
                    Json::Unsigned(get_count(u, "cache_read_input_tokens")),
                ).with(
                    "cache_creation_tokens",
                    Json::Unsigned(get_count(u, "cache_creation_input_tokens")),
                );
                let usage = Json::object().with(
                    "prompt_tokens",
                    Json::Unsigned(get_count(u, "input_tokens")),
                ).with("completion_tokens", Json::Unsigned(0)).with(
                    "prompt_tokens_details",
                    details,
                );
                Json::object().with("usage", usage)
            },
        },
    }
}

/// Converts one Anthropic stream event into the payload of the Chat
/// Completions API, keeping the position of the tool call in progress.
pub fn convert_anth_to_openai_format(anth: &Json, tool_index: &mut usize) -> (r: Json)
    ensures
        r@ == anth_payload(anth@, *old(tool_index)),
        *final(tool_index) == anth_index_after(anth@, *old(tool_index)),
{
    proof {
        reveal_strlit("content_block_delta");
        reveal_strlit("content_block_start");
        assert("content_block_delta"@[14] != "content_block_start"@[14]);
    }
    let kind = anth.str_at("type");
    if opt_is(kind, "content_block_delta") {
        make_block_delta(anth, *tool_index)
    } else if opt_is(kind, "content_block_start") {
        *tool_index = get_event_index(anth, *tool_index);
        match anth.get("content_block") {
            Some(block) => if opt_is(block.str_at("type"), "tool_use") {
                make_start(
                    *tool_index as u64,
                    get_str(block, "id", ""),
                    get_str(block, "name", ""),
                )
            } else {
                Json::object()
            },
            None => Json::object(),
        }
    } else if opt_is(kind, "message_start") {
        make_message_start(anth)
    } else if opt_is(kind, "message_delta") {
        match anth.get("usage") {
            None => Json::object(),
            Some(u) => {
                let usage = Json::object().with("prompt_tokens", Json::Unsigned(0)).with(
                    "completion_tokens",
                    Json::Unsigned(get_count(u, "output_tokens")),
                );
                Json::object().with("usage", usage)
            },
        }
    } else {
        Json::object()
    }
}

/// The member `key` of the member `outer`.
pub open spec fn inner(j: JsonView, outer: Seq<char>, key: Seq<char>) -> Option<JsonView> {
    match j.get(outer) {
        Some(v) => v.get(key),
        None => None,
    }
}

pub(crate) fn get_inner<'a>(j: &'a Json, outer: &str, key: &str) -> (r: Option<&'a Json>)
    ensures
        opt_json(r) == inner(j@, outer@, key@),
{
    match j.get(outer) {
        Some(v) => v.get(key),
        None => None,
    }
}

/// The text in an optional value.
pub open spec fn opt_text(o: Option<JsonView>) -> Option<Seq<char>> {
    match o {
        Some(v) => v.as_str(),
        None => None,
    }
}

pub(crate) fn get_opt_text<'a>(o: Option<&'a Json>) -> (r: Option<&'a str>)
    ensures
        opt_str_view(r) == opt_text(opt_json(o)),
{
    match o {
        Some(v) => v.as_str(),
        None => None,
    }
}

/// The non-negative integer `key` of an optional value, or 0.
pub open spec fn opt_count(o: Option<JsonView>, key: Seq<char>) -> nat {
    match o {
        Some(v) => count_in(v, key),
        None => 0,
    }
}

fn get_opt_count(o: Option<&Json>, key: &str) -> (r: u64)
    ensures
        r == opt_count(opt_json(o), key@),
{
    match o {
        Some(v) => get_count(v, key),
        None => 0,
    }
}

/// Why a response ended.
pub open spec fn finish_text(event: JsonView) -> Seq<char> {
    let status = text_or(opt_text(inner(event, "response"@, "status"@)), "completed"@);
    let reason = match inner(event, "response"@, "incomplete_details"@) {
        Some(d) => str_in(d, "reason"@, ""@),
        None => ""@,
    };
    if reason.len() == 0 {
        status + " (responses)"@
    } else {
        status + " (responses: "@ + reason + ")"@
    }
}

/// The usage object of a finished response.
pub open spec fn finish_usage(u: JsonView) -> JsonView {
    empty_object().with("prompt_tokens"@, JsonView::Int(count_in(u, "input_tokens"@) as int)).with(
        "completion_tokens"@,
        JsonView::Int(count_in(u, "output_tokens"@) as int),
    ).with(
        "prompt_tokens_details"@,
        empty_object().with(
            "cached_tokens"@,
            JsonView::Int(opt_count(u.get("input_tokens_details"@), "cached_tokens"@) as int),
        ),
    ).with(
        "completion_tokens_details"@,
        empty_object().with(
            "reasoning_tokens"@,
            JsonView::Int(opt_count(u.get("output_tokens_details"@), "reasoning_tokens"@) as int),
        ),
    )
}

/// The payload of the end of a response.
pub open spec fn finish_payload(event: JsonView) -> JsonView {
    let base = choice_payload(
        empty_object().with("finish_reason"@, JsonView::Str(finish_text(event))),
    );
    match inner(event, "response"@, "usage"@) {
        Some(u) => base.with("usage"@, finish_usage(u)),
        None => base,
    }
}

/// Whether an event is about a function call.
pub open spec fn about_call(event: JsonView) -> bool {
    opt_text(inner(event, "item"@, "type"@)) == Some("function_call"@)
}

/// The payload of the start of a function call.
pub open spec fn call_added_payload(event: JsonView) -> JsonView {
    let id = match opt_text(inner(event, "item"@, "call_id"@)) {
        Some(s) => s,
        None => text_or(opt_text(inner(event, "item"@, "id"@)), ""@),
    };
    start_payload(
        count_in(event, "output_index"@) as int,
        id,
        text_or(opt_text(inner(event, "item"@, "name"@)), ""@),
    )
}

/// The payload that an event of the Responses API comes to.
pub open spec fn responses_payload(event: JsonView) -> JsonView {
    let kind = event.str_at("type"@);
    if kind == Some("response.output_text.delta"@) || kind == Some("response.refusal.delta"@) {
        match event.str_at("delta"@) {
            Some(s) => delta_payload("content"@, JsonView::Str(s)),
            None => empty_object(),
        }
    } else if kind == Some("response.reasoning_summary_text.delta"@) || kind == Some(
        "response.reasoning_text.delta"@,
    ) {
        match event.str_at("delta"@) {
            Some(s) => delta_payload("reasoning_content"@, JsonView::Str(s)),
            None => empty_object(),
        }
    } else if kind == Some("response.output_item.added"@) {
        if about_call(event) {
            call_added_payload(event)
        } else {
            empty_object()
        }
    } else if kind == Some("response.output_item.done"@) {
        if about_call(event) {
            arguments_payload(
                count_in(event, "output_index"@) as int,
                JsonView::Str(text_or(opt_text(inner(event, "item"@, "arguments"@)), ""@)),
            )
        } else {
            empty_object()
        }
    } else if kind == Some("response.completed"@) || kind == Some("response.incomplete"@) {
        finish_payload(event)
    } else {
        empty_object()
    }
}

fn make_finish(event: &Json) -> (r: Json)
    ensures
        r@ == finish_payload(event@),
{
    let mut reason_text = str_or(
        get_opt_text(get_inner(event, "response", "status")),
        "completed",
    ).to_owned();
    let reason = match get_inner(event, "response", "incomplete_details") {
        Some(d) => get_str(d, "reason", ""),
        None => "",
    };
    proof {
        reveal_strlit("");
    }
    if reason.is_empty() {
        reason_text.append(" (responses)");
    } else {
        reason_text.append(" (responses: ");
        reason_text.append(reason);
        reason_text.append(")");
    }
    let base = make_choice(Json::object().with("finish_reason", Json::Str(reason_text)));
    match get_inner(event, "response", "usage") {
        None => base,
        Some(u) => {
            let prompt = Json::object().with(
                "cached_tokens",
                Json::Unsigned(get_opt_count(u.get("input_tokens_details"), "cached_tokens")),
            );
            let completion = Json::object().with(
                "reasoning_tokens",
                Json::Unsigned(get_opt_count(u.get("output_tokens_details"), "reasoning_tokens")),
            );
            let usage = Json::object().with(
                "prompt_tokens",
                Json::Unsigned(get_count(u, "input_tokens")),
            ).with("completion_tokens", Json::Unsigned(get_count(u, "output_tokens"))).with(
                "prompt_tokens_details",
                prompt,
            ).with("completion_tokens_details", completion);
            base.with("usage", usage)
        },
    }
}

/// Converts one stream event of the Responses API into the payload of the Chat
/// Completions API.
pub fn convert_openai_responses_event_to_openai_format(event: &Json) -> (r: Json)
    ensures
        r@ == responses_payload(event@),
{
    let kind = event.str_at("type");
    if opt_is(kind, "response.output_text.delta") || opt_is(kind, "response.refusal.delta") {
        match event.str_at("delta") {
            Some(s) => make_delta("content", Json::text(s)),
            None => Json::object(),
        }
    } else if opt_is(kind, "response.reasoning_summary_text.delta") || opt_is(
        kind,
        "response.reasoning_text.delta",
    ) {
        match event.str_at("delta") {
            Some(s) => make_delta("reasoning_content", Json::text(s)),
            None => Json::object(),
        }
    } else if opt_is(kind, "response.output_item.added") {
        if opt_is(get_opt_text(get_inner(event, "item", "type")), "function_call") {
            let id = match get_opt_text(get_inner(event, "item", "call_id")) {
                Some(s) => s,
                None => str_or(get_opt_text(get_inner(event, "item", "id")), ""),
            };
            let name = str_or(get_opt_text(get_inner(event, "item", "name")), "");
            make_start(get_count(event, "output_index"), id, name)
        } else {
            Json::object()
        }
    } else if opt_is(kind, "response.output_item.done") {
        if opt_is(get_opt_text(get_inner(event, "item", "type")), "function_call") {
            let arguments = str_or(get_opt_text(get_inner(event, "item", "arguments")), "");
            make_arguments(get_count(event, "output_index"), Json::text(arguments))
        } else {
            Json::object()
        }
    } else if opt_is(kind, "response.completed") || opt_is(kind, "response.incomplete") {
        make_finish(event)
    } else {
        Json::object()
    }
}

// ---------------------------------------------------------------------------
// Laws of the conversions
// ---------------------------------------------------------------------------

proof fn lemma_role_keys()
    ensures
        "role"@ != "content"@,
        "user"@ != "tool"@,
        "assistant"@ != "tool"@,
{
    reveal_strlit("role");
    reveal_strlit("content");
    reveal_strlit("user");
    reveal_strlit("tool");
    reveal_strlit("assistant");
    assert("role"@.len() == 4);
    assert("content"@.len() == 7);
    assert("assistant"@.len() == 9);
    assert("tool"@.len() == 4);
    assert("user"@[0] == 'u');
    assert("tool"@[0] == 't');
}

proof fn lemma_role_item(role: Seq<char>, blocks: Seq<JsonView>)
    ensures
        role_item(role, blocks).str_at("role"@) == Some(role),
        role_item(role, blocks).array_at("content"@) == Some(blocks),
{
    lemma_role_keys();
    let e = empty_object();
    let a = e.with("role"@, JsonView::Str(role));
    lemma_with(e, "role"@, JsonView::Str(role));
    lemma_with(a, "content"@, JsonView::Array(blocks));
    assert(role_item(role, blocks).get("role"@) == Some(JsonView::Str(role)));
}

/// No message in the form of Anthropic has the role of a tool.
pub proof fn anthropic_knows_no_tool_role(msg: JsonView)
    ensures
        anthropic_message(msg).str_at("role"@) != Some("tool"@),
{
    lemma_role_keys();
    let role = str_in(msg, "role"@, ""@);
    if role == "tool"@ {
        lemma_role_item(
            "user"@,
            seq![
                tool_result_block(
                    str_in(msg, "tool_call_id"@, ""@),
                    result_content(msg.get("content"@)),
                ),
            ],
        );
    } else if role == "assistant"@ {
        lemma_role_item("assistant"@, assistant_blocks(msg));
    } else if role == "user"@ && msg.array_at("content"@) is Some {
        lemma_role_item(
            "user"@,
            msg.array_at("content"@)->0.map_values(|b: JsonView| anthropic_block(b)),
        );
    }
}

/// The blocks of the messages, among the first `n`, that hold tool results
/// alone.
pub open spec fn result_blocks(messages: Seq<JsonView>, n: int) -> Seq<JsonView>
    decreases n,
{
    if n <= 0 {
        Seq::empty()
    } else if only_tool_results(messages[n - 1]) {
        result_blocks(messages, n - 1) + user_blocks(messages[n - 1])->0
    } else {
        result_blocks(messages, n - 1)
    }
}

proof fn lemma_result_blocks_frame(a: Seq<JsonView>, b: Seq<JsonView>, n: int)
    requires
        0 <= n <= a.len(),
        n <= b.len(),
        forall|i: int| 0 <= i < n ==> a[i] == b[i],
    ensures
        result_blocks(a, n) == result_blocks(b, n),
    decreases n,
{
    if n > 0 {
        lemma_result_blocks_frame(a, b, n - 1);
    }
}

/// After the merge no two neighbours hold tool results alone, and every result
/// block is still there, in order.
pub proof fn merging_joins_all_results(messages: Seq<JsonView>, n: int)
    requires
        0 <= n <= messages.len(),
    ensures
        ({
            let out = merged_results(messages, n);
            &&& forall|i: int|
                0 <= i < out.len() - 1 ==> !(only_tool_results(#[trigger] out[i])
                    && only_tool_results(out[i + 1]))
            &&& result_blocks(out, out.len() as int) == result_blocks(messages, n)
        }),
    decreases n,
{
    if n > 0 {
        merging_joins_all_results(messages, n - 1);
        let before = merged_results(messages, n - 1);
        let out = merged_results(messages, n);
        let msg = messages[n - 1];
        let last = before.len() - 1;
        if only_tool_results(msg) && before.len() > 0 && only_tool_results(before.last()) {
            let old_last = before.last();
            let a = user_blocks(old_last)->0;
            let b = user_blocks(msg)->0;
            let joined = old_last.with("content"@, JsonView::Array(a + b));
            lemma_role_keys();
            lemma_with(old_last, "content"@, JsonView::Array(a + b));
            assert(joined.get("role"@) == old_last.get("role"@));
            assert(user_blocks(joined) == Some(a + b));
            assert(forall|i: int|
                0 <= i < (a + b).len() ==> is_tool_result(#[trigger] (a + b)[i])) by {
                assert forall|i: int| 0 <= i < (a + b).len() implies is_tool_result(
                    #[trigger] (a + b)[i],
                ) by {
                    if i < a.len() {
                        assert((a + b)[i] == a[i]);
                    } else {
                        assert((a + b)[i] == b[i - a.len()]);
                    }
                }
            }
            assert(only_tool_results(joined));
            assert forall|i: int| 0 <= i < out.len() - 1 implies !(only_tool_results(
                #[trigger] out[i],
            ) && only_tool_results(out[i + 1])) by {
                assert(out[i] == before[i]);
                if i + 1 < last {
                    assert(out[i + 1] == before[i + 1]);
                } else {
                    assert(!(only_tool_results(before[i]) && only_tool_results(before[i + 1])));
                }
            }
            lemma_result_blocks_frame(out, before, last);
            assert(result_blocks(before, before.len() as int) == result_blocks(before, last) + a);
            assert(result_blocks(out, out.len() as int) == result_blocks(out, last) + (a + b));
            assert(result_blocks(before, last) + (a + b) =~= result_blocks(before, last) + a + b);
        } else {
            assert forall|i: int| 0 <= i < out.len() - 1 implies !(only_tool_results(
                #[trigger] out[i],
            ) && only_tool_results(out[i + 1])) by {
                assert(out[i] == before[i]);
                if i + 1 < before.len() {
                    assert(out[i + 1] == before[i + 1]);
                } else {
                    assert(out[i + 1] == msg);
                    assert(before.last() == before[i]);
                }
            }
            lemma_result_blocks_frame(out, before, before.len() as int);
        }
    }
}

/// In every format, a message that is no result of a tool is left as it is.
pub proof fn other_messages_stay(
    messages: Seq<JsonView>,
    originals: Seq<MessageView>,
    mode: ToolResultFormat,
    i: int,
)
    requires
        0 <= i < messages.len(),
        !from_tool(messages[i]),
    ensures
        formatted_messages(messages, originals, mode)[i] == messages[i],
{
}

/// As JSON text, tool results are left as they are.
pub proof fn json_text_changes_nothing(messages: Seq<JsonView>, originals: Seq<MessageView>)
    ensures
        formatted_messages(messages, originals, ToolResultFormat::JsonString) == messages,
{
    assert(formatted_messages(messages, originals, ToolResultFormat::JsonString) =~= messages);
}

} // verus!
