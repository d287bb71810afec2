//! Requests and streams of the providers, and recovery of what models send.

use always_goofy_things::attach::AttachedFile;
use always_goofy_things::compat;
use always_goofy_things::compat_provider::{
    accumulate_usage, attach_file_contents, attach_ollama_tool_names,
    convert_anth_to_openai_format, convert_message_for_anthropic, convert_messages_for_ollama,
    convert_messages_for_openai, convert_messages_for_openai_responses,
    convert_openai_responses_event_to_openai_format, convert_tools_to_anthropic,
    convert_tools_to_openai_responses, detect_lowered, detect_provider, format_with_reading, has_document,
    has_unreadable_result, merge_anthropic_tool_results, openai_responses_input_content_block,
    openai_responses_output_text_block, openai_responses_text_block, read_usage,
    reformat_tool_results, render_tool_text, take_input, LlmProvider,
};
use always_goofy_things::compat_resilience::{
    extract_msg_base, infer_tool_name_from_args, keep_usable_calls, merge_tool_call_delta, normalize_tool_call_format,
    normalize_tool_calls_array, post_process_tool_calls, ToolResultFormat,
};
use always_goofy_things::file::FileType;
use always_goofy_things::json_model::Json;
use always_goofy_things::model::{
    call_to_json, message_to_json, ChatRequest, FunctionCall, Message, PromptTokensDetails,
    ToolCall, Usage,
};

fn json_of(v: serde_json::Value) -> Json {
    match v {
        serde_json::Value::Null => Json::Null,
        serde_json::Value::Bool(b) => Json::Bool(b),
        serde_json::Value::Number(n) => match (n.as_u64(), n.as_i64()) {
            (Some(u), _) => Json::Unsigned(u),
            (None, Some(i)) => Json::Signed(i),
            (None, None) => Json::Real(n.to_string()),
        },
        serde_json::Value::String(s) => Json::Str(s),
        serde_json::Value::Array(a) => Json::Array(a.into_iter().map(json_of).collect()),
        serde_json::Value::Object(m) => {
            Json::Object(m.into_iter().map(|(k, x)| (k, json_of(x))).collect())
        }
    }
}

fn j(text: &str) -> Json {
    json_of(serde_json::from_str(text).unwrap())
}

fn list(text: &str) -> Vec<Json> {
    match j(text) {
        Json::Array(v) => v,
        _ => panic!("no list"),
    }
}

fn call(id: &str, name: &str, arguments: Json) -> ToolCall {
    ToolCall {
        id: id.to_string(),
        tool_type: "function".to_string(),
        function: FunctionCall { name: name.to_string(), arguments },
        thought_signature: None,
    }
}

#[test]
fn providers_are_detected_by_their_address() {
    for url in ["https://API.Anthropic.com/v1", "http://h:11434/API/CHAT", "https://caf\u{e9}/V1/Responses", "https://x"] {
        assert_eq!(detect_provider(&url.to_ascii_uppercase()), detect_provider(url));
        assert_eq!(compat::detect_provider(&url.to_ascii_uppercase()), compat::detect_provider(url));
    }
    for (url, p) in [
        ("http://localhost:11434/api/chat", LlmProvider::Ollama),
        ("https://API.Anthropic.com/v1/messages", LlmProvider::Anthropic),
        ("https://x/anthropic", LlmProvider::Anthropic),
        ("https://api.openai.com/v1/responses", LlmProvider::OpenAiResponses),
        ("https://api.openai.com/v1/chat/completions", LlmProvider::OpenAi),
    ] {
        assert_eq!(detect_provider(url), p, "{url}");
    }
    assert_eq!(detect_lowered("http://h:11434/v1"), LlmProvider::Ollama);
    assert_eq!(LlmProvider::Anthropic.name(), "anthropic");
}

#[test]
fn tool_results_become_text() {
    let text = |tool: &str, t: &str| render_tool_text(&j(t), tool);
    assert_eq!(text("read_file", "{\"content\": \"c\"}"), Some("c".to_string()));
    assert_eq!(text("fetch_web", "{}"), None);
    assert_eq!(text("execute_bash", "{\"stdout\": \"o\", \"stderr\": \"e\"}"), Some("o".to_string()));
    assert_eq!(text("execute_bash", "{\"stdout\": \"o\", \"stderr\": \"e\", \"exit_code\": 1}"), Some("o\nstderr:\ne".to_string()));
    assert_eq!(text("write_file", "{\"path\": \"p\", \"bytes_written\": 3}"), Some("Written 3 bytes to p".to_string()));
    assert_eq!(
        text("str_replace_editor", "{\"path\": \"p\", \"occurrences_replaced\": 2, \"match_type\": \"fuzzy\", \"fuzzy_match_detail\": {\"line_issues\": [{\"line\": \"4\", \"numerical_diff\": {\"a_b\": 1}}, {}], \"hint\": \"h\"}}"),
        Some("Replaced 2 occurrence(s) in p (fuzzy)\n  Line 4: a b: 1\n\nh".to_string())
    );
    assert_eq!(text("grep_search", "{\"matches\": []}"), Some("No matches found.".to_string()));
    assert_eq!(
        text("grep_search", "{\"matches\": [{\"path\": \"p\", \"line\": 2, \"text\": \"t\"}], \"truncated\": true}"),
        Some("p:2:t\n\u{2192} 1 matches (truncated; narrow the query or scope the path)".to_string())
    );
    assert_eq!(text("grep_search", "{}"), None);
    assert_eq!(text("list_directory", "{\"entries\": []}"), Some("(empty directory)".to_string()));
    assert_eq!(
        text("list_directory", "{\"entries\": [{\"name\": \"a\", \"type\": \"file\", \"size\": 3}, {}]}"),
        Some("a\tfile\t3 bytes\n?\t?\t0 bytes".to_string())
    );
    assert_eq!(text("calc", "{}"), None);
}

#[test]
fn tool_results_are_reformatted() {
    let messages = list("[{\"role\": \"tool\", \"content\": \"{\\\"content\\\": \\\"c\\\"}\"}, {\"role\": \"tool\", \"content\": \"broken\"}]");
    let mut originals = vec![Message::plain("tool", "", 0), Message::plain("tool", "", 0)];
    originals[0].tool_name = Some("read_file".to_string());
    originals[1].tool_name = Some("read_file".to_string());
    assert_eq!(reformat_tool_results(&messages, &originals, ToolResultFormat::JsonString), messages);
    let text = reformat_tool_results(&messages, &originals, ToolResultFormat::Text);
    assert_eq!(text, list("[{\"role\": \"tool\", \"content\": \"c\"}, {\"role\": \"tool\", \"content\": \"broken\"}]"));
    let structured = reformat_tool_results(&messages, &originals, ToolResultFormat::JsonStructured);
    assert_eq!(structured[0], j("{\"role\": \"tool\", \"content\": {\"content\": \"c\"}}"));
    let others = list("[{\"role\": \"user\", \"content\": \"42\"}, {\"role\": \"assistant\", \"content\": \"{}\"}]");
    let plain = vec![Message::plain("user", "42", 0), Message::plain("assistant", "{}", 0)];
    for mode in [ToolResultFormat::JsonString, ToolResultFormat::Text, ToolResultFormat::JsonStructured] {
        assert_eq!(reformat_tool_results(&others, &plain, mode), others);
    }
    assert!(has_unreadable_result(&messages[1], &originals[1], ToolResultFormat::Text));
    assert!(!has_unreadable_result(&messages[0], &originals[0], ToolResultFormat::Text));
}

fn attached(path: &str, content: &str, attach_type: FileType) -> AttachedFile {
    AttachedFile { path: path.to_string(), content: content.to_string(), attach_type, page_range: None }
}

fn user_with_files() -> Message {
    let mut m = Message::plain("user", "look", 0);
    m.attached_files = vec![
        attached("a.txt", "text", FileType::Text),
        attached("b.png", "data:image/png;base64,AQID", FileType::Image { mime: "image/png".to_string() }),
        attached("c.wav", "AQID", FileType::Audio { format: "wav".to_string() }),
        attached("d.pdf", "AQID", FileType::Document { mime: "application/pdf".to_string() }),
    ];
    m
}

const BLOCKS: &str = "[{\"type\": \"text\", \"text\": \"look\"}, {\"type\": \"text\", \"text\": \"<attached_file path=\\\"a.txt\\\">\\ntext\\n</attached_file>\"}, {\"type\": \"image_url\", \"image_url\": {\"url\": \"data:image/png;base64,AQID\"}}, {\"type\": \"input_audio\", \"input_audio\": {\"data\": \"AQID\", \"format\": \"wav\"}}, {\"type\": \"document\", \"source\": {\"type\": \"base64\", \"media_type\": \"application/pdf\", \"data\": \"AQID\"}}]";

#[test]
fn attachments_become_blocks() {
    let m = user_with_files();
    let out = attach_file_contents(&vec![message_to_json(&m)], &vec![m.copy()]);
    assert_eq!(out[0].get("content"), Some(&j(BLOCKS)));
    let plain = Message::plain("user", "x", 0);
    assert_eq!(attach_file_contents(&vec![message_to_json(&plain)], &vec![plain.copy()]), vec![message_to_json(&plain)]);
}

#[test]
fn ollama_takes_images_apart() {
    let msg = Json::object().with("role", Json::text("user")).with("content", j(BLOCKS));
    assert!(has_document(&msg));
    let out = convert_messages_for_ollama(&vec![msg, j("{\"role\": \"assistant\", \"content\": \"a\", \"reasoning_content\": \"r\"}")]);
    assert_eq!(out[0], j("{\"role\": \"user\", \"images\": [\"AQID\"], \"content\": \"look\\n<attached_file path=\\\"a.txt\\\">\\ntext\\n</attached_file>\"}"));
    assert_eq!(out[1], j("{\"role\": \"assistant\", \"content\": \"a\", \"thinking\": \"r\"}"));
    let mut tool = Message::plain("tool", "{}", 0);
    tool.tool_name = Some("calc".to_string());
    let named = attach_ollama_tool_names(&vec![message_to_json(&tool)], &vec![tool]);
    assert_eq!(named[0].str_at("tool_name"), Some("calc"));
}

#[test]
fn openai_takes_documents_as_files() {
    let msg = Json::object().with("role", Json::text("user")).with("content", j(BLOCKS));
    let out = convert_messages_for_openai(&vec![msg]);
    assert_eq!(
        out[0].array_at("content").unwrap()[4],
        j("{\"type\": \"file\", \"file\": {\"file_data\": \"data:application/pdf;base64,AQID\"}}")
    );
}

#[test]
fn responses_take_items() {
    let messages = list("[{\"role\": \"system\", \"content\": \"s\"}, {\"role\": \"user\", \"content\": \"u\"}, {\"role\": \"assistant\", \"content\": \"a\", \"tool_calls\": [{\"id\": \"\", \"function\": {\"name\": \"f\", \"arguments\": {\"x\": 1}}}]}, {\"role\": \"tool\", \"content\": {\"y\": 2}}, {\"role\": \"tool\", \"content\": \"z\"}]");
    assert_eq!(
        convert_messages_for_openai_responses(&messages),
        list("[{\"role\": \"user\", \"content\": [{\"type\": \"input_text\", \"text\": \"u\"}]}, {\"role\": \"assistant\", \"content\": [{\"type\": \"output_text\", \"text\": \"a\"}]}, {\"type\": \"function_call\", \"call_id\": \"call_openai_responses_1\", \"name\": \"f\", \"arguments\": \"{\\\"x\\\":1}\"}, {\"type\": \"function_call_output\", \"call_id\": \"call_openai_responses_1\", \"output\": \"{\\\"y\\\":2}\"}, {\"type\": \"function_call_output\", \"call_id\": \"call_openai_responses_2\", \"output\": \"z\"}]")
    );
    assert_eq!(openai_responses_text_block(&j("3")), j("{\"type\": \"input_text\", \"text\": \"\"}"));
    assert_eq!(openai_responses_output_text_block(&j("\"x\"")), j("{\"type\": \"output_text\", \"text\": \"x\"}"));
    assert_eq!(
        openai_responses_input_content_block(&j("{\"type\": \"file\", \"file\": {\"file_data\": \"data:a/b;base64,QQ\"}}")),
        j("{\"type\": \"input_file\", \"file_data\": \"QQ\"}")
    );
    assert_eq!(
        openai_responses_input_content_block(&j("{\"type\": \"image_url\", \"image_url\": {\"url\": \"u\"}}")),
        j("{\"type\": \"input_image\", \"image_url\": \"u\"}")
    );
}

#[test]
fn anthropic_takes_blocks() {
    assert_eq!(
        convert_message_for_anthropic(&j("{\"role\": \"tool\", \"tool_call_id\": \"t\", \"content\": {\"a\": 1}}")),
        j("{\"role\": \"user\", \"content\": [{\"type\": \"tool_result\", \"tool_use_id\": \"t\", \"content\": \"{\\\"a\\\":1}\"}]}")
    );
    assert_eq!(
        convert_message_for_anthropic(&j("{\"role\": \"assistant\", \"content\": \"c\", \"reasoning_content\": \"r\", \"tool_calls\": [{\"id\": \"i\", \"function\": {\"name\": \"f\", \"arguments\": \"{\\\"x\\\": 1}\"}}, {\"function\": {\"arguments\": \"broken\"}}]}")),
        j("{\"role\": \"assistant\", \"content\": [{\"type\": \"thinking\", \"thinking\": \"r\"}, {\"type\": \"text\", \"text\": \"c\"}, {\"type\": \"tool_use\", \"id\": \"i\", \"name\": \"f\", \"input\": {\"x\": 1}}, {\"type\": \"tool_use\", \"id\": \"\", \"name\": \"\", \"input\": {}}]}")
    );
    assert_eq!(
        convert_message_for_anthropic(&j("{\"role\": \"user\", \"content\": [{\"type\": \"image_url\", \"image_url\": {\"url\": \"data:image/png;base64,AQID\"}}]}")),
        j("{\"role\": \"user\", \"content\": [{\"type\": \"image\", \"source\": {\"type\": \"base64\", \"media_type\": \"image/png\", \"data\": \"AQID\"}}]}")
    );
    assert_eq!(convert_message_for_anthropic(&j("{\"role\": \"assistant\", \"content\": \"c\"}")), j("{\"role\": \"assistant\", \"content\": \"c\"}"));
}

#[test]
fn parallel_results_are_merged() {
    let r = |id: &str| format!("{{\"role\": \"user\", \"content\": [{{\"type\": \"tool_result\", \"tool_use_id\": \"{id}\"}}]}}");
    let messages = list(&format!("[{}, {}, {{\"role\": \"user\", \"content\": \"x\"}}, {}]", r("1"), r("2"), r("3")));
    let merged = merge_anthropic_tool_results(&messages);
    assert_eq!(merged.len(), 3);
    assert_eq!(merged[0].array_at("content").unwrap().len(), 2);
    assert_eq!(merged[2], messages[3]);
}

#[test]
fn tools_are_described_per_provider() {
    let tools = list("[{\"type\": \"function\", \"function\": {\"name\": \"f\", \"description\": \"d\", \"parameters\": {\"type\": \"object\"}}}, {\"type\": \"x\"}]");
    assert_eq!(
        convert_tools_to_anthropic(&tools),
        list("[{\"name\": \"f\", \"description\": \"d\", \"input_schema\": {\"type\": \"object\"}}]")
    );
    assert_eq!(
        convert_tools_to_openai_responses(&tools),
        list("[{\"type\": \"function\", \"name\": \"f\", \"description\": \"d\", \"parameters\": {\"type\": \"object\"}}]")
    );
}

fn request(provider: LlmProvider) -> ChatRequest {
    ChatRequest {
        provider,
        model: "m".to_string(),
        max_output_tokens: 7,
        tools: Vec::new(),
        stream: true,
        messages: vec![Message::plain("system", "s", 0), Message::plain("user", "u", 0)],
        tool_result_format: ToolResultFormat::JsonString,
        max_tokens_fallback: false,
    }
}

#[test]
fn requests_have_the_shape_of_their_provider() {
    let openai = request(LlmProvider::OpenAi).to_provider_json();
    assert_eq!(openai, j("{\"model\": \"m\", \"stream\": true, \"max_completion_tokens\": 7, \"messages\": [{\"role\": \"system\", \"content\": \"s\"}, {\"role\": \"user\", \"content\": \"u\"}], \"stream_options\": {\"include_usage\": true}}"));
    let mut old = request(LlmProvider::OpenAi);
    old.max_tokens_fallback = true;
    assert_eq!(old.to_provider_json().u64_at("max_tokens"), Some(7));
    let ollama = request(LlmProvider::Ollama).to_provider_json();
    assert_eq!(ollama.get("options"), Some(&j("{\"num_predict\": 7}")));
    let anthropic = request(LlmProvider::Anthropic).to_provider_json();
    assert_eq!(anthropic, j("{\"model\": \"m\", \"stream\": true, \"max_tokens\": 7, \"system\": \"s\", \"messages\": [{\"role\": \"user\", \"content\": \"u\"}]}"));
    let responses = request(LlmProvider::OpenAiResponses).to_provider_json();
    assert_eq!(responses.str_at("instructions"), Some("s"));
    assert_eq!(responses.u64_at("max_output_tokens"), Some(7));
    assert_eq!(responses.array_at("input").unwrap().len(), 1);
}

#[test]
fn usage_adds_up() {
    let mut u: Option<Usage> = None;
    accumulate_usage(&j("{\"usage\": {\"prompt_tokens\": 10, \"completion_tokens\": 0, \"prompt_tokens_details\": {\"cached_tokens\": 4, \"cache_creation_tokens\": 1}}}"), &mut u);
    accumulate_usage(&j("{\"usage\": {\"prompt_tokens\": 0, \"completion_tokens\": 5, \"completion_tokens_details\": {\"reasoning_tokens\": 2}}}"), &mut u);
    accumulate_usage(&j("{\"usage\": null}"), &mut u);
    accumulate_usage(&j("{}"), &mut u);
    let u = u.unwrap();
    assert_eq!((u.prompt_tokens, u.completion_tokens), (10, 5));
    assert_eq!(
        u.prompt_tokens_details,
        Some(PromptTokensDetails { cached_tokens: 4, cache_creation_tokens: 1, audio_tokens: 0 })
    );
    assert_eq!(u.completion_tokens_details.unwrap().reasoning_tokens, 2);
    let mut o: Option<Usage> = None;
    accumulate_usage(&j("{\"done\": true, \"prompt_eval_count\": 3, \"eval_count\": 4}"), &mut o);
    assert_eq!(o.unwrap().completion_tokens, 4);
    assert!(read_usage(&j("{\"prompt_tokens\": -1}")).is_none());
    assert!(read_usage(&j("{}")).is_some());
}

#[test]
fn usage_is_read_by_position_too() {
    let counts = |t: &str| read_usage(&j(t)).map(|u| (u.prompt_tokens, u.completion_tokens));
    assert_eq!(counts("[3, 5]"), Some((3, 5)));
    assert_eq!(counts("[3]"), Some((3, 0)));
    assert_eq!(counts("[]"), Some((0, 0)));
    assert_eq!(counts("[1, 2, null, null, 5]"), None);
    assert_eq!(counts("[-1]"), None);
    assert_eq!(counts("7"), None);
    let u = read_usage(&j("[1, 2, [4, 5, 6], [7]]")).unwrap();
    assert_eq!(
        u.prompt_tokens_details,
        Some(PromptTokensDetails { cached_tokens: 4, cache_creation_tokens: 5, audio_tokens: 6 })
    );
    assert_eq!(u.completion_tokens_details.unwrap().reasoning_tokens, 7);
    assert!(read_usage(&j("{\"prompt_tokens_details\": [1, 2, 3, 4]}")).is_none());
    assert!(read_usage(&j("[1, 2, null, [7, 8]]")).is_none());
    let u = read_usage(&j("{\"prompt_tokens\": 9, \"prompt_tokens_details\": [1]}")).unwrap();
    assert_eq!(u.prompt_tokens_details.unwrap().cached_tokens, 1);
}

#[test]
fn anthropic_events_are_translated() {
    let mut index = 0;
    let mut event = |t: &str| convert_anth_to_openai_format(&j(t), &mut index);
    assert_eq!(
        event("{\"type\": \"content_block_delta\", \"delta\": {\"type\": \"text_delta\", \"text\": \"x\"}}"),
        j("{\"choices\": [{\"delta\": {\"content\": \"x\"}}]}")
    );
    assert_eq!(
        event("{\"type\": \"content_block_delta\", \"delta\": {\"type\": \"thinking_delta\", \"thinking\": \"y\"}}"),
        j("{\"choices\": [{\"delta\": {\"reasoning_content\": \"y\"}}]}")
    );
    assert_eq!(
        event("{\"type\": \"content_block_start\", \"index\": 2, \"content_block\": {\"type\": \"tool_use\", \"id\": \"i\", \"name\": \"n\"}}"),
        j("{\"choices\": [{\"delta\": {\"tool_calls\": [{\"index\": 2, \"id\": \"i\", \"function\": {\"name\": \"n\", \"arguments\": \"\"}}]}}]}")
    );
    assert_eq!(
        event("{\"type\": \"content_block_delta\", \"delta\": {\"type\": \"input_json_delta\", \"partial_json\": \"{\"}}"),
        j("{\"choices\": [{\"delta\": {\"tool_calls\": [{\"index\": 2, \"function\": {\"arguments\": \"{\"}}]}}]}")
    );
    assert_eq!(
        event("{\"type\": \"message_start\", \"message\": {\"usage\": {\"input_tokens\": 3, \"cache_read_input_tokens\": 1}}}"),
        j("{\"usage\": {\"prompt_tokens\": 3, \"completion_tokens\": 0, \"prompt_tokens_details\": {\"cached_tokens\": 1, \"cache_creation_tokens\": 0}}}")
    );
    assert_eq!(
        event("{\"type\": \"message_delta\", \"usage\": {\"output_tokens\": 9}}"),
        j("{\"usage\": {\"prompt_tokens\": 0, \"completion_tokens\": 9}}")
    );
    assert_eq!(event("{\"type\": \"ping\"}"), j("{}"));
}

#[test]
fn responses_events_are_translated() {
    let event = |t: &str| convert_openai_responses_event_to_openai_format(&j(t));
    assert_eq!(
        event("{\"type\": \"response.refusal.delta\", \"delta\": \"no\"}"),
        j("{\"choices\": [{\"delta\": {\"content\": \"no\"}}]}")
    );
    assert_eq!(
        event("{\"type\": \"response.output_item.added\", \"output_index\": 1, \"item\": {\"type\": \"function_call\", \"id\": \"i\", \"name\": \"n\"}}"),
        j("{\"choices\": [{\"delta\": {\"tool_calls\": [{\"index\": 1, \"id\": \"i\", \"function\": {\"name\": \"n\", \"arguments\": \"\"}}]}}]}")
    );
    assert_eq!(
        event("{\"type\": \"response.output_item.done\", \"output_index\": 1, \"item\": {\"type\": \"function_call\", \"arguments\": \"{}\"}}"),
        j("{\"choices\": [{\"delta\": {\"tool_calls\": [{\"index\": 1, \"function\": {\"arguments\": \"{}\"}}]}}]}")
    );
    assert_eq!(
        event("{\"type\": \"response.incomplete\", \"response\": {\"status\": \"incomplete\", \"incomplete_details\": {\"reason\": \"max\"}}}"),
        j("{\"choices\": [{\"finish_reason\": \"incomplete (responses: max)\"}]}")
    );
    assert_eq!(
        event("{\"type\": \"response.completed\", \"response\": {\"usage\": {\"input_tokens\": 2, \"output_tokens\": 3}}}"),
        j("{\"choices\": [{\"finish_reason\": \"completed (responses)\"}], \"usage\": {\"prompt_tokens\": 2, \"completion_tokens\": 3, \"prompt_tokens_details\": {\"cached_tokens\": 0}, \"completion_tokens_details\": {\"reasoning_tokens\": 0}}}")
    );
    assert_eq!(event("{\"type\": \"response.created\"}"), j("{}"));
}

// --- recovery --------------------------------------------------------------

const DEFS: &str = "[{\"function\": {\"name\": \"read_file\", \"parameters\": {\"properties\": {\"path\": {}, \"start\": {}}, \"required\": [\"path\"]}}}, {\"function\": {\"name\": \"execute_bash\", \"parameters\": {\"properties\": {\"command\": {}}, \"required\": [\"command\"]}}}]";

#[test]
fn names_are_inferred_from_arguments() {
    let defs = list(DEFS);
    assert_eq!(infer_tool_name_from_args(&defs, &j("{\"command\": \"ls\"}")), Some("execute_bash".to_string()));
    assert_eq!(infer_tool_name_from_args(&defs, &j("{\"path\": \"a\", \"start\": 1}")), Some("read_file".to_string()));
    assert_eq!(infer_tool_name_from_args(&defs, &j("{\"zzz\": 1}")), None);
}

#[test]
fn flat_calls_are_wrapped() {
    let mut calls = list("[{\"id\": \"i\", \"name\": \"f\", \"arguments\": {\"x\": 1}}, {\"function\": {\"name\": \"g\"}}]");
    assert!(normalize_tool_calls_array(&mut calls));
    assert_eq!(calls, list("[{\"id\": \"i\", \"function\": {\"name\": \"f\", \"arguments\": {\"x\": 1}}}, {\"function\": {\"name\": \"g\"}}]"));
    assert!(!normalize_tool_calls_array(&mut calls));
    let mut event = j("{\"message\": {\"tool_calls\": [{\"name\": \"f\", \"arguments\": \"{}\"}]}}");
    assert!(normalize_tool_call_format(&mut event));
    assert_eq!(
        extract_msg_base(&event),
        j("{\"tool_calls\": [{\"function\": {\"name\": \"f\", \"arguments\": \"{}\"}}]}")
    );
    assert_eq!(extract_msg_base(&j("{\"choices\": [{\"delta\": {\"content\": \"x\"}}]}")), j("{\"content\": \"x\"}"));
    assert_eq!(extract_msg_base(&j("{}")), Json::Null);
}

#[test]
fn calls_are_recovered_or_dropped() {
    let defs = list(DEFS);
    let mut calls = vec![
        call("", "", Json::text("{\"command\": \"ls\"}")),
        call("keep", "read_file", Json::text("{\"path\": \"a\"}")),
        call("bad", "read_file", Json::text("{broken")),
        call("next", "", Json::text("{\"zzz\": 1}")),
    ];
    post_process_tool_calls(&mut calls, &defs);
    assert_eq!(calls.len(), 3);
    assert_eq!(calls[0].function.name, "execute_bash");
    assert_eq!(calls[0].id, "call_missing_0");
    assert_eq!(calls[1].id, "keep");
    assert_eq!(calls[2].function.name, "read_file");
    let mut unknown = vec![call("x", "", Json::text("{\"zzz\": 1}"))];
    post_process_tool_calls(&mut unknown, &defs);
    assert!(unknown.is_empty());
}

#[test]
fn calls_are_kept_by_what_was_read() {
    let defs = list(DEFS);
    let mut calls = vec![call("", "", Json::text("?")), call("b", "read_file", Json::text("{}"))];
    keep_usable_calls(&mut calls, &vec![Ok(j("{\"command\": \"ls\"}")), Err("bad".to_string())], &defs);
    assert_eq!(calls, vec![call("call_missing_0", "execute_bash", Json::text("?"))]);
    assert_eq!(take_input(Err("bad".to_string())), Json::object());
    assert_eq!(take_input(Ok(j("[1]"))), j("[1]"));
}

#[test]
fn messages_are_formatted_by_what_was_read() {
    let msg = j("{\"role\": \"tool\", \"content\": \"?\"}");
    let read = || Ok(j("{\"content\": \"body\"}"));
    let text = format_with_reading(&msg, Some("read_file"), ToolResultFormat::Text, read());
    assert_eq!(text.str_at("content"), Some("body"));
    let value = format_with_reading(&msg, None, ToolResultFormat::JsonStructured, read());
    assert_eq!(value.get("content"), Some(&j("{\"content\": \"body\"}")));
    let same = format_with_reading(&msg, None, ToolResultFormat::Text, Err("bad".to_string()));
    assert_eq!(same, msg);
}

#[test]
fn fragments_of_calls_add_up() {
    let mut calls: Vec<ToolCall> = Vec::new();
    merge_tool_call_delta(&mut calls, &list("[{\"index\": 1, \"id\": \"b\", \"function\": {\"name\": \"f\", \"arguments\": \"{\\\"x\"}}]"), 0, true);
    merge_tool_call_delta(&mut calls, &list("[{\"index\": 1, \"function\": {\"arguments\": \"\\\": 1}\"}, \"thought_signature\": \"s\"}]"), 0, true);
    assert_eq!(calls.len(), 2);
    assert_eq!(calls[0], call("", "", Json::text("")));
    assert_eq!(calls[1].function.arguments, Json::text("{\"x\": 1}"));
    assert_eq!(calls[1].thought_signature, Some("s".to_string()));
    merge_tool_call_delta(&mut calls, &list("[{\"function\": {\"name\": \"g\", \"arguments\": {\"y\": 2}}, \"thought_signature\": \"t\"}]"), 2, false);
    assert_eq!(calls[2].function.arguments, j("{\"y\": 2}"));
    assert_eq!(calls[2].thought_signature, None);
    assert_eq!(
        call_to_json(&calls[1]),
        j("{\"id\": \"b\", \"type\": \"function\", \"function\": {\"name\": \"f\", \"arguments\": \"{\\\"x\\\": 1}\"}, \"thought_signature\": \"s\"}")
    );
}

#[test]
fn the_plain_compatibility_layer() {
    assert_eq!(compat::detect_provider("http://localhost:11434/api/chat"), compat::LlmProvider::Ollama);
    assert_eq!(compat::detect_provider("https://api.anthropic.com/v1/messages"), compat::LlmProvider::Anthropic);
    assert_eq!(
        compat::convert_message_for_anthropic(&j("{\"role\": \"tool\", \"tool_call_id\": \"t\", \"content\": \"c\"}")),
        j("{\"role\": \"user\", \"content\": [{\"type\": \"tool_result\", \"tool_use_id\": \"t\", \"content\": \"c\"}]}")
    );
    let mut index = 0;
    assert_eq!(
        compat::convert_anth_to_openai_format(&j("{\"type\": \"content_block_delta\", \"delta\": {\"type\": \"text_delta\", \"text\": \"x\"}}"), &mut index),
        j("{\"choices\": [{\"delta\": {\"content\": \"x\"}}]}")
    );
    let request = compat::ChatRequest {
        provider: compat::LlmProvider::Anthropic,
        model: "m".to_string(),
        max_output_tokens: 5,
        tools: Vec::new(),
        stream: true,
        messages: vec![Message::plain("system", "s", 0), Message::plain("user", "u", 0)],
    };
    let body = request.to_provider_json();
    assert_eq!(body.str_at("model"), Some("m"));
    assert_eq!(body.str_at("system"), Some("s"));
}
