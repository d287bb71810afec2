//! Slash commands, the reasoning loop, statistics and the start.

use always_goofy_things::attach::AttachedFile;
use always_goofy_things::cmd::{
    adopt_restored_id, apply_rewind, files_to_reload, handle_config, handle_history, handle_model,
    handle_restore, handle_stats, is_yes, no_session_notice, nothing_to_restore, parse_config_kv, parse_slash_command,
    plan_rewind, restore_label, restore_question, restored_turns, rewind_notice, rewind_warning,
    truncate_and_flatten, try_handle_slash_command, write_history, Reload, SlashCommand, SlashStep,
};
use always_goofy_things::compat_provider::LlmProvider;
use always_goofy_things::compat_resilience::ToolResultFormat;
use always_goofy_things::file::FileType;
use always_goofy_things::json_model::Json;
use always_goofy_things::llm_stats::{
    format_token_line, CallStatus, LlmCallRecord, LlmRequestInfo, Metrics, ModelTotals,
    MAX_CALL_RECORDS,
};
use always_goofy_things::model::{
    CompletionTokensDetails, FunctionCall, Message, PromptTokensDetails, Session, Settings,
    ToolCall, ToolRunDecision, ToolRunDecisionKind, Usage,
};
use always_goofy_things::reasoning::{
    accept_reply, api_error_text, auth_headers, auth_log, begin_turn, build_request, call_record,
    classify_reply, confirm_notice, count_role, empty_notice_text, execute_outcome,
    failed_call_record, max_turns_error, push_tool_result, read_call_arguments, refuse_tool,
    request_log, take_arguments, EndReason, LoopAction, LoopEvent, LoopLimits, LoopState, StreamState,
};
use always_goofy_things::startup::{
    print_startup_info, system_message, system_message_mode1_task_loop,
    system_message_mode2_replan, system_message_mode2_task_loop, Config, ToolName, DB_URL_REQUIRED,
};

fn json_of(v: serde_json::Value) -> Json {
    match v {
        serde_json::Value::Null => Json::Null,
        serde_json::Value::Bool(b) => Json::Bool(b),
        serde_json::Value::Number(n) => match (n.as_u64(), n.as_i64()) {
            (Some(u), _) => Json::Unsigned(u),
            (None, Some(i)) => Json::Signed(i),
            (None, None) => Json::Real(n.to_string()),
        },
        serde_json::Value::String(s) => Json::Str(s),
        serde_json::Value::Array(a) => Json::Array(a.into_iter().map(json_of).collect()),
        serde_json::Value::Object(m) => {
            Json::Object(m.into_iter().map(|(k, x)| (k, json_of(x))).collect())
        }
    }
}

fn j(text: &str) -> Json {
    json_of(serde_json::from_str(text).unwrap())
}

fn some(s: &str) -> Option<String> {
    Some(s.to_string())
}

fn config() -> Config {
    Config {
        working_dir: ".".to_string(),
        todo_mode: 0,
        llm_url: "http://localhost:11434/api/chat".to_string(),
        llm_model: "gemma".to_string(),
        llm_api_key: None,
        unsafe_reflex: false,
        verbose_level: 1,
        pretty_level: 1,
        llm_rpm: 0,
        max_output_tokens: 16384,
        max_reasoning_empty_responses: 2,
        session_label: "default".to_string(),
        provider: None,
        tool_result_format: ToolResultFormat::JsonString,
        only_tools: Vec::new(),
        query: None,
        output_file: None,
        max_reasoning_turns: 30,
        max_replan_attempts: 3,
        max_tool_output_bytes: 1048576,
        tool_timeout_secs: 30,
        db_type: None,
        db_url: None,
        db_auth_key: None,
        db_timeout: 30,
        db_max_bytes: 65536,
        db_unsafe_reflex: false,
    }
}

fn settings() -> Settings {
    Settings::from_config(&config())
}

fn session(roles: &[&str]) -> Session {
    let mut s = Session::with_id("id".to_string(), "label".to_string(), Message::plain("system", "s", 0));
    for r in roles {
        s.push_message(Message::plain(r, r, 0));
    }
    s
}

// --- commands --------------------------------------------------------------

#[test]
fn commands_are_recognised() {
    assert_eq!(parse_slash_command(" exit "), Some(SlashCommand::Exit));
    assert_eq!(parse_slash_command("/QUIT"), Some(SlashCommand::Unknown("/quit".to_string())));
    assert_eq!(parse_slash_command("/Help"), Some(SlashCommand::Help));
    assert_eq!(parse_slash_command("/rewind  2 "), Some(SlashCommand::Rewind(some("2"))));
    assert_eq!(parse_slash_command("/model"), Some(SlashCommand::Model(None)));
    assert_eq!(parse_slash_command("/x y"), Some(SlashCommand::Unknown("/x".to_string())));
    assert_eq!(parse_slash_command("hello /help"), None);
}

#[test]
fn models_are_switched() {
    let mut s = settings();
    assert_eq!(handle_model(&None, &mut s), "\x1b[93mCurrent model: gemma\x1b[0m\n");
    assert_eq!(
        handle_model(&some("qwen"), &mut s),
        "\x1b[32m\u{2713} Switched model: gemma -> qwen\x1b[0m\n"
    );
    assert_eq!(s.llm_model, "qwen");
}

#[test]
fn settings_are_changed_within_their_ranges() {
    let mut s = settings();
    assert_eq!(parse_config_kv("V 3"), Some(("v".to_string(), "3".to_string())));
    assert_eq!(parse_config_kv("v"), None);
    assert_eq!(handle_config(&some("v 3"), &mut s), Ok("  \x1b[32m\u{2713} Changed v to 3\x1b[0m\n".to_string()));
    assert_eq!(s.verbose_level, 3);
    assert_eq!(handle_config(&some("verbose 5"), &mut s), Err("verbose-level must be 0-4, got 5".to_string()));
    assert_eq!(handle_config(&some("p x"), &mut s), Err("Invalid value for pretty-level: 'x'. Must be 0-2.".to_string()));
    assert_eq!(handle_config(&some("p 3"), &mut s), Err("pretty-level must be 0-2, got 3".to_string()));
    assert_eq!(handle_config(&some("r -1"), &mut s), Err("Invalid value for llm-rpm: '-1'. Must be a non-negative integer.".to_string()));
    assert_eq!(handle_config(&some("t 0"), &mut s), Err("max-output-tokens must be > 0, got 0".to_string()));
    assert_eq!(handle_config(&some("zzz 1"), &mut s), Err("Unknown config key 'zzz'. Use /config -s for a list of keys.".to_string()));
    assert_eq!(handle_config(&some("v"), &mut s), Err("Usage: /config <key> <value>  (e.g. /config v 3)".to_string()));
    assert!(handle_config(&some("rpm 30"), &mut s).is_ok());
    assert!(handle_config(&some("output-tokens 9"), &mut s).is_ok());
    assert!(handle_config(&some("e 0"), &mut s).is_ok());
    assert_eq!((s.llm_rpm, s.max_output_tokens, s.max_reasoning_empty_responses), (30, 9, 0));
    assert!(handle_config(&None, &mut s).unwrap().contains("    llm-rpm           : 30\n"));
    assert!(handle_config(&some("-s"), &mut s).unwrap().contains("verbose-level     (0-4)"));
}

#[test]
fn a_conversation_is_rewound() {
    let s = session(&["user", "assistant", "user", "assistant", "user"]);
    let plan = plan_rewind(&some("1"), &s.messages, 4).unwrap();
    assert_eq!((plan.target, plan.truncate_at, plan.last_turn), (1, 3, 3));
    assert!(rewind_warning(&plan).contains("turns 2-3."));
    let mut messages = s.messages;
    apply_rewind(&mut messages, &plan);
    assert_eq!(messages.len(), 3);
    assert!(rewind_notice(&plan).contains("Rewound to Turn 1. Ready for your next input (Turn 2)."));
    let refused = |arg: Option<String>, turn: i32| plan_rewind(&arg, &messages, turn).err().unwrap();
    assert_eq!(refused(None, 2), "Usage: /rewind <turn>\nExample: /rewind 1");
    assert_eq!(refused(some("x"), 2), "Invalid turn number: 'x'. Must be a positive integer.");
    assert_eq!(refused(some("0"), 2), "Turn number must be >= 1");
    assert_eq!(refused(some("2"), 2), "Current turn is 2. Rewind target must be less than the current turn.");
    assert_eq!(refused(some("1"), 2), "Nothing to discard: turns after 1 do not exist");
}

#[test]
fn the_history_is_summarised() {
    let mut s = session(&["user", "assistant"]);
    s.messages[0].timestamp = 1_700_000_000;
    s.messages[2].model = some("m");
    s.messages[2].reasoning_content = some("why\nnot");
    s.messages[2].tool_calls = Some(vec![ToolCall {
        id: "c".to_string(),
        tool_type: "function".to_string(),
        function: FunctionCall { name: "calc".to_string(), arguments: j("{}") },
        thought_signature: None,
    }]);
    let mut tool = Message::plain("tool", "result", 0);
    tool.tool_call_id = some("c");
    tool.tool_call_decision = Some(ToolRunDecision { proceed: true, kind: ToolRunDecisionKind::AutoConfirm, reason: some("r") });
    s.push_message(tool);
    let text = handle_history(&None, &s.messages).unwrap();
    assert!(text.starts_with("\x1b[1mConversation History (4 message(s))\x1b[0m\n\x1b[90mSession ID: id\x1b[0m\n"));
    assert!(text.contains("\x1b[36m[System]\x1b[0m 11/14 22:13:20 system prompt\n"));
    assert!(text.contains("\x1b[1mTurn 1:\x1b[0m 01/01 00:00:00 \x1b[34m(User)\x1b[0m user\n"));
    assert!(text.contains("   \x1b[32mLLM call\x1b[0m(1-1) 01/01 00:00:00: \x1b[32m[m]\x1b[0m\n     Thinking: why \\n not\n     Response: assistant\n       \x1b[93mTool call\x1b[0m(c): calc\n"));
    assert!(text.contains("         Decision(c): \x1b[35mAuto-confirmed\x1b[0m: r\n       Tool result(c): result\n"));
    assert!(text.ends_with("Total turns: 1\n"));
    assert_eq!(handle_history(&some("-a"), &s.messages), None);
    assert_eq!(handle_history(&None, &Vec::new()), some("\x1b[93mNo conversation history.\x1b[0m\n"));
    assert_eq!(truncate_and_flatten("a\r\nb\nc", 60), "a \\n b \\n c");
    assert_eq!(truncate_and_flatten("abcdef", 3), "abc...");
}

#[test]
fn a_summary_shows_the_given_times() {
    let s = session(&["user"]);
    let clocks = vec!["t0".to_string(), "t1".to_string()];
    let text = write_history(&s.messages, &clocks);
    assert!(text.contains("[System]\x1b[0m t0 system prompt\n"));
    assert!(text.contains("\x1b[1mTurn 1:\x1b[0m t1 \x1b[34m(User)\x1b[0m user\n"));
}

fn reload(exists: bool, text: &str) -> Reload {
    Reload { exists, text: Ok(text.to_string()), bytes: Ok(Vec::new()) }
}

#[test]
fn a_session_is_restored() {
    let mut restored = session(&["user", "assistant", "user"]).messages;
    restored[1].session_id = "kept".to_string();
    restored[0].session_id = String::new();
    let file = |p: &str| AttachedFile { path: p.to_string(), content: String::new(), attach_type: FileType::Text, page_range: None };
    restored[1].attached_files = vec![file("a.txt"), file("b.txt")];
    assert_eq!(files_to_reload(&restored), vec!["a.txt".to_string(), "b.txt".to_string()]);
    assert_eq!(adopt_restored_id(&restored), "kept");
    assert_eq!(adopt_restored_id(&Vec::new()).len(), 36);
    assert_eq!(restored_turns(&restored), 1);
    let mut s = session(&[]);
    assert_eq!(restore_label(&None, &s), "label");
    assert_eq!(restore_label(&some(" work "), &s), "work");
    assert!(restore_question(4, "work").contains("with 4 saved message(s) from label 'work'."));
    assert!(nothing_to_restore("x").contains("label 'x'"));
    assert_eq!(no_session_notice("x"), "\x1b[93mNo previous session found for label 'x'.\x1b[0m\n");
    let out = handle_restore(&mut s, restored, &vec![reload(true, "new"), reload(false, "")], "work");
    assert_eq!(out.turns, 1);
    assert_eq!(s.id, "kept");
    assert_eq!(s.messages.len(), 4);
    assert_eq!(s.messages[1].attached_files[0].content, "new");
    assert_eq!(s.messages[1].attached_files[1].content, "");
    assert!(out.notice.contains("Attached files: 1 restored, 1 missing"));
    assert!(out.notice.ends_with("Restored 4 messages (1 turn(s)) from label 'work'.\x1b[0m\n"));
    assert!(out.warnings.contains("Skipped 'b.txt' (no longer exists on disk)"));
    assert!(begin_turn_reuses(&mut s));
}

fn begin_turn_reuses(s: &mut Session) -> bool {
    s.turn = 2;
    let before = s.messages.len();
    !begin_turn(s, "again", Vec::new()) && s.messages.len() == before && s.messages[3].content == "again"
}

#[test]
fn commands_lead_to_steps() {
    let s = session(&["user", "assistant"]);
    let mut set = settings();
    let m = Metrics::default();
    let mut step = |input: &str| try_handle_slash_command(input, &s, &mut set, &m);
    assert_eq!(step("hi"), None);
    assert_eq!(step("quit"), Some(SlashStep::Exit));
    assert_eq!(step("/history --all"), Some(SlashStep::ShowRaw));
    assert_eq!(step("/restore x"), Some(SlashStep::Restore("x".to_string())));
    match step("/rewind 9") {
        Some(SlashStep::Complain(e)) => assert!(e.contains("Slash command error:")),
        other => panic!("{other:?}"),
    }
    match step("/zzz") {
        Some(SlashStep::Complain(e)) => assert!(e.contains("Unknown command: /zzz")),
        other => panic!("{other:?}"),
    }
    assert_eq!(
        step("/stats"),
        Some(SlashStep::Show("Session stats (label: label)\nNo LLM calls recorded yet.\n".to_string()))
    );
    assert!(is_yes(" Y\n"));
    assert!(!is_yes("yes"));
}

// --- statistics ------------------------------------------------------------

fn record(model: &str, prompt: u32, completion: u32, ms: u128, status: CallStatus) -> LlmCallRecord {
    LlmCallRecord {
        timestamp: 0,
        model: model.to_string(),
        provider: LlmProvider::Ollama,
        call_label: "main".to_string(),
        usage: Usage {
            prompt_tokens: prompt,
            completion_tokens: completion,
            prompt_tokens_details: Some(PromptTokensDetails { cached_tokens: 4, cache_creation_tokens: 1, audio_tokens: 0 }),
            completion_tokens_details: Some(CompletionTokensDetails { reasoning_tokens: 2 }),
        },
        latency_ms: ms,
        ttft_ms: 1,
        request_bytes: 0,
        response_bytes: 0,
        retry_count: 0,
        status,
    }
}

#[test]
fn totals_are_the_sums_over_the_models() {
    let m = Metrics::from_records(vec![
        record("b", 10, 5, 300, CallStatus::Success),
        record("a", 3, 1, 100, CallStatus::Empty),
        record("b", 20, 8, 200, CallStatus::HttpError),
    ]);
    assert_eq!(m.by_model.len(), 2);
    let b = &m.by_model[0].1;
    assert_eq!((b.calls, b.in_normal, b.in_cached, b.out_normal, b.out_reasoning), (2, 20, 8, 9, 4));
    assert_eq!((b.llm_ms_min, b.llm_ms_max, b.llm_ms_total), (200, 300, 500));
    let a = &m.by_model[1].1;
    assert_eq!((a.in_normal, a.out_normal, a.empties), (0, 0, 1));
    assert_eq!(m.totals.calls, a.calls + b.calls);
    assert_eq!(m.totals.in_normal, a.in_normal + b.in_normal);
    assert_eq!(m.totals.errors, 1);
    let text = handle_stats(&m, "l");
    let lines: Vec<&str> = text.lines().collect();
    assert_eq!(lines[0], "Session stats (label: l)");
    assert_eq!(
        lines[1],
        format!("{:<20}{:>7}{:>10}{:>10}{:>10}{:>10}{:>11}{:>10}", "Model", "Calls", "In", "Cache", "CacheW", "Out", "Reasoning", "LLM time")
    );
    assert_eq!(
        lines[2],
        format!("{:<20}{:>7}{:>10}{:>10}{:>10}{:>10}{:>11}{:>10}", "a", 1, 0, 4, 1, 0, 2, "0.1s")
    );
    assert!(lines[3].starts_with("b "));
    assert!(lines[4].starts_with("total "));
}

#[test]
fn the_log_of_calls_is_capped() {
    let mut m = Metrics::default();
    for n in 0..(MAX_CALL_RECORDS + 2) {
        m.record_call(record("a", n as u32, 0, 0, CallStatus::Success), 1);
    }
    assert_eq!(m.calls.len(), MAX_CALL_RECORDS);
    assert_eq!(m.calls[0].usage.prompt_tokens, 2);
    assert_eq!(m.totals.calls, (MAX_CALL_RECORDS + 2) as u64);
    assert_eq!(m.totals.tool_calls, (MAX_CALL_RECORDS + 2) as u64);
    assert!(ModelTotals::default().fits(&record("a", 1, 1, 1, CallStatus::Empty), 0));
}

#[test]
fn tokens_are_shown_on_a_line() {
    let r = record("a", 10, 5, 0, CallStatus::Success);
    let mut t = ModelTotals::default();
    t.accumulate(&r, 0);
    assert_eq!(
        format_token_line(&r.usage, &t),
        "Turn: In 0.0K (5), Cache 0.0K (4), CacheW 0.0K (1), Out 0.0K (3) (Reasoning 0.0K (2)) | Total: In 0.0K (10), Cache 0.0K (4), CacheW 0.0K (1), Out 0.0K (3) (Reasoning 0.0K (2))"
    );
    let plain = Usage { prompt_tokens: 1200, completion_tokens: 0, prompt_tokens_details: None, completion_tokens_details: None };
    assert_eq!(
        format_token_line(&plain, &ModelTotals::default()),
        "Turn: In 1.2K (1200), Cache ---, CacheW ---, Out 0.0K (0) | Total: In 0.0K (0), Cache ---, CacheW ---, Out 0.0K (0)"
    );
}

// --- the loop --------------------------------------------------------------

fn limits(max_turns: u32, max_empty: u32, is_batch: bool) -> LoopLimits {
    LoopLimits { max_turns, max_empty, is_batch }
}

#[test]
fn the_loop_runs_tools_and_ends_with_an_answer() {
    let l = limits(30, 2, false);
    let mut s = LoopState::new();
    assert_eq!(s.advance(LoopEvent::Begin, &l), LoopAction::CallModel);
    assert_eq!(s.advance(LoopEvent::ToolRequest(2), &l), LoopAction::RunTool(0));
    assert_eq!(s.advance(LoopEvent::ToolDone, &l), LoopAction::RunTool(1));
    assert_eq!(s.advance(LoopEvent::ToolDone, &l), LoopAction::CallModel);
    assert_eq!(s.reasoning_turn, 2);
    assert_eq!(s.advance(LoopEvent::Answer, &l), LoopAction::End(EndReason::Completed));
    assert!(EndReason::Completed.is_completed() && !EndReason::MaxTurns.is_completed());
}

#[test]
fn the_loop_stops_at_its_limits() {
    let mut s = LoopState::new();
    let l = limits(1, 2, false);
    assert_eq!(s.advance(LoopEvent::Begin, &l), LoopAction::CallModel);
    assert_eq!(s.advance(LoopEvent::ToolRequest(1), &l), LoopAction::RunTool(0));
    assert_eq!(s.advance(LoopEvent::ToolDone, &l), LoopAction::End(EndReason::MaxTurns));
    let mut b = LoopState::new();
    let batch = limits(1, 0, true);
    b.advance(LoopEvent::Begin, &batch);
    assert_eq!(b.advance(LoopEvent::EmptyReply, &batch), LoopAction::Fail);
    let mut e = LoopState::new();
    let l = limits(0, 2, false);
    e.advance(LoopEvent::Begin, &l);
    assert_eq!(e.advance(LoopEvent::EmptyReply, &l), LoopAction::CallModel);
    assert_eq!(e.advance(LoopEvent::EmptyReply, &l), LoopAction::End(EndReason::EmptyLimit));
    let mut f = LoopState::new();
    assert_eq!(f.advance(LoopEvent::CallFailed, &l), LoopAction::End(EndReason::LlmError));
    assert_eq!(f.advance(LoopEvent::Interrupted, &l), LoopAction::End(EndReason::Interrupted));
    assert_eq!(max_turns_error(3), "Max reasoning turns (3) exceeded without a final answer");
    assert_eq!(empty_notice_text("m", 1, 3), "\x1b[93m(Empty response from m, retrying 1/3...)\x1b[0m");
    assert!(empty_notice_text("m", 3, 3).contains("returned 3 consecutive empty responses (limit: 3). Stopping."));
}

#[test]
fn replies_are_classified() {
    let mut m = Message::plain("assistant", "  ", 0);
    assert_eq!(classify_reply(&m), LoopEvent::EmptyReply);
    m.content = "x".to_string();
    assert_eq!(classify_reply(&m), LoopEvent::Answer);
    m.tool_calls = Some(vec![tool_call("c", "f")]);
    assert_eq!(classify_reply(&m), LoopEvent::ToolRequest(1));
}

fn tool_call(id: &str, name: &str) -> ToolCall {
    ToolCall {
        id: id.to_string(),
        tool_type: "function".to_string(),
        function: FunctionCall { name: name.to_string(), arguments: Json::text("{\"a\": 1}") },
        thought_signature: None,
    }
}

#[test]
fn a_turn_begins_and_its_messages_are_stamped() {
    let mut s = session(&[]);
    assert!(begin_turn(&mut s, "hello", Vec::new()));
    assert_eq!(s.messages[1].session_id, "id");
    let mut set = settings();
    accept_reply(&mut s, &mut set, Message::plain("assistant", "hi", 0));
    assert_eq!(set.last_sent_count, 3);
    assert_eq!(s.messages[2].session_id, "id");
    let d = ToolRunDecision { proceed: true, kind: ToolRunDecisionKind::UserConfirm, reason: None };
    push_tool_result(&mut s, &tool_call("c", "calc"), &j("{\"b\": 1, \"a\": 2}"), &d);
    assert_eq!(s.messages[3].content, "{\"a\":2,\"b\":1}");
    assert_eq!(s.messages[3].tool_name, some("calc"));
    assert_eq!(s.messages[3].tool_call_id, some("c"));
    assert_eq!(count_role(&s.messages, "tool"), 1);
    push_tool_result(&mut s, &tool_call("c", "calc"), &j("[null, true, -3, \"a\\u0001\\\"\\n\\u007f\"]"), &d);
    assert_eq!(s.messages[4].content, "[null,true,-3,\"a\\u0001\\\"\\n\u{7f}\"]");
}

#[test]
fn tools_are_refused_or_run() {
    let d = |kind: ToolRunDecisionKind| ToolRunDecision { proceed: false, kind, reason: some("why") };
    assert_eq!(
        refuse_tool(&d(ToolRunDecisionKind::UserCancel)).0,
        j("{\"status\": \"denied\", \"message\": \"Tool execution skipped by user.\"}")
    );
    assert_eq!(
        refuse_tool(&d(ToolRunDecisionKind::SystemError)).0,
        j("{\"status\": \"error\", \"message\": \"Tool execution skipped due to a system error: why\"}")
    );
    assert_eq!(
        refuse_tool(&d(ToolRunDecisionKind::AutoConfirm)).0,
        j("{\"status\": \"error\", \"message\": \"unknown app bug\"}")
    );
    assert_eq!(
        confirm_notice(&d(ToolRunDecisionKind::UserConfirm)),
        "     \x1b[32m User-confirmed\x1b[0m: why\x1b[0m"
    );
    assert_eq!(execute_outcome(Err("bad".to_string())).0, j("{\"error\": \"bad\"}"));
    assert_eq!(execute_outcome(Ok(j("[1]"))).0, j("[1]"));
    assert_eq!(read_call_arguments(&Json::text("{\"a\": 1}")), (j("{\"a\": 1}"), None));
    assert_eq!(read_call_arguments(&j("{\"a\": 1}")), (j("{\"a\": 1}"), None));
    assert_eq!(take_arguments(Err("e".to_string())), (Json::Null, some("e")));
    let (value, error) = read_call_arguments(&Json::text("{"));
    assert_eq!(value, Json::Null);
    assert!(error.unwrap().contains("EOF"));
}

#[test]
fn calls_are_recorded() {
    let failed = failed_call_record("m", LlmProvider::OpenAi, "main", 7, 1);
    assert_eq!((failed.status, failed.latency_ms, failed.retry_count), (CallStatus::HttpError, 7, 1));
    let info = LlmRequestInfo { latency_ms: 9, ttft_ms: 3, request_bytes: 10, response_bytes: 20 };
    let mut m = Message::plain("assistant", "x", 0);
    m.tool_calls = Some(vec![tool_call("c", "f"), tool_call("d", "g")]);
    let (r, tools) = call_record("m", LlmProvider::OpenAi, "main", &m, None, info, 0);
    assert_eq!((r.status, r.response_bytes, tools), (CallStatus::Success, 20, 2));
    let (e, _) = call_record("m", LlmProvider::OpenAi, "main", &Message::plain("assistant", "", 0), None, info, 0);
    assert_eq!(e.status, CallStatus::Empty);
}

#[test]
fn requests_are_logged_and_authorised() {
    let r = build_request(LlmProvider::OpenAi, &settings(), &session(&["user"]).messages, Vec::new(), ToolResultFormat::Text, true);
    assert_eq!((r.model.as_str(), r.max_output_tokens, r.messages.len()), ("gemma", 16384, 2));
    assert_eq!(request_log(0, "u", "body", 0, 2, "t"), "");
    assert_eq!(request_log(1, "u", "body", 0, 2, "t"), "\x1b[90m--- [API REQUEST: u] (Content-Length: 4) ---\x1b[0m\n");
    assert!(request_log(3, "u", "body", 0, 2, "t").contains("\nbody\x1b[0m"));
    assert!(request_log(2, "u", "body", 1, 2, "tail").contains("[1 messages omitted]"));
    assert_eq!(
        auth_headers(LlmProvider::OpenAi, "k"),
        vec![("Authorization".to_string(), "Bearer k".to_string())]
    );
    assert_eq!(auth_headers(LlmProvider::Anthropic, "k")[0], ("x-api-key".to_string(), "k".to_string()));
    assert_eq!(auth_log(LlmProvider::Anthropic, 0), "");
    assert!(!auth_log(LlmProvider::OpenAi, 1).contains('k') || auth_log(LlmProvider::OpenAi, 1).contains("****"));
    assert_eq!(
        api_error_text("400", "bad", "short", 0),
        "API Error (400)\nResponse: bad\nRequest Payload: short"
    );
    let long = "x".repeat(70);
    assert_eq!(
        api_error_text("400", "bad", &long, 0),
        format!("API Error (400)\nResponse: bad\nRequest Payload: {}...(70bytes)...{}", "x".repeat(30), "x".repeat(30))
    );
}

// --- streams ---------------------------------------------------------------

fn fed(provider: LlmProvider, chunks: &[&[u8]]) -> (Message, String, Option<Usage>) {
    let mut st = StreamState::new();
    let mut buffer: Vec<u8> = Vec::new();
    for c in chunks {
        buffer.extend_from_slice(c);
        st.feed_lines(provider, 1, &mut buffer);
    }
    st.feed_remainder(provider, &buffer);
    let usage = st.usage;
    let (m, text) = st.finish(&Vec::new(), "model");
    (m, text, usage)
}

#[test]
fn a_stream_is_read() {
    let lines = "event: x\n: comment\n\ndata: {\"choices\":[{\"delta\":{\"reasoning_content\":\"th\u{e9}\"}}]}\ndata:{\"choices\":[{\"delta\":{\"content\":\"Hel\"}}]}\nnot json\ndata: {\"choices\":[{\"delta\":{\"content\":\"lo\"}}],\"usage\":{\"prompt_tokens\":3,\"completion_tokens\":4}}\ndata: [DONE]\n";
    let (m, _, usage) = fed(LlmProvider::OpenAi, &[lines.as_bytes()]);
    assert_eq!(m.content, "Hello");
    assert_eq!(m.reasoning_content, some("th\u{e9}"));
    assert_eq!(m.model, some("model"));
    assert_eq!(m.tool_calls, None);
    assert_eq!(usage.unwrap().completion_tokens, 4);
}

#[test]
fn the_cut_of_a_stream_does_not_matter() {
    let text = "data: {\"choices\":[{\"delta\":{\"content\":\"\u{3042}\u{3044}\"}}]}\ndata: {\"choices\":[{\"delta\":{\"content\":\"!\"}}]}\n";
    let bytes = text.as_bytes();
    let whole = fed(LlmProvider::OpenAi, &[bytes]);
    for cut in 0..bytes.len() {
        let parts = fed(LlmProvider::OpenAi, &[&bytes[..cut], &bytes[cut..]]);
        assert_eq!(parts.0.content, whole.0.content);
        assert_eq!(parts.1, whole.1);
    }
}

#[test]
fn tool_calls_arrive_in_fragments() {
    let lines = "data: {\"choices\":[{\"delta\":{\"tool_calls\":[{\"index\":0,\"id\":\"c\",\"function\":{\"name\":\"f\",\"arguments\":\"{\\\"a\\\"\"}}]}}]}\ndata: {\"choices\":[{\"delta\":{\"tool_calls\":[{\"index\":0,\"function\":{\"arguments\":\":1}\"}}]}}]}\n";
    let (m, shown, _) = fed(LlmProvider::OpenAi, &[lines.as_bytes()]);
    let calls = m.tool_calls.unwrap();
    assert_eq!(calls[0].function.arguments, Json::text("{\"a\":1}"));
    assert!(shown.contains("Assistant > [Tool Call]\n"));
    let broken = lines.replace(":1}", ":");
    let (m, shown, _) = fed(LlmProvider::OpenAi, &[broken.as_bytes()]);
    assert_eq!(m.tool_calls, None);
    assert!(shown.contains("Assistant > (No response - reasoning not supported)\n"));
}

#[test]
fn anthropic_and_ollama_streams_are_read() {
    let anthropic = "data: {\"type\":\"message_start\",\"message\":{\"usage\":{\"input_tokens\":3}}}\ndata: {\"type\":\"content_block_delta\",\"delta\":{\"type\":\"text_delta\",\"text\":\"A\"}}\ndata: {\"type\":\"message_delta\",\"usage\":{\"output_tokens\":2}}\n";
    let (m, _, usage) = fed(LlmProvider::Anthropic, &[anthropic.as_bytes()]);
    assert_eq!(m.content, "A");
    assert_eq!(usage.unwrap().prompt_tokens, 3);
    let ollama = "{\"message\":{\"content\":\"B\"}}\n{\"done\":true,\"eval_count\":5}";
    let (m, _, usage) = fed(LlmProvider::Ollama, &[ollama.as_bytes()]);
    assert_eq!(m.content, "B");
    assert_eq!(usage.unwrap().completion_tokens, 5);
}

// --- the start -------------------------------------------------------------

#[test]
fn system_messages_have_fixed_sections() {
    let mut c = config();
    let allow = vec!["cargo".to_string(), "ls".to_string()];
    let full = system_message(&c, &allow);
    assert_eq!(full.role, "system");
    assert!(full.content.contains("## 1. Workspace Context"));
    assert!(full.content.contains("[cargo, ls]"));
    assert!(full.content.contains("## 3. Response Style"));
    c.only_tools = vec![ToolName::ReadFile];
    let some_tools = system_message(&c, &allow);
    assert!(!some_tools.content.contains("execute_bash)"));
    assert!(some_tools.content.contains("- read_file:"));
    assert!(c.is_tool_enabled("read_file") && !c.is_tool_enabled("calc"));
    assert!(full.content.contains("data_search, data_schema)\n"));
    assert!(full.content.contains("- data_search / data_schema: Query"));
    assert!(full.content.contains("; prefer it over write_file for partial edits."));
    c.only_tools = vec![ToolName::DataSearch];
    let search = system_message(&c, &allow);
    assert!(search.content.contains("- data_search: Query the configured database"));
    assert!(!search.content.contains("data_schema"));
    c.only_tools = vec![ToolName::DataSchema];
    assert!(!system_message(&c, &allow).content.contains("data_search"));
    c.only_tools = vec![ToolName::StrReplaceEditor];
    assert!(!system_message(&c, &allow).content.contains("write_file"));
    c.only_tools = vec![ToolName::Calc];
    assert!(!system_message(&c, &allow).content.contains("## 2. Tools"));
    assert!(system_message_mode1_task_loop(&c, &allow, 777).content.contains("777 characters."));
    assert!(system_message_mode2_replan(&c, &allow, 888).content.contains("Dynamic Replan"));
    assert!(system_message_mode2_task_loop(&c, &allow, 999).content.contains("next-task.md"));
}

#[test]
fn tools_have_names() {
    for name in ["list_directory", "read_file", "write_file", "str_replace_editor", "grep_search", "execute_bash", "fetch_web", "data_search", "data_schema", "calc"] {
        assert_eq!(ToolName::named(name).unwrap().as_str(), name);
    }
    assert_eq!(ToolName::named("x"), None);
}

#[test]
fn the_start_is_reported() {
    let mut c = config();
    let r = print_startup_info(&c, &LlmProvider::Ollama, "/w", "1.0");
    assert_eq!(r.error, None);
    assert!(r.text.contains("  llm-provider       : ollama\n"));
    assert!(r.text.contains("  only-tools         : all (default)\n"));
    c.only_tools = vec![ToolName::DataSearch];
    assert!(print_startup_info(&c, &LlmProvider::Ollama, "/w", "1.0").text.contains("stay disabled without it."));
    c.db_type = some("clickhouse");
    assert_eq!(print_startup_info(&c, &LlmProvider::Ollama, "/w", "1.0").error, some(DB_URL_REQUIRED));
    c.db_url = some("http://db");
    assert!(print_startup_info(&c, &LlmProvider::Ollama, "/w", "1.0").text.contains("  db-url             : http://db\n"));
    c.db_type = some("oracle");
    assert!(print_startup_info(&c, &LlmProvider::Ollama, "/w", "1.0").error.unwrap().starts_with("[DB_UNKNOWN_TYPE]"));
}
