//! Session files, turns at the terminal and the graphical shell.

use always_goofy_things::attach::AttachedFile;
use always_goofy_things::cmd::SlashCmdResult;
use always_goofy_things::file::FileType;
use always_goofy_things::gui::{
    ansi_256_color, ansi_color, exit_notice, foreground_for_style, is_todo_mode,
    parse_extended_color, parse_task_summary, progress_text, read_error_notice, sends_input,
    AnsiParser, Colour, OutputStyle, Screen, Stream, OUTPUT_LIMIT,
};
use always_goofy_things::json_model::Json;
use always_goofy_things::model::{
    FunctionCall, Message, Session, ToolCall, ToolRunDecision, ToolRunDecisionKind,
};
use always_goofy_things::persistence::{
    archive_backup_name, archive_name, last_session_name, line_of_reading, line_value,
    message_of_json, previous_session_name, read_line, read_messages, serialize_message,
    session_content, skip_warning, start_action, stats_name, temp_session_name, SessionLine,
    StartAction,
};
use always_goofy_things::session::session_file_display;
use always_goofy_things::startup::Config;
use always_goofy_things::turn::{
    announcement, answer_target, attached_line, batch_input, batch_summary, is_batch,
    is_passed_over, missing_line, output_entry, oversized_line, preview_query, prompt, take_over,
    AnswerTarget,
};

fn json_of(v: serde_json::Value) -> Json {
    match v {
        serde_json::Value::Null => Json::Null,
        serde_json::Value::Bool(b) => Json::Bool(b),
        serde_json::Value::Number(n) => match (n.as_u64(), n.as_i64()) {
            (Some(u), _) => Json::Unsigned(u),
            (None, Some(i)) => Json::Signed(i),
            (None, None) => Json::Real(n.to_string()),
        },
        serde_json::Value::String(s) => Json::Str(s),
        serde_json::Value::Array(a) => Json::Array(a.into_iter().map(json_of).collect()),
        serde_json::Value::Object(m) => {
            Json::Object(m.into_iter().map(|(k, x)| (k, json_of(x))).collect())
        }
    }
}

fn j(text: &str) -> Json {
    json_of(serde_json::from_str(text).unwrap())
}

fn strings(list: &[&str]) -> Vec<String> {
    list.iter().map(|s| s.to_string()).collect()
}

fn file(path: &str, content: &str, kind: FileType, range: Option<(usize, usize)>) -> AttachedFile {
    AttachedFile {
        path: path.to_string(),
        content: content.to_string(),
        attach_type: kind,
        page_range: range,
    }
}

fn full_message() -> Message {
    let mut m = Message::plain("assistant", "line one\nline \"two\"", 1234);
    m.reasoning_content = Some("because".to_string());
    m.tool_calls = Some(vec![ToolCall {
        id: "c1".to_string(),
        tool_type: "function".to_string(),
        function: FunctionCall {
            name: "read_file".to_string(),
            arguments: j("{\"path\": \"a\", \"n\": [1, -2, true, null]}"),
        },
        thought_signature: Some("sig".to_string()),
    }]);
    m.tool_call_id = Some("t1".to_string());
    m.tool_name = Some("read_file".to_string());
    m.model = Some("model".to_string());
    m.tool_call_decision = Some(ToolRunDecision {
        proceed: true,
        kind: ToolRunDecisionKind::UserConfirm,
        reason: None,
    });
    m.attached_files = vec![
        file("a.txt", "text", FileType::Text, None),
        file("b.png", "data", FileType::Image { mime: "image/png".to_string() }, None),
        file("c.wav", "data", FileType::Audio { format: "wav".to_string() }, None),
        file("d.pdf", "data", FileType::Document { mime: "application/pdf".to_string() }, Some((3, 7))),
    ];
    m.session_id = "session".to_string();
    m
}

fn restored(m: &Message) -> Message {
    let mut r = m.copy();
    r.tool_name = None;
    r.timestamp = 0;
    r.model = None;
    r.tool_call_decision = None;
    for f in r.attached_files.iter_mut() {
        f.content = String::new();
    }
    r
}

// --- session files ---------------------------------------------------------

#[test]
fn session_files_are_named_after_their_label() {
    assert_eq!(last_session_name("default"), "last_session_default.jsonl");
    assert_eq!(previous_session_name("x"), "previous_session_x.jsonl");
    assert_eq!(stats_name("x"), "llm_stats_x.jsonl");
    assert_eq!(temp_session_name("x", 42), "last_session_x.jsonl.tmp.42");
    assert_eq!(archive_name(3, "x"), "todo_loop_3_x.jsonl");
    assert_eq!(archive_backup_name(3, "x", "20260101-120000"), "todo_loop_3_x_20260101-120000.jsonl");
    assert_eq!(session_file_display(Some("/a"), None), "last=/a, previous=");
}

#[test]
fn only_a_conversation_is_kept_at_a_start() {
    let system = vec![Message::plain("system", "s", 0)];
    let talk = vec![Message::plain("system", "s", 0), Message::plain("user", "u", 0)];
    assert_eq!(start_action(false, &talk), StartAction::Create);
    assert_eq!(start_action(true, &talk), StartAction::MoveToPrevious);
    assert_eq!(start_action(true, &system), StartAction::Empty);
    assert_eq!(start_action(true, &Vec::new()), StartAction::Empty);
}

#[test]
fn a_line_holds_its_message() {
    let m = full_message();
    let line = serialize_message(&m);
    assert!(!line.contains('\n'));
    assert_eq!(read_line(&line), SessionLine::Message(restored(&m)));
    assert_eq!(message_of_json(&line_value(&m)), Some(restored(&m)));
    let plain = Message::plain("user", "hi", 5);
    assert_eq!(serialize_message(&plain), "{\"content\":\"hi\",\"role\":\"user\"}");
}

#[test]
fn a_line_with_real_numbers_comes_back() {
    let mut m = full_message();
    let mut calls = m.tool_calls.take().unwrap();
    calls[0].function.arguments = j("{\"deep\": [{\"x\": 0.5}, -2.25e3], \"n\": 7, \"s\": \"1.5\"}");
    m.tool_calls = Some(calls);
    assert_eq!(read_line(&serialize_message(&m)), SessionLine::Message(restored(&m)));

    for number in ["1e-400", "1E+5", "-0.0", "9.87654321e307", "123456789012345678901234567890.5"] {
        let mut calls = m.tool_calls.take().unwrap();
        calls[0].function.arguments = Json::Real(number.to_string());
        m.tool_calls = Some(calls);
        let content = session_content(&vec![m.copy()]);
        let lines: Vec<String> = content.lines().map(|l| l.to_string()).collect();
        let read = read_messages(&lines);
        assert_eq!(read.error, None);
        assert!(read.warnings.is_empty());
        assert_eq!(read.messages.len(), 1);
        let back = &read.messages[0];
        assert_eq!(back.role, m.role);
        assert_eq!(back.content, m.content);
        assert_eq!(back.session_id, m.session_id);
        let call = &back.tool_calls.as_ref().unwrap()[0];
        assert_eq!((call.id.as_str(), call.function.name.as_str()), ("c1", "read_file"));
        assert!(matches!(call.function.arguments, Json::Real(_)), "{}", number);
    }
}

#[test]
fn a_line_leaves_out_what_is_not_there() {
    let mut m = Message::plain("user", "hi", 5);
    m.session_id = "s".to_string();
    m.attached_files = vec![file("a", "content", FileType::Text, None)];
    assert_eq!(
        serialize_message(&m),
        "{\"attached_files\":[{\"attach_type\":\"Text\",\"page_range\":null,\"path\":\"a\"}],\"content\":\"hi\",\"role\":\"user\",\"session_id\":\"s\"}"
    );
}

#[test]
fn a_session_file_reads_back() {
    let messages = vec![
        Message::plain("system", "s", 1),
        full_message(),
        Message::plain("tool", "{\"x\": 1}", 9),
    ];
    let content = session_content(&messages);
    let lines: Vec<String> = content.lines().map(|l| l.to_string()).collect();
    let read = read_messages(&lines);
    assert_eq!(read.error, None);
    assert!(read.warnings.is_empty());
    assert_eq!(read.messages, messages.iter().map(restored).collect::<Vec<_>>());
    assert_eq!(session_content(&Vec::new()), "");
}

#[test]
fn broken_lines_are_skipped_and_foreign_ones_end_the_reading() {
    let good = "{\"role\":\"user\",\"content\":\"hi\"}";
    let read = read_messages(&strings(&["", "  ", "{broken", good]));
    assert_eq!(read.messages.len(), 1);
    assert_eq!(read.warnings.len(), 1);
    assert!(read.warnings[0].starts_with("\x1b[93mWarning: Skipping malformed line 3: key must be a string"));
    let ended = read_messages(&strings(&[good, "{\"role\":\"user\"}", good]));
    assert_eq!(ended.messages.len(), 1);
    assert_eq!(ended.error, Some("Failed to parse message at line 2".to_string()));
    assert_eq!(skip_warning("stats line", 4, "e"), "\x1b[93mWarning: Skipping malformed stats line 4: e \x1b[0m");
    assert_eq!(line_of_reading(Err("why".to_string())), SessionLine::Malformed("why".to_string()));
}

#[test]
fn messages_are_read_as_strictly_as_they_are_written() {
    let read = |t: &str| message_of_json(&j(t));
    assert!(read("{\"role\": \"user\", \"content\": 3}").is_none());
    assert!(read("{\"content\": \"x\"}").is_none());
    assert!(read("\"text\"").is_none());
    assert!(read("{\"role\": \"u\", \"content\": \"c\", \"tool_calls\": [{}]}").is_none());
    assert!(read("{\"role\": \"u\", \"content\": \"c\", \"reasoning_content\": 1}").is_none());
    let m = read("{\"role\": \"u\", \"content\": \"c\", \"tool_call_id\": null, \"extra\": 1}").unwrap();
    assert_eq!(m.tool_call_id, None);
    let list = read("[\"u\", \"c\", null, null, \"t\"]").unwrap();
    assert_eq!(list.tool_call_id, Some("t".to_string()));
    assert!(read("[\"u\", \"c\"]").is_none());
    let call = read("{\"role\": \"u\", \"content\": \"c\", \"tool_calls\": [{\"function\": {\"name\": \"f\", \"arguments\": null}}]}").unwrap();
    assert_eq!(call.tool_calls.unwrap()[0].id, "");
    let files = read("{\"role\": \"u\", \"content\": \"c\", \"attached_files\": [{\"path\": \"a\", \"attach_type\": \"Text\"}, {\"path\": \"b\"}, {\"path\": \"c\", \"attach_type\": {\"Image\": {\"mime\": \"m\"}}, \"page_range\": [1, 2]}, {\"path\": \"d\", \"attach_type\": \"Image\"}]}").unwrap();
    assert_eq!(files.attached_files.len(), 2);
    assert_eq!(files.attached_files[1].page_range, Some((1, 2)));
}

// --- turns -----------------------------------------------------------------

fn config() -> Config {
    Config {
        working_dir: ".".to_string(),
        todo_mode: 0,
        llm_url: "http://localhost:11434/api/chat".to_string(),
        llm_model: "m".to_string(),
        llm_api_key: None,
        unsafe_reflex: false,
        verbose_level: 1,
        pretty_level: 1,
        llm_rpm: 0,
        max_output_tokens: 16384,
        max_reasoning_empty_responses: 2,
        session_label: "default".to_string(),
        provider: None,
        tool_result_format: always_goofy_things::compat_resilience::ToolResultFormat::JsonString,
        only_tools: Vec::new(),
        query: None,
        output_file: None,
        max_reasoning_turns: 30,
        max_replan_attempts: 3,
        max_tool_output_bytes: 1048576,
        tool_timeout_secs: 30,
        db_type: None,
        db_url: None,
        db_auth_key: None,
        db_timeout: 30,
        db_max_bytes: 65536,
        db_unsafe_reflex: false,
    }
}

#[test]
fn a_query_or_a_todo_mode_makes_a_batch() {
    let mut c = config();
    assert!(!is_batch(&c));
    assert_eq!(batch_input(&c), None);
    c.todo_mode = 2;
    assert!(is_batch(&c));
    assert_eq!(batch_input(&c), Some("".to_string()));
    c.query = Some("q".to_string());
    assert_eq!(batch_input(&c), Some("q".to_string()));
    c.todo_mode = 0;
    assert_eq!(batch_input(&c), Some("q".to_string()));
    assert!(is_passed_over("  ", 0));
    assert!(!is_passed_over("  ", 1));
    assert_eq!(prompt(3), "\nUser-3 > ");
}

#[test]
fn commands_move_the_turn() {
    let mut s = Session::with_id("i".to_string(), "l".to_string(), Message::plain("system", "s", 0));
    assert!(!take_over(&mut s, SlashCmdResult::NoAdvance));
    assert_eq!(s.turn, 1);
    assert!(!take_over(&mut s, SlashCmdResult::RewoundTo(4)));
    assert_eq!(s.turn, 5);
    assert!(!take_over(&mut s, SlashCmdResult::RestoredTo { turn: 2, label: "x".to_string() }));
    assert_eq!((s.turn, s.label.as_str()), (3, "x"));
    assert!(take_over(&mut s, SlashCmdResult::Exit));
}

#[test]
fn attachments_are_announced() {
    let pdf = file("A.PDF", "text", FileType::Text, Some((2, 4)));
    assert_eq!(attached_line(&pdf), "\x1b[90m[Attached] Markdown extracted from A.PDF (p.2-p.4)\x1b[0m\n");
    let whole = file("a.pdf", "text", FileType::Text, None);
    assert_eq!(announcement(&whole, true), "Markdown extracted from a.pdf");
    let text = file("a.txt", "12345", FileType::Text, None);
    assert_eq!(attached_line(&text), "\x1b[90m[Attached] a.txt (5 bytes)\x1b[0m\n");
    assert_eq!(
        oversized_line("a", 2 * 1024 * 1024, true),
        "\x1b[93m[Warning] a exceeds 1 MiB: 2.0 MB (2097152 bytes) (attaching anyway)\x1b[0m\n"
    );
    assert_eq!(
        oversized_line("a", 2 * 1024 * 1024, false),
        "\x1b[93m[Warning] a exceeds 1 MiB: 2.0 MB (2097152 bytes)\x1b[0m\n"
    );
    assert_eq!(missing_line("a"), "\x1b[93m[File not found] a\x1b[0m\n");
}

#[test]
fn answers_are_written_with_a_separator() {
    assert_eq!(output_entry("answer", 2, "l", false), "answer");
    assert_eq!(
        output_entry("answer", 2, "l", true),
        "\n\n<!-- always-goofy-things | turn 2 | session: l -->\n\nanswer"
    );
    assert_eq!(preview_query("a\nb\rc"), "a\\nbc");
    assert_eq!(preview_query("12345678901"), "1234567890...");
    assert_eq!(
        batch_summary("1.0s", &None, &Some("hello".to_string())),
        "\n\x1b[36mBatch completed in 1.0s, output -> stdout, query: \"hello\"\x1b[0m.\n"
    );
    assert_eq!(
        batch_summary("1.0s", &Some("o".to_string()), &None),
        "\n\x1b[36mBatch completed in 1.0s, output -> o, query: \"\"\x1b[0m.\n"
    );
}

// --- the graphical shell ---------------------------------------------------

fn rgb(red: u8, green: u8, blue: u8) -> Colour {
    Colour { red, green, blue }
}

#[test]
fn colours_have_numbers() {
    assert_eq!(ansi_color(0, false), Some(rgb(60, 60, 60)));
    assert_eq!(ansi_color(1, false), Some(rgb(205, 65, 65)));
    assert_eq!(ansi_color(6, true), Some(rgb(92, 255, 255)));
    assert_eq!(ansi_color(7, true), Some(rgb(230, 230, 230)));
    assert_eq!(ansi_color(8, true), None);
    assert_eq!(ansi_256_color(196), rgb(255, 0, 0));
    assert_eq!(ansi_256_color(9), rgb(255, 92, 92));
    assert_eq!(ansi_256_color(232), rgb(8, 8, 8));
    assert_eq!(ansi_256_color(255), rgb(238, 238, 238));
    assert_eq!(ansi_256_color(999), rgb(255, 255, 255));
    assert_eq!(parse_extended_color(&vec![38, 2, 300, 1, 2], 1), Some((rgb(255, 1, 2), 5)));
    assert_eq!(parse_extended_color(&vec![38, 5], 1), None);
    assert_eq!(parse_extended_color(&vec![38, 7, 1], 1), None);
}

#[test]
fn sequences_set_the_style() {
    let plain = OutputStyle::default();
    let s = plain.apply_sgr("1;31;4");
    assert!(s.bold && s.underline && !s.italic);
    assert_eq!(s.foreground, Some(rgb(205, 65, 65)));
    assert_eq!(s.apply_sgr(""), plain);
    assert_eq!(s.apply_sgr("22").bold, false);
    assert_eq!(plain.apply_sgr("48;2;1;2;3").background, Some(rgb(1, 2, 3)));
    assert_eq!(plain.apply_sgr("38;5").foreground, None);
    let skipped = plain.apply_sgr("38;5;196;1;3");
    assert_eq!(skipped.foreground, Some(rgb(255, 0, 0)));
    assert!(!skipped.bold && skipped.italic);
    assert_eq!(plain.apply_sgr("x;3").italic, true);
    assert_eq!(foreground_for_style(plain), None);
    assert_eq!(
        foreground_for_style(plain.apply_sgr("41")),
        Some(rgb(255, 255, 255))
    );
}

fn texts(screen: &Screen) -> Vec<String> {
    screen
        .lines
        .iter()
        .map(|l| l.spans.iter().map(|s| s.text.clone()).collect::<Vec<_>>().join("|"))
        .collect()
}

#[test]
fn output_is_read_in_lines_and_styles() {
    let mut p = AnsiParser::new();
    let mut s = Screen::new();
    p.feed("a\x1b[1mb\x1b[0mc\r\nd\x1b[2Ke\x1b]0;title\x07f\x1b(Bg", &mut s);
    assert_eq!(texts(&s), strings(&["a|b|c", "defBg"]));
    assert!(s.lines[0].spans[1].style.bold);
    assert_eq!(s.bytes, 8);
    assert_eq!(p.pending, "");
    p.feed("\u{e9}", &mut s);
    assert_eq!(s.bytes, 10);
}

#[test]
fn cutting_the_output_changes_nothing() {
    let text = "x\x1b[31my\n\x1b]8;;u\x1b\\z\x1b[0mw\x1b[1";
    let chars: Vec<char> = text.chars().collect();
    let mut whole = AnsiParser::new();
    let mut shown = Screen::new();
    whole.feed(text, &mut shown);
    for cut in 0..=chars.len() {
        let a: String = chars[..cut].iter().collect();
        let b: String = chars[cut..].iter().collect();
        let mut p = AnsiParser::new();
        let mut s = Screen::new();
        p.feed(&a, &mut s);
        p.feed(&b, &mut s);
        assert_eq!(s, shown);
        assert_eq!(p, whole);
    }
    assert_eq!(whole.pending, "\x1b[1");
    whole.finish(&mut shown);
    assert_eq!(whole.pending, "\x1b[1");
}

#[test]
fn bytes_wait_for_the_rest_of_their_character() {
    let mut stream = Stream::new();
    let mut s = Screen::new();
    stream.append_output_bytes(&vec![b'a', 0xe3, 0x81], &mut s);
    assert_eq!(texts(&s), strings(&["a"]));
    assert_eq!(stream.pending, vec![0xe3, 0x81]);
    stream.append_output_bytes(&vec![0x82], &mut s);
    assert_eq!(texts(&s), strings(&["a\u{3042}"]));
    stream.append_output_bytes(&vec![b'b', 0xff, b'c'], &mut s);
    assert_eq!(texts(&s), strings(&["a\u{3042}b\u{fffd}"]));
    assert_eq!(stream.pending, vec![b'c']);
    stream.append_output_bytes(&vec![0xe3], &mut s);
    assert!(stream.close(&mut s));
    assert_eq!(texts(&s), strings(&["a\u{3042}b\u{fffd}c\u{fffd}"]));
    assert!(stream.pending.is_empty());
}

#[test]
fn output_stays_within_its_limit() {
    let mut p = AnsiParser::new();
    let mut s = Screen::new();
    p.feed(&"x".repeat(OUTPUT_LIMIT), &mut s);
    p.feed("\nyz", &mut s);
    assert_eq!(s.bytes, OUTPUT_LIMIT + 2);
    s.trim_output();
    assert_eq!(s.bytes, OUTPUT_LIMIT);
    assert_eq!(s.lines[0].spans[0].text.len(), OUTPUT_LIMIT - 2);
    assert_eq!(s.lines.len(), 2);
    s.trim_output();
    assert_eq!(s.bytes, OUTPUT_LIMIT);
    let mut short = Screen::new();
    AnsiParser::new().feed("ab\n", &mut short);
    AnsiParser::new().feed(&"x".repeat(OUTPUT_LIMIT + 1), &mut short);
    short.trim_output();
    assert_eq!(short.bytes, OUTPUT_LIMIT + 1);
    assert_eq!(short.lines.len(), 1);
}

#[test]
fn tasks_are_counted() {
    let todo = "# Plan\n- [x] not a task\n## Tasks\n- [x] one\n- [ ]  two \n  - [ ] three\n## Notes\n- [ ] four\n";
    let t = parse_task_summary(todo);
    assert_eq!((t.total, t.completed, t.pending), (3, 1, 2));
    assert_eq!(t.next_task, Some("two".to_string()));
    assert_eq!(progress_text(&t), "Progress: 1 / 3 (2 pending)");
    let none = parse_task_summary("nothing");
    assert_eq!((none.total, none.next_task), (0, None));
    assert!(is_todo_mode(1) && is_todo_mode(2) && !is_todo_mode(0) && !is_todo_mode(3));
}

#[test]
fn the_shell_has_notices() {
    assert_eq!(exit_notice("exit status: 0"), "\n[CLI process exited: exit status: 0]\n");
    assert_eq!(read_error_notice("e"), "\n[process read error] e\n");
    assert!(sends_input("hi", true));
    assert!(!sends_input(" ", true));
    assert!(!sends_input("hi", false));
}

#[test]
fn answers_go_to_the_file_or_the_output() {
    assert_eq!(answer_target(true, true), AnswerTarget::File);
    assert_eq!(answer_target(true, false), AnswerTarget::File);
    assert_eq!(answer_target(false, true), AnswerTarget::Stdout);
    assert_eq!(answer_target(false, false), AnswerTarget::Nowhere);
}
