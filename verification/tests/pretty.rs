//! Previews, differences and results.

use always_goofy_things::json_model::Json;
use always_goofy_things::pretty::{
    compute_diff, compute_replace_lines, compute_str_replace_diff, preview_with_match,
    pretty_print_command, pretty_print_result, read_replacement, show_diff_preview, truncate,
    truncate_str, truncated_value, DiffLine, PatternMatch, Replacement,
};

fn json_of(v: serde_json::Value) -> Json {
    match v {
        serde_json::Value::Null => Json::Null,
        serde_json::Value::Bool(b) => Json::Bool(b),
        serde_json::Value::Number(n) => match (n.as_u64(), n.as_i64()) {
            (Some(u), _) => Json::Unsigned(u),
            (None, Some(i)) => Json::Signed(i),
            (None, None) => Json::Real(n.to_string()),
        },
        serde_json::Value::String(s) => Json::Str(s),
        serde_json::Value::Array(a) => Json::Array(a.into_iter().map(json_of).collect()),
        serde_json::Value::Object(m) => {
            Json::Object(m.into_iter().map(|(k, x)| (k, json_of(x))).collect())
        }
    }
}

fn j(text: &str) -> Json {
    json_of(serde_json::from_str(text).unwrap())
}

fn strings(list: &[&str]) -> Vec<String> {
    list.iter().map(|s| s.to_string()).collect()
}

fn replacement(path: &str, old: &str, new: &str) -> Json {
    Json::object()
        .with("new_string", Json::text(new))
        .with("old_string", Json::text(old))
        .with("path", Json::text(path))
}

const SCRIPT: &str = "#!/usr/bin/env python3\n\nprint(\"hello world\");\nprint(\"how are you?\");\n\nfor i in range(1, 3):\n    print(\"hello times: \", i);\n";

fn shown(path: &str, content: &str, old: &str, new: &str) -> (usize, Vec<DiffLine>, bool, String) {
    let args = replacement(path, old, new);
    let x = read_replacement(&args).unwrap();
    let p = compute_str_replace_diff(&x, content).unwrap();
    let kind = if p.exact { "exact" } else { "fuzzy" };
    let text = show_diff_preview(path, p.line, &p.diff, Some(kind));
    assert_eq!(pretty_print_command("str_replace_editor", &args, Some(content)), text);
    (p.line, p.diff, p.exact, text)
}

fn context(s: &str) -> DiffLine {
    DiffLine::Context(s.to_string())
}

fn removed(s: &str) -> DiffLine {
    DiffLine::Removed(s.to_string())
}

fn added(s: &str) -> DiffLine {
    DiffLine::Added(s.to_string())
}

#[test]
fn test_show_diff_preview_hello_world() {
    let (line, diff, exact, text) = shown(
        "hello_world",
        SCRIPT,
        "print(\"hello world\");",
        "print(\"bonjour le monde\");",
    );
    assert_eq!(line, 3);
    assert!(exact);
    assert_eq!(
        diff,
        vec![
            context("#!/usr/bin/env python3"),
            context(""),
            removed("print(\"hello world\");"),
            added("print(\"bonjour le monde\");"),
            context("print(\"how are you?\");"),
            context(""),
            context("for i in range(1, 3):"),
        ]
    );
    assert!(text.starts_with("\n-- Code Preview: hello_world [\x1b[32mexact\x1b[0m] --\n"));
    assert!(text.ends_with("\n[\x1b[32m+1\x1b[0m, \x1b[31m-1\x1b[0m]\n"));
}

#[test]
fn test_show_diff_preview_how_are_you() {
    let (line, diff, exact, _) = shown(
        "how_are_you",
        SCRIPT,
        "print(\"how are you?\");",
        "print(\"comment allez-vous ?\");",
    );
    assert_eq!(line, 4);
    assert!(exact);
    assert_eq!(diff.len(), 2 + 2 + 3);
    assert_eq!(diff[2], removed("print(\"how are you?\");"));
    assert_eq!(diff[3], added("print(\"comment allez-vous ?\");"));
}

#[test]
fn test_show_diff_preview_multiline() {
    let content = "#!/usr/bin/env python3\n\nprint(\"hello world\");\nprint(\"how are you?\");\nprint(\"foo\");\n\nfor i in range(1, 3):\n print(\"hello times: \", i);\n";
    let (line, diff, exact, _) = shown(
        "multiline",
        content,
        "print(\"hello world\");\nprint(\"how are you?\");\nprint(\"foo\");",
        "print(\"bonjour\");\nprint(\"comment allez-vous ?\");\nprint(\"bar\");",
    );
    assert_eq!(line, 3);
    assert!(exact);
    assert_eq!(
        diff[2..8],
        [
            removed("print(\"hello world\");"),
            removed("print(\"how are you?\");"),
            removed("print(\"foo\");"),
            added("print(\"bonjour\");"),
            added("print(\"comment allez-vous ?\");"),
            added("print(\"bar\");"),
        ]
    );
}

#[test]
fn test_show_diff_preview_two_blocks() {
    let content = "abcdefg\nhijklmn\n12345\n67890\nopqrstu\nvwxyz\n";
    let (line, diff, exact, text) = shown(
        "two_blocks",
        content,
        "abcdefg\nhijklmn\n12345\n67890\nopqrstu\nvwxyz",
        "ABCDEFG\nHIJKLMN\n12345\n67890\nOPQRSTU\nVWXYZ",
    );
    assert_eq!(line, 1);
    assert!(exact);
    assert_eq!(
        diff,
        vec![
            removed("abcdefg"),
            removed("hijklmn"),
            added("ABCDEFG"),
            added("HIJKLMN"),
            context("12345"),
            context("67890"),
            removed("opqrstu"),
            removed("vwxyz"),
            added("OPQRSTU"),
            added("VWXYZ"),
        ]
    );
    assert!(text.contains(" \x1b[48;2;218;75;80m1        \x1b[48;2;190;85;85m - \x1b[Kabcdefg\x1b[0m\n"));
    assert!(text.contains(" \x1b[48;2;45;180;103m    1    \x1b[48;2;80;150;95m + \x1b[KABCDEFG\x1b[0m\n"));
    assert!(text.contains(" \x1b[90m3   \x1b[90m3    \x1b[0m   12345\x1b[0m\n"));
}

#[test]
fn test_show_diff_preview_not_found() {
    let args = replacement(
        "not_found",
        "print(\"this does not exist\");",
        "print(\"new stuff\");",
    );
    let x = read_replacement(&args).unwrap();
    assert_eq!(compute_str_replace_diff(&x, SCRIPT), None);
    assert_eq!(
        pretty_print_command("str_replace_editor", &args, Some(SCRIPT)),
        "\x1b[31mCould not match old_string in: not_found\x1b[0m\n  old: \x1b[48;2;218;75;80mprint(\"this does not exist\");\x1b[0m\n  new: \x1b[48;2;45;180;103mprint(\"new stuff\");\x1b[0m\n"
    );
    assert_eq!(pretty_print_command("str_replace_editor", &args, None), "");
}

#[test]
fn test_pretty_print_command_write_file() {
    let args = j("{\"path\": \"new_file.txt\", \"content\": \"hello\\nworld\\nfoo\"}");
    let text = pretty_print_command("write_file", &args, None);
    assert!(text.starts_with("\n-- Code Preview: new_file.txt --\n"));
    assert!(text.contains("\x1b[48;2;45;180;103m    1    \x1b[48;2;80;150;95m + \x1b[Khello\x1b[0m\n"));
    assert!(text.contains("\x1b[48;2;45;180;103m    3    \x1b[48;2;80;150;95m + \x1b[Kfoo\x1b[0m\n"));
    assert!(text.ends_with("\n[\x1b[32m+3\x1b[0m, \x1b[31m-0\x1b[0m]\n"));
}

#[test]
fn test_pretty_print_command_write_file_empty() {
    let args = j("{\"path\": \"empty.txt\", \"content\": \"\"}");
    assert_eq!(
        pretty_print_command("write_file", &args, None),
        "\n-- Code Preview: empty.txt --\n\n[\x1b[32m+0\x1b[0m, \x1b[31m-0\x1b[0m]\n"
    );
}

#[test]
fn test_pretty_print_command_write_file_multiline() {
    let args = j("{\"path\": \"multi.py\", \"content\": \"#!/usr/bin/env python3\\n\\nprint(\\\"hello\\\")\\nprint(\\\"world\\\")\"}");
    let text = pretty_print_command("write_file", &args, None);
    assert!(text.contains("    2    \x1b[48;2;80;150;95m + \x1b[K\x1b[0m\n"));
    assert!(text.contains("    4    \x1b[48;2;80;150;95m + \x1b[Kprint(\"world\")\x1b[0m\n"));
    assert!(text.ends_with("\n[\x1b[32m+4\x1b[0m, \x1b[31m-0\x1b[0m]\n"));
}

#[test]
fn test_pretty_print_result_write_file_success() {
    let result = j("{\"success\": true, \"path\": \"output.txt\", \"bytes_written\": 128}");
    assert_eq!(
        pretty_print_result("write_file", &result, None, None),
        "[128 bytes (output.txt)]\n"
    );
}

#[test]
fn test_pretty_print_result_write_file_error() {
    let result = j("{\"success\": false, \"error\": \"Permission denied\"}");
    assert_eq!(
        pretty_print_result("write_file", &result, None, None),
        "\x1b[31mError: Permission denied\x1b[0m\n"
    );
}

#[test]
fn long_texts_keep_both_ends() {
    assert_eq!(truncate_str("abc", 10), "abc");
    assert_eq!(truncate_str("1234567890", 10), "1234567890");
    assert_eq!(truncate_str("12345678901", 10), "123...901");
    assert_eq!(truncate_str("1234567890...1234567890", 10), "123456789...234567890");
    assert_eq!(
        truncate_str("123456789012345678901234", 10),
        "1234567890...5678901234"
    );
}

#[test]
fn long_lists_keep_both_ends() {
    let v = j("{\"a\": [1, 2, 3, 4], \"b\": [1, 2], \"c\": [], \"d\": \"0123456789abcdefghijklmnopqrst\"}");
    assert_eq!(
        truncated_value(&v),
        j("{\"a\": [1, \"...\", 4], \"b\": [1, 2], \"c\": [], \"d\": \"0123456789...klmnopqrst\"}")
    );
    assert_eq!(
        truncate(&v),
        "{\"a\":[1,\"...\",4],\"b\":[1,2],\"c\":[],\"d\":\"0123456789...klmnopqrst\"}"
    );
}

#[test]
fn a_difference_keeps_the_longest_common_lines() {
    let old = strings(&["a", "b", "c", "d"]);
    let new = strings(&["b", "x", "d"]);
    assert_eq!(
        compute_diff(&old, &new),
        vec![removed("a"), context("b"), removed("c"), added("x"), context("d")]
    );
    assert_eq!(compute_diff(&old, &old).len(), 4);
    assert_eq!(compute_diff(&strings(&[]), &strings(&["z"])), vec![added("z")]);
}

#[test]
fn blanks_are_loosened_where_no_line_matches() {
    let x = Replacement {
        path: "f".to_string(),
        old_string: "let a = 1;".to_string(),
        new_string: "let a = 2;".to_string(),
    };
    let p = compute_str_replace_diff(&x, "one\nlet  a =   1;\nthree\n").unwrap();
    assert!(!p.exact);
    assert_eq!(p.line, 2);
    assert_eq!(
        p.diff,
        vec![
            context("one"),
            removed("let  a =   1;"),
            added("let a = 2;"),
            context("three"),
        ]
    );
    let found = PatternMatch::Found {
        before: "one\n".to_string(),
        matched: "let  a =   1;".to_string(),
    };
    assert_eq!(
        preview_with_match(&x, "one\nlet  a =   1;\nthree\n", &found),
        Some(p)
    );
    assert_eq!(
        preview_with_match(&x, "one\nlet  a =   1;\nthree\n", &PatternMatch::Absent),
        None
    );
}

#[test]
fn meta_characters_are_taken_literally() {
    let x = Replacement {
        path: "f".to_string(),
        old_string: "f(a.b)* [c]".to_string(),
        new_string: "g".to_string(),
    };
    assert!(compute_str_replace_diff(&x, "f(aXb)* [c]\n").is_none());
    let p = compute_str_replace_diff(&x, "  f(a.b)*[c] \n").unwrap();
    assert_eq!(p.diff[0], removed("f(a.b)*[c]"));
    assert_eq!(p.line, 1);
}

#[test]
fn a_replacement_needs_a_change() {
    assert!(read_replacement(&replacement("p", "same", "same")).is_none());
    assert!(read_replacement(&j("{\"path\": \"p\", \"old_string\": \"a\"}")).is_none());
}

#[test]
fn commands_are_shown_on_one_line() {
    assert_eq!(
        pretty_print_command("read_file", &j("{\"path\": \"a.rs\"}"), None),
        "-- Read: a.rs\n"
    );
    assert_eq!(
        pretty_print_command("execute_bash", &j("{\"command\": \"ls\"}"), None),
        "-- Command: ls\n"
    );
    assert_eq!(
        pretty_print_command("grep_search", &j("{\"query\": \"q\", \"path\": \"src\"}"), None),
        "-- Grep: q (in src)\n"
    );
    assert_eq!(
        pretty_print_command("grep_search", &j("{\"query\": \"q\"}"), None),
        "-- Grep: q\n"
    );
    assert_eq!(
        pretty_print_command("list_directory", &j("{\"path\": \".\"}"), None),
        "-- List: .\n"
    );
    assert_eq!(
        pretty_print_command("fetch_web", &j("{\"url\": \"https://x\"}"), None),
        "-- Fetch: https://x\n"
    );
    assert_eq!(pretty_print_command("calc", &j("{}"), None), "");
}

#[test]
fn results_have_a_form_per_tool() {
    assert_eq!(
        pretty_print_result(
            "read_file",
            &j("{\"path\": \"a\", \"content\": \"one\\ntwo\\nthree\\n\", \"start_line\": 1, \"end_line\": 3, \"total_lines\": 9}"),
            None,
            None
        ),
        "[14 bytes, L1-L3 (file total: 9 lines) (a)] onetwothre ... netwothree\n"
    );
    assert_eq!(
        pretty_print_result(
            "grep_search",
            &j("{\"matches\": [{\"path\": \"a\", \"line\": 3, \"text\": \"t\"}], \"total_matches\": 1}"),
            None,
            None
        ),
        " - a:3:t\n[1 match]\n"
    );
    assert_eq!(
        pretty_print_result(
            "list_directory",
            &j("{\"entries\": [{\"name\": \"d\", \"type\": \"directory\"}, {\"name\": \"l\", \"type\": \"symlink\"}, {\"name\": \"f\"}]}"),
            None,
            None
        ),
        " - d/\n - l@\n - f\n[3 items]\n"
    );
    assert_eq!(
        pretty_print_result(
            "execute_bash",
            &j("{\"exit_code\": 2, \"stdout\": \"a\\nb\", \"stderr\": \"e\\n\"}"),
            None,
            None
        ),
        "\x1b[90mstdout:\x1b[0m\na\nb\n\n\x1b[90mstderr:\x1b[0m\ne\n[exit \x1b[31m2\x1b[0m]\n"
    );
    assert_eq!(
        pretty_print_result("fetch_web", &j("{\"url\": \"u\", \"content\": \"x\"}"), None, None),
        "[1 bytes (u)] x ... x\n"
    );
    assert_eq!(
        pretty_print_result("other", &j("{\"b\": 1, \"a\": null}"), None, None),
        "\x1b[90mResult:\x1b[0m {\"a\":null,\"b\":1}\n"
    );
    assert_eq!(
        pretty_print_result("read_file", &j("[1]"), None, None),
        "\x1b[90mResult:\x1b[0m [1]\n"
    );
}

#[test]
fn failures_are_shown_with_their_reason() {
    let failed = j("{\"error\": \"one\\ntwo\"}");
    for name in ["read_file", "write_file", "str_replace_editor", "grep_search", "list_directory"] {
        assert_eq!(
            pretty_print_result(name, &failed, None, None),
            "\x1b[31mError: one two\x1b[0m\n"
        );
    }
    for name in ["execute_bash", "fetch_web"] {
        assert_eq!(
            pretty_print_result(name, &failed, None, None),
            "\x1b[31mError: one\ntwo\x1b[0m\n"
        );
    }
    assert_eq!(
        pretty_print_result("read_file", &j("{\"status\": \"error\", \"message\": \"m\"}"), None, None),
        "\x1b[31mError: m\x1b[0m\n"
    );
}

#[test]
fn a_written_file_is_shown_by_its_ends() {
    let result = j("{\"path\": \"p\", \"bytes_written\": 26}");
    let args = j("{\"path\": \"p\", \"content\": \"abcdefghijklm\\r\\nnopqrstuvwx\\n\"}");
    assert_eq!(
        pretty_print_result("write_file", &result, Some(&args), None),
        "[26 bytes (p)] abcdefghij ... opqrstuvwx\n"
    );
}

#[test]
fn a_replacement_names_its_lines() {
    let args = j("{\"new_string\": \"b\\nc\"}");
    assert_eq!(compute_replace_lines(&args, "a\nb\nc\nd\n"), Some((2, 3)));
    assert_eq!(compute_replace_lines(&args, "nothing"), None);
    assert_eq!(compute_replace_lines(&j("{}"), "a"), None);
    let result = j("{\"path\": \"p\", \"match_type\": \"fuzzy\"}");
    assert_eq!(
        pretty_print_result("str_replace_editor", &result, None, Some((2, 3))),
        "[L2-L3: [\x1b[31mfuzzy\x1b[0m] (p)]\n"
    );
    assert_eq!(
        pretty_print_result("str_replace_editor", &j("{}"), None, None),
        "[:  (?)]\n"
    );
}
