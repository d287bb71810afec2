//! Tables of query results, and calls that pass without the user.

use always_goofy_things::json_model::Json;
use always_goofy_things::kb::{csv_join, rows_to_csv, DbValue};
use always_goofy_things::pretty_data::{
    format_csv, format_table, parse_csv_line, parse_csv_rows, pretty_print_data_command,
    pretty_print_data_result,
};
use always_goofy_things::pretty_kb::{pretty_print_kb_command, pretty_print_kb_result};
use always_goofy_things::reflex::auto_confirm;
use always_goofy_things::reflex_literal::{
    basic_read_path, head_tail_read_path, is_exact_matched_command, is_safe_grep_query,
    is_safe_subpath, is_safe_url, is_shallow_matched_command,
};
use always_goofy_things::reflex_literal_filter;

fn json_of(v: serde_json::Value) -> Json {
    match v {
        serde_json::Value::Null => Json::Null,
        serde_json::Value::Bool(b) => Json::Bool(b),
        serde_json::Value::Number(n) => match (n.as_u64(), n.as_i64()) {
            (Some(u), _) => Json::Unsigned(u),
            (None, Some(i)) => Json::Signed(i),
            (None, None) => Json::Real(n.to_string()),
        },
        serde_json::Value::String(s) => Json::Str(s),
        serde_json::Value::Array(a) => Json::Array(a.into_iter().map(json_of).collect()),
        serde_json::Value::Object(m) => {
            Json::Object(m.into_iter().map(|(k, x)| (k, json_of(x))).collect())
        }
    }
}

fn j(text: &str) -> Json {
    json_of(serde_json::from_str(text).unwrap())
}

fn strings(list: &[&str]) -> Vec<String> {
    list.iter().map(|s| s.to_string()).collect()
}

#[test]
fn csv_lines_are_split_at_commas_outside_quotes() {
    assert_eq!(parse_csv_line("a,b,,c"), strings(&["a", "b", "", "c"]));
    assert_eq!(parse_csv_line("\"x, y\",z"), strings(&["x, y", "z"]));
    assert_eq!(parse_csv_line("\"say \"\"hi\"\"\",2"), strings(&["say \"hi\"", "2"]));
    assert_eq!(parse_csv_line(""), strings(&[""]));
    assert_eq!(parse_csv_line("a\"b\"c"), strings(&["abc"]));
    assert_eq!(parse_csv_line("\"open"), strings(&["open"]));
}

#[test]
fn csv_rows_keep_line_feeds_in_quotes() {
    assert_eq!(
        parse_csv_rows("h1,h2\n\"a\nb\",c\nlast"),
        vec![strings(&["h1", "h2"]), strings(&["a\nb", "c"]), strings(&["last"])]
    );
    assert_eq!(parse_csv_rows("one\n"), vec![strings(&["one"])]);
    assert_eq!(parse_csv_rows(""), Vec::<Vec<String>>::new());
}

#[test]
fn a_record_reads_back_whatever_it_holds() {
    let fields = strings(&["plain", "a,b", "say \"x\"", "two\nlines", "", "\r", "\"", "\"\"\","]);
    assert_eq!(parse_csv_line(&csv_join(&fields)), fields);
    assert_eq!(csv_join(&strings(&["a", "b,c", "d\"e"])), "a,\"b,c\",\"d\"\"e\"");
}

#[test]
fn a_table_reads_back_whatever_it_holds() {
    let rows = vec![
        vec![DbValue::Whole(-3), DbValue::Text("x\n\"y\",".to_string())],
        vec![
            DbValue::Real { shown: "1.5".to_string(), json: Some("1.5".to_string()) },
            DbValue::Blob(12),
        ],
        vec![DbValue::Null, DbValue::Text("".to_string())],
    ];
    let csv = rows_to_csv(&strings(&["n", "t"]), &rows);
    assert_eq!(csv, "n,t\n-3,\"x\n\"\"y\"\",\"\n1.5,<blob 12 bytes>\n,\n");
    assert_eq!(
        parse_csv_rows(&csv),
        vec![
            strings(&["n", "t"]),
            strings(&["-3", "x\n\"y\","]),
            strings(&["1.5", "<blob 12 bytes>"]),
            strings(&["", ""]),
        ]
    );
}

#[test]
fn a_query_is_shown_before_it_runs() {
    assert_eq!(
        pretty_print_data_command(&j("{\"query\": \"SELECT 1\"}")),
        "-- Query: \x1b[93mSELECT 1\x1b[0m\n"
    );
    assert_eq!(pretty_print_data_command(&j("{}")), "");
}

const BG: &str = "\x1b[48;2;85;85;90m";
const OFF: &str = "\x1b[0m";

#[test]
fn a_small_table_is_shown_whole() {
    let text = format_csv("id,name\n1,ann\n22,a very long name indeed\n");
    assert_eq!(
        text,
        format!(
            "{BG}id | name            {OFF}\n{BG}---+-----------------{OFF}\n{BG}1  | ann             {OFF}\n{BG}22 | a very long name{OFF}\n\x1b[90m[2 cols x 2 rows]{OFF}\n"
        )
    );
}

#[test]
fn many_rows_and_columns_leave_a_gap() {
    let mut body = String::from("a,b,c,d,e,f,g,h,i");
    for n in 0..20 {
        body.push_str(&format!("\n{n},1,1,1,1,1,1,1,1"));
    }
    let text = format_csv(&format!("{body}\n[DB_TRUNCATED] more "));
    assert!(text.starts_with(&format!("{BG}\x1b[90m  ... 1 column omitted ...{OFF}\n")));
    assert!(text.contains(&format!("{BG}\x1b[90m  ... 6 rows omitted ...{OFF}\n")));
    assert!(text.contains(&format!("{BG}6  | 1 | 1 | 1 | 1 | 1 | 1 | 1{OFF}\n")));
    assert!(!text.contains(&format!("{BG}7  | 1")));
    assert!(text.contains(&format!("{BG}13 | 1")));
    assert!(text.ends_with(&format!("\x1b[90m[9 cols x 20 rows]{OFF} -- [DB_TRUNCATED] more\n")));
}

#[test]
fn a_short_row_and_a_long_row_are_shown() {
    let text = format_table(
        &strings(&["a", "b"]),
        &vec![strings(&["1"]), strings(&["1", "2", "3"])],
        &None,
    );
    assert_eq!(
        text,
        format!("{BG}a | b{OFF}\n{BG}--+--{OFF}\n{BG}1{OFF}\n{BG}1 | 2 | {OFF}\n\x1b[90m[2 cols x 2 rows]{OFF}\n")
    );
}

#[test]
fn results_without_rows_are_shown_as_they_are() {
    assert_eq!(
        pretty_print_data_result(&j("{\"content\": \"[DB_TRUNCATED] x\"}")),
        "\x1b[90m[DB_TRUNCATED] x\x1b[0m\n"
    );
    assert_eq!(pretty_print_data_result(&j("{\"content\": \"  \"}")), "");
    assert_eq!(
        pretty_print_data_result(&j("{\"x\": 1}")),
        "\x1b[90mResult:\x1b[0m {\"x\":1}\n"
    );
    assert_eq!(pretty_print_data_result(&j("7")), "\x1b[90mResult:\x1b[0m 7\n");
}

#[test]
fn failed_queries_are_explained_on_one_line() {
    assert_eq!(
        pretty_print_data_result(&j("{\"error\": \"no\\r\\nsuch\\ntable\"}")),
        "\x1b[31mError: no such table\x1b[0m\n"
    );
    assert_eq!(
        pretty_print_data_result(&j("{\"status\": \"error\", \"message\": \"down\"}")),
        "\x1b[31mError: down\x1b[0m\n"
    );
    assert_eq!(
        pretty_print_data_result(&j("{\"message\": \"up\", \"status\": \"ok\"}")),
        "\x1b[90mResult:\x1b[0m {\"message\":\"up\",\"status\":\"ok\"}\n"
    );
}

#[test]
fn kb_calls_are_shown_on_one_line() {
    assert_eq!(
        pretty_print_kb_command("data_kb_search", &j("{\"query\": \"q\"}")),
        "-- KB Query: \x1b[93mq\x1b[0m\n"
    );
    assert_eq!(
        pretty_print_kb_command("data_kb_schema", &j("{}")),
        "-- KB Schema: \x1b[93m(all tables)\x1b[0m\n"
    );
    assert_eq!(
        pretty_print_kb_command(
            "data_kb_insert",
            &j("{\"document_id\": \"d\", \"entities\": [{}, {}], \"claims\": [{}], \"events\": 3}")
        ),
        "-- KB Insert: document \x1b[93md\x1b[0m (3 items)\n"
    );
    assert_eq!(
        pretty_print_kb_command("data_kb_update", &j("{\"target_type\": \"claims\"}")),
        "-- KB Update: claims ?\n"
    );
    assert_eq!(pretty_print_kb_command("x", &j("{}")), "");
}

#[test]
fn kb_results_are_compact() {
    assert_eq!(
        pretty_print_kb_result(&j("{\"content\": \"a\\nb\\nc\\nd\\ne\\nf\\n\"}")),
        "KB Result: [6 lines]\na\nb\nc\nd\ne\n\x1b[90m... (1 more line)\x1b[0m\n"
    );
    assert_eq!(
        pretty_print_kb_result(&j("{\"status\": \"ok\", \"total\": 2, \"version\": -1}")),
        "\x1b[32mKB status: ok\x1b[0m (2 items) (annotation version -1)\n"
    );
    assert_eq!(
        pretty_print_kb_result(&j("{\"status\": \"ok\", \"tables\": [{\"name\": \"t\", \"type\": \"view\", \"approx_rows\": 4}]}")),
        "\x1b[32mKB status: ok\x1b[0m\n  1 table(s) / view(s)\n  - t (view, ~4 rows)\n"
    );
    assert_eq!(
        pretty_print_kb_result(&j("{\"status\": \"ok\", \"table\": \"t\", \"samples\": [{}, {}]}")),
        "\x1b[32mKB status: ok\x1b[0m\n  2 sample row(s)\n"
    );
    assert_eq!(pretty_print_kb_result(&j("{\"z\": 1}")), "KB Result: {\"z\":1}\n");
}

#[test]
fn addresses_of_known_documentation_pass() {
    assert!(is_safe_url("https://docs.rs/anyhow/latest"));
    assert!(is_safe_url("https://docs.rs/serde_json/"));
    assert!(!is_safe_url("https://docs.rs/anyhow/latest/anyhow"));
    assert!(!is_safe_url("https://docs.rs/anyhow/.."));
    assert!(!is_safe_url("https://docs.rs/unknown/latest"));
    assert!(!is_safe_url("http://docs.rs/anyhow/latest"));
}

#[test]
fn plain_queries_pass() {
    assert!(is_safe_grep_query("fn main"));
    assert!(is_safe_grep_query("fn_main-2"));
    assert!(!is_safe_grep_query("^fn_main-2$"));
    assert!(!is_safe_grep_query("^fn"));
    assert!(!is_safe_grep_query("fn$"));
    assert!(!is_safe_grep_query("^$"));
    assert!(!is_safe_grep_query(""));
    assert!(!is_safe_grep_query("a|b"));
    assert!(reflex_literal_filter::is_safe_grep_query("fn main"));
    assert!(!reflex_literal_filter::is_safe_grep_query("^fn"));
    assert!(!reflex_literal_filter::is_safe_grep_query(""));
}

#[test]
fn paths_below_the_directory_pass() {
    for p in [".", "./", "src/main.rs", "./a-b_c/d.txt", ".hidden"] {
        assert!(is_safe_subpath(p), "{p}");
    }
    for p in ["", "/etc/passwd", "a/../b", "..", "a//b", "a/", "a b", "./", "~/x"] {
        assert_eq!(is_safe_subpath(p), p == "./", "{p}");
    }
    assert!(reflex_literal_filter::is_safe_subpath("src"));
}

#[test]
fn paths_with_other_characters_never_pass() {
    for p in [
        "abc\\\\(",
        "src/../../etc/passwd\\\\(",
        "a/\\\\(",
        "\u{e9}\u{e9}\\\\(",
        "./abc\\\\(",
        "caf\u{e9}",
    ] {
        assert!(!is_safe_subpath(p), "{p}");
        let args = Json::object().with("path", Json::text(p));
        assert_eq!(auto_confirm("read_file", &args), (false, None));
    }
    assert!(!is_shallow_matched_command("cat abc; rm -rf x\\\\("));
    assert!(!is_shallow_matched_command("head -n 3 abc; rm x\\\\("));
    assert!(!reflex_literal_filter::is_shallow_matched_command("cat abc; rm -rf x\\\\("));
}

#[test]
fn few_commands_pass_as_they_are() {
    assert!(is_exact_matched_command("cargo check"));
    assert!(is_exact_matched_command("cargo fmt 2>&1  "));
    assert!(is_exact_matched_command("cargo clippy > /dev/null 2>&1"));
    assert!(!is_exact_matched_command("cargo run"));
    assert!(!is_exact_matched_command("cargo check 2>&1 2>&1"));
}

#[test]
fn reading_commands_pass() {
    for c in [
        "cat src/main.rs",
        "wc -l a.txt | sort -n | uniq",
        "cat a | wc -l 2>&1",
        "head -n 10 a.txt",
        "head -5 a.txt",
        "head -n 10 a.txt | tail -n 3",
        "head -10 a.txt | tail -3",
        "tail -n 4 ./b",
        "tail -4 b",
    ] {
        assert!(is_shallow_matched_command(c), "{c}");
    }
    for c in [
        "cat",
        "cat ",
        "cat ../x",
        "head -n ten a",
        "head -n 10",
        "head -n 10 a | tail -n x",
        "rm a",
        "cat a; rm a",
    ] {
        assert!(!is_shallow_matched_command(c), "{c}");
    }
    assert!(!reflex_literal_filter::is_shallow_matched_command("head -5 a.txt"));
    assert!(reflex_literal_filter::is_shallow_matched_command("head -n 5 a.txt"));
    assert_eq!(basic_read_path("stat  a "), Some("a"));
    assert_eq!(head_tail_read_path("tail -3 x", true), Some("x"));
    assert_eq!(head_tail_read_path("tail -3 x", false), None);
}

#[test]
fn calls_pass_by_their_arguments_alone() {
    let pass = |name: &str, args: &str| {
        let a = j(args);
        auto_confirm(name, &a)
    };
    assert_eq!(
        pass("read_file", "{\"path\": \"src/a.rs\"}"),
        (true, Some("A reasonably peaceful path: src/a.rs".to_string()))
    );
    assert_eq!(pass("write_file", "{\"path\": \"/a\"}"), (false, None));
    assert_eq!(pass("list_directory", "{}"), (false, None));
    assert_eq!(pass("str_replace_editor", "[]"), (false, None));
    assert_eq!(
        pass("grep_search", "{\"query\": \"main\", \"path\": \"src\"}"),
        (
            true,
            Some("A reasonably quiet query along a peaceful path (path: 'src', query: 'main')".to_string())
        )
    );
    assert_eq!(
        pass("grep_search", "{\"query\": \"main\"}"),
        (true, Some("A reasonably quiet query: main".to_string()))
    );
    assert_eq!(pass("grep_search", "{\"query\": \"a*\"}"), (false, None));
    assert_eq!(
        pass("execute_bash", "{\"command\": \"cargo check\"}"),
        (true, Some("A reasonably polite command: cargo check".to_string()))
    );
    assert_eq!(
        pass("execute_bash", "{\"command\": \"cat a\"}"),
        (true, Some("A reasonably familiar pattern: cat a".to_string()))
    );
    assert_eq!(pass("execute_bash", "{\"command\": \"rm -rf .\"}"), (false, None));
    assert_eq!(pass("fetch_web", "{\"url\": \"https://docs.rs/anyhow/\"}"), (false, None));
}
