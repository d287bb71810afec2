//! What is shown of the knowledge base tools: a line before the call and a
//! compact result.

use vstd::prelude::*;
use vstd::string::*;

use crate::json_model::{group_json, json_seq, Json, JsonView};
use crate::json_text::{json_written, print_json};
use crate::kb_write::{items_of, kind_at, listed_items};
use crate::pretty::fed_lines;
use crate::startup::{C_GRAY, C_GREEN, C_YELLOW, RESET};
use crate::text::{
    decimal, decimal_int, i64_text, lines, lines_of, str_eq, str_or, text_or, u128_text, u64_text,
    usize_text, views,
};

verus! {

broadcast use group_json;

/// Lines of a query result that are shown.
pub const SHOWN_LINES: usize = 5;

/// Tables of a schema result that are shown.
pub const SHOWN_TABLES: usize = 10;

/// An ending for any number but one.
pub open spec fn plural(n: nat) -> Seq<char> {
    if n == 1 {
        ""@
    } else {
        "s"@
    }
}

fn plural_ending(n: u128) -> (r: &'static str)
    ensures
        r@ == plural(n as nat),
{
    if n == 1 {
        ""
    } else {
        "s"
    }
}

/// The line before the call of a knowledge base tool.
pub open spec fn kb_command_text(name: Seq<char>, args: JsonView) -> Seq<char> {
    if name == "data_kb_search"@ {
        "-- KB Query: "@ + C_YELLOW@ + text_or(args.str_at("query"@), ""@) + RESET@ + "\n"@
    } else if name == "data_kb_schema"@ {
        "-- KB Schema: "@ + C_YELLOW@ + text_or(args.str_at("table"@), "(all tables)"@) + RESET@
            + "\n"@
    } else if name == "data_kb_insert"@ {
        let n = items_of(args).len();
        "-- KB Insert: document "@ + C_YELLOW@ + text_or(args.str_at("document_id"@), "?"@) + RESET@
            + " ("@ + decimal(n) + " item"@ + plural(n) + ")\n"@
    } else if name == "data_kb_update"@ {
        "-- KB Update: "@ + text_or(args.str_at("target_type"@), "?"@) + " "@ + text_or(
            args.str_at("target_id"@),
            "?"@,
        ) + "\n"@
    } else {
        Seq::empty()
    }
}

fn count_items(args: &Json) -> (r: u128)
    ensures
        r == items_of(args@).len(),
{
    let mut total: u128 = 0;
    let mut k: usize = 0;
    proof {
        assert(listed_items(args@, 0).len() == 0);
    }
    while k < 6
        invariant
            k <= 6,
            total <= k * (usize::MAX as u128),
            total == listed_items(args@, k as int).len(),
        decreases 6 - k,
    {
        let kind = kind_at(k);
        match args.array_at(kind.name()) {
            Some(a) => {
                total = total + a.len() as u128;
            },
            None => {},
        }
        k = k + 1;
    }
    total
}

/// Shows the call of a knowledge base tool before it runs.
pub fn pretty_print_kb_command(name: &str, args: &Json) -> (r: String)
    ensures
        r@ == kb_command_text(name@, args@),
{
    if str_eq(name, "data_kb_search") {
        let mut s = String::from_str("-- KB Query: ");
        s.append(C_YELLOW);
        s.append(str_or(args.str_at("query"), ""));
        s.append(RESET);
        s.append("\n");
        s
    } else if str_eq(name, "data_kb_schema") {
        let mut s = String::from_str("-- KB Schema: ");
        s.append(C_YELLOW);
        s.append(str_or(args.str_at("table"), "(all tables)"));
        s.append(RESET);
        s.append("\n");
        s
    } else if str_eq(name, "data_kb_insert") {
        let n: u128 = count_items(args);
        let d = u128_text(n);
        let mut s = String::from_str("-- KB Insert: document ");
        s.append(C_YELLOW);
        s.append(str_or(args.str_at("document_id"), "?"));
        s.append(RESET);
        s.append(" (");
        s.append(d.as_str());
        s.append(" item");
        s.append(plural_ending(n));
        s.append(")\n");
        s
    } else if str_eq(name, "data_kb_update") {
        let mut s = String::from_str("-- KB Update: ");
        s.append(str_or(args.str_at("target_type"), "?"));
        s.append(" ");
        s.append(str_or(args.str_at("target_id"), "?"));
        s.append("\n");
        s
    } else {
        let s = String::new();
        proof {
            assert(s@ =~= Seq::<char>::empty());
        }
        s
    }
}

/// A query result: the number of its lines, the first of them, and how many
/// more there are.
pub open spec fn query_result(content: Seq<char>) -> Seq<char> {
    let all = lines_of(content);
    let n = all.len();
    "KB Result: ["@ + decimal(n) + " line"@ + plural(n) + "]\n"@ + fed_lines(
        all,
        if n <= SHOWN_LINES {
            n as int
        } else {
            SHOWN_LINES as int
        },
    ) + (if n > SHOWN_LINES {
        C_GRAY@ + "... ("@ + decimal((n - SHOWN_LINES) as nat) + " more line"@ + plural(
            (n - SHOWN_LINES) as nat,
        ) + ")"@ + RESET@ + "\n"@
    } else {
        Seq::empty()
    })
}

fn show_query_result(content: &str) -> (r: String)
    ensures
        r@ == query_result(content@),
{
    let list = lines(content);
    let ghost all = views(list@);
    let n: usize = list.len();
    let shown: usize = if n <= SHOWN_LINES {
        n
    } else {
        SHOWN_LINES
    };
    let mut body = String::new();
    let mut i: usize = 0;
    proof {
        assert(body@ =~= fed_lines(all, 0));
    }
    while i < shown
        invariant
            i <= shown <= list@.len(),
            all == views(list@),
            body@ == fed_lines(all, i as int),
        decreases shown - i,
    {
        body.append(list[i].as_str());
        body.append("\n");
        i = i + 1;
    }
    let d = usize_text(n);
    let mut s = String::from_str("KB Result: [");
    s.append(d.as_str());
    s.append(" line");
    s.append(plural_ending(n as u128));
    s.append("]\n");
    s.append(body.as_str());
    if n > SHOWN_LINES {
        let more: usize = n - SHOWN_LINES;
        let d = usize_text(more);
        let mut t = String::from_str(C_GRAY);
        t.append("... (");
        t.append(d.as_str());
        t.append(" more line");
        t.append(plural_ending(more as u128));
        t.append(")");
        t.append(RESET);
        t.append("\n");
        s.append(t.as_str());
    } else {
        proof {
            assert(s@ + Seq::<char>::empty() =~= s@);
        }
    }
    s
}

/// The lines of the first `n` tables.
pub open spec fn table_lines(a: Seq<JsonView>, n: int) -> Seq<char>
    decreases n,
{
    if n <= 0 {
        Seq::empty()
    } else {
        let rows = match a[n - 1].u64_at("approx_rows"@) {
            Some(k) => k as nat,
            None => 0nat,
        };
        table_lines(a, n - 1) + ("  - "@ + text_or(a[n - 1].str_at("name"@), "?"@) + " ("@
            + text_or(a[n - 1].str_at("type"@), ""@) + ", ~"@ + decimal(rows) + " rows)\n"@)
    }
}

/// The number of tables and the first of them.
pub open spec fn tables_text(j: JsonView) -> Seq<char> {
    match j.array_at("tables"@) {
        Some(a) => "  "@ + decimal(a.len()) + " table(s) / view(s)\n"@ + table_lines(
            a,
            if a.len() <= SHOWN_TABLES {
                a.len() as int
            } else {
                SHOWN_TABLES as int
            },
        ),
        None => Seq::empty(),
    }
}

/// The number of sample rows of a table.
pub open spec fn samples_text(j: JsonView) -> Seq<char> {
    match (j.str_at("table"@), j.array_at("samples"@)) {
        (Some(_), Some(a)) => "  "@ + decimal(a.len()) + " sample row(s)\n"@,
        _ => Seq::empty(),
    }
}

/// The status line of a result.
pub open spec fn status_text(status: Seq<char>, j: JsonView) -> Seq<char> {
    C_GREEN@ + "KB status: "@ + status + RESET@ + (match j.u64_at("total"@) {
        Some(n) => " ("@ + decimal(n as nat) + " items)"@,
        None => Seq::empty(),
    }) + (match j.i64_at("version"@) {
        Some(v) => " (annotation version "@ + decimal_int(v) + ")"@,
        None => Seq::empty(),
    }) + "\n"@
}

/// The result of a knowledge base tool.
pub open spec fn kb_result_text(j: JsonView) -> Seq<char> {
    match j.str_at("content"@) {
        Some(content) => query_result(content),
        None => match j.str_at("status"@) {
            Some(status) => status_text(status, j) + tables_text(j) + samples_text(j),
            None => "KB Result: "@ + json_written(j) + "\n"@,
        },
    }
}

fn empty() -> (r: String)
    ensures
        r@ == Seq::<char>::empty(),
{
    let s = String::new();
    proof {
        assert(s@ =~= Seq::<char>::empty());
    }
    s
}

fn show_status(status: &str, j: &Json) -> (r: String)
    ensures
        r@ == status_text(status@, j@),
{
    let items = match j.u64_at("total") {
        Some(n) => {
            let d = u64_text(n);
            let mut t = String::from_str(" (");
            t.append(d.as_str());
            t.append(" items)");
            t
        },
        None => empty(),
    };
    let version = match j.i64_at("version") {
        Some(v) => {
            let d = i64_text(v);
            let mut t = String::from_str(" (annotation version ");
            t.append(d.as_str());
            t.append(")");
            t
        },
        None => empty(),
    };
    let mut s = String::from_str(C_GREEN);
    s.append("KB status: ");
    s.append(status);
    s.append(RESET);
    s.append(items.as_str());
    s.append(version.as_str());
    s.append("\n");
    s
}

fn show_tables(j: &Json) -> (r: String)
    ensures
        r@ == tables_text(j@),
{
    match j.array_at("tables") {
        Some(v) => {
            let ghost a = json_seq(v@);
            let n: usize = v.len();
            let shown: usize = if n <= SHOWN_TABLES {
                n
            } else {
                SHOWN_TABLES
            };
            let mut body = empty();
            let mut i: usize = 0;
            while i < shown
                invariant
                    i <= shown <= v@.len(),
                    a == json_seq(v@),
                    body@ == table_lines(a, i as int),
                decreases shown - i,
            {
                let t = &v[i];
                proof {
                    assert(a[i as int] == t@);
                }
                let rows: u64 = match t.u64_at("approx_rows") {
                    Some(k) => k,
                    None => 0,
                };
                let d = u64_text(rows);
                let mut line = String::from_str("  - ");
                line.append(str_or(t.str_at("name"), "?"));
                line.append(" (");
                line.append(str_or(t.str_at("type"), ""));
                line.append(", ~");
                line.append(d.as_str());
                line.append(" rows)\n");
                body.append(line.as_str());
                i = i + 1;
            }
            let d = usize_text(n);
            let mut s = String::from_str("  ");
            s.append(d.as_str());
            s.append(" table(s) / view(s)\n");
            s.append(body.as_str());
            s
        },
        None => empty(),
    }
}

fn show_samples(j: &Json) -> (r: String)
    ensures
        r@ == samples_text(j@),
{
    match (j.str_at("table"), j.array_at("samples")) {
        (Some(_), Some(v)) => {
            let d = usize_text(v.len());
            let mut s = String::from_str("  ");
            s.append(d.as_str());
            s.append(" sample row(s)\n");
            s
        },
        _ => empty(),
    }
}

/// Shows the result of a knowledge base tool.
pub fn pretty_print_kb_result(result: &Json) -> (r: String)
    ensures
        r@ == kb_result_text(result@),
{
    match result.str_at("content") {
        Some(content) => show_query_result(content),
        None => match result.str_at("status") {
            Some(status) => {
                let mut s = show_status(status, result);
                let tables = show_tables(result);
                s.append(tables.as_str());
                let samples = show_samples(result);
                s.append(samples.as_str());
                s
            },
            None => {
                let t = print_json(result);
                let mut s = String::from_str("KB Result: ");
                s.append(t.as_str());
                s.append("\n");
                s
            },
        },
    }
}

} // verus!
