//! What is shown of database queries: the query before it runs, and its CSV
//! result as a table with aligned columns.

use vstd::prelude::*;
use vstd::string::*;

use crate::json_model::{group_json, Json, JsonView};
use crate::kb::{
    csv_field, csv_record, csv_table, needs_quotes, quoted, shown_row, DbValue,
};
use crate::pretty::{
    ending, failure_reason, failure_text, find_failure, flat, raw_result, show_failure, show_raw,
};
use crate::startup::{BG_GRAY, C_GRAY, C_YELLOW, RESET};
use crate::text::{
    byte_len, chars_of, decimal, first_chars, join, join_of, lemma_first_from, lemma_views_push,
    occurs_at, opt_view, pad_right, padded, repeat_char, run_of, split_first, split_from,
    split_once, take_chars, trim, trimmed, usize_text, utf8_len, views,
};

verus! {

broadcast use group_json;

/// Characters of a column that are shown at most.
pub const MAX_COL_WIDTH: usize = 16;

/// Columns that are shown at most.
pub const MAX_COLS: usize = 8;

/// Rows that are shown without a gap.
pub const MAX_ROWS: usize = 16;

/// Rows that are shown before and after a gap.
pub const HEAD_TAIL_ROWS: usize = 7;

/// The query of a tool call; nothing where it has none.
pub open spec fn query_line(args: JsonView) -> Seq<char> {
    match args.str_at("query"@) {
        Some(q) => "-- Query: "@ + C_YELLOW@ + q + RESET@ + "\n"@,
        None => Seq::empty(),
    }
}

/// Shows the query that is about to run.
pub fn pretty_print_data_command(args: &Json) -> (r: String)
    ensures
        r@ == query_line(args@),
{
    match args.str_at("query") {
        Some(q) => {
            let mut s = String::from_str("-- Query: ");
            s.append(C_YELLOW);
            s.append(q);
            s.append(RESET);
            s.append("\n");
            s
        },
        None => {
            let s = String::new();
            proof {
                assert(s@ =~= Seq::<char>::empty());
            }
            s
        },
    }
}

// ---------------------------------------------------------------------------
// Reading CSV
// ---------------------------------------------------------------------------

/// The fields of a record from position `i` on, where `current` is the field
/// so far and `inside` says whether it is in quotes.
pub open spec fn fields_from(s: Seq<char>, i: int, current: Seq<char>, inside: bool) -> Seq<
    Seq<char>,
>
    decreases s.len() - i,
{
    if i < 0 || i >= s.len() {
        seq![current]
    } else if inside {
        if s[i] == '"' {
            if i + 1 < s.len() && s[i + 1] == '"' {
                fields_from(s, i + 2, current.push('"'), true)
            } else {
                fields_from(s, i + 1, current, false)
            }
        } else {
            fields_from(s, i + 1, current.push(s[i]), true)
        }
    } else if s[i] == '"' {
        fields_from(s, i + 1, current, true)
    } else if s[i] == ',' {
        seq![current] + fields_from(s, i + 1, Seq::empty(), false)
    } else {
        fields_from(s, i + 1, current.push(s[i]), false)
    }
}

/// The fields of a record.
pub open spec fn csv_fields(s: Seq<char>) -> Seq<Seq<char>> {
    fields_from(s, 0, Seq::empty(), false)
}

/// Reads a record: fields are separated by commas, a field in quotes may hold
/// commas and doubled quotes.
pub fn parse_csv_line(line: &str) -> (r: Vec<String>)
    ensures
        views(r@) == csv_fields(line@),
        r@.len() > 0,
{
    let cs = chars_of(line);
    let n: usize = cs.len();
    let mut fields: Vec<String> = Vec::new();
    let mut current = String::new();
    let mut inside = false;
    let mut i: usize = 0;
    proof {
        assert(current@ =~= Seq::<char>::empty());
        assert(views(fields@) + csv_fields(line@) =~= csv_fields(line@));
    }
    while i < n
        invariant
            i <= n,
            n == cs@.len(),
            cs@ == line@,
            views(fields@) + fields_from(line@, i as int, current@, inside) == csv_fields(line@),
        decreases n - i,
    {
        let ch = cs[i];
        if inside {
            if ch == '"' {
                if i + 1 < n && cs[i + 1] == '"' {
                    current.push('"');
                    i = i + 1;
                } else {
                    inside = false;
                }
            } else {
                current.push(ch);
            }
        } else if ch == '"' {
            inside = true;
        } else if ch == ',' {
            let ghost before = views(fields@);
            let ghost field = current@;
            let ghost rest = fields_from(line@, i + 1, Seq::empty(), false);
            proof {
                lemma_views_push(fields@, current);
            }
            fields.push(current);
            current = String::new();
            proof {
                assert(current@ =~= Seq::<char>::empty());
                assert(before.push(field) + rest =~= before + (seq![field] + rest));
            }
        } else {
            current.push(ch);
        }
        i = i + 1;
    }
    proof {
        lemma_views_push(fields@, current);
        assert(views(fields@) + seq![current@] =~= views(fields@).push(current@));
    }
    fields.push(current);
    fields
}

/// The records of a text from position `i` on, where the record so far begins
/// at `start` and `inside` says whether its field is in quotes.
pub open spec fn records_from(s: Seq<char>, start: int, i: int, inside: bool) -> Seq<Seq<Seq<char>>>
    decreases s.len() - i,
{
    if i < 0 || i >= s.len() {
        if start < s.len() {
            seq![csv_fields(s.subrange(start, s.len() as int))]
        } else {
            Seq::empty()
        }
    } else if inside {
        if s[i] == '"' {
            if i + 1 < s.len() && s[i + 1] == '"' {
                records_from(s, start, i + 2, true)
            } else {
                records_from(s, start, i + 1, false)
            }
        } else {
            records_from(s, start, i + 1, true)
        }
    } else if s[i] == '"' {
        records_from(s, start, i + 1, true)
    } else if s[i] == '\n' {
        seq![csv_fields(s.subrange(start, i))] + records_from(s, i + 1, i + 1, false)
    } else {
        records_from(s, start, i + 1, false)
    }
}

/// The records of a text: they end at the line feeds outside quotes.
pub open spec fn csv_records(s: Seq<char>) -> Seq<Seq<Seq<char>>> {
    records_from(s, 0, 0, false)
}

/// The contents of a list of records.
pub open spec fn rows_view(v: Seq<Vec<String>>) -> Seq<Seq<Seq<char>>> {
    v.map_values(|r: Vec<String>| views(r@))
}

/// Reads the records of a text; a field in quotes may hold line feeds.
pub fn parse_csv_rows(body: &str) -> (r: Vec<Vec<String>>)
    ensures
        rows_view(r@) == csv_records(body@),
        forall|i: int| 0 <= i < r@.len() ==> (#[trigger] r@[i])@.len() > 0,
{
    let cs = chars_of(body);
    let n: usize = cs.len();
    let mut rows: Vec<Vec<String>> = Vec::new();
    let mut current = String::new();
    let mut inside = false;
    let mut i: usize = 0;
    let ghost mut start: int = 0;
    proof {
        assert(current@ =~= body@.subrange(0, 0));
        assert(rows_view(rows@) + csv_records(body@) =~= csv_records(body@));
    }
    while i < n
        invariant
            i <= n,
            n == cs@.len(),
            cs@ == body@,
            0 <= start <= i,
            current@ == body@.subrange(start, i as int),
            rows_view(rows@) + records_from(body@, start, i as int, inside) == csv_records(body@),
            forall|k: int| 0 <= k < rows@.len() ==> (#[trigger] rows@[k])@.len() > 0,
        decreases n - i,
    {
        let ch = cs[i];
        proof {
            assert(body@.subrange(start, i + 1) =~= body@.subrange(start, i as int).push(ch));
        }
        if inside {
            if ch == '"' {
                if i + 1 < n && cs[i + 1] == '"' {
                    current.push('"');
                    proof {
                        assert(body@.subrange(start, i + 2) =~= body@.subrange(start, i + 1).push(
                            body@[i + 1],
                        ));
                    }
                    i = i + 1;
                } else {
                    inside = false;
                }
            }
            current.push(ch);
        } else if ch == '"' {
            inside = true;
            current.push(ch);
        } else if ch == '\n' {
            let ghost before = rows_view(rows@);
            let ghost rest = records_from(body@, i + 1, i + 1, false);
            let row = parse_csv_line(current.as_str());
            let ghost fields = views(row@);
            let ghost old_rows = rows@;
            rows.push(row);
            current = String::new();
            proof {
                assert(rows_view(rows@) =~= before.push(fields));
                assert(before.push(fields) + rest =~= before + (seq![fields] + rest));
                start = i + 1;
                assert(current@ =~= body@.subrange(i + 1, i + 1));
            }
        } else {
            current.push(ch);
        }
        i = i + 1;
    }
    if !current.as_str().is_empty() {
        let ghost before = rows_view(rows@);
        let row = parse_csv_line(current.as_str());
        let ghost fields = views(row@);
        rows.push(row);
        proof {
            assert(rows_view(rows@) =~= before.push(fields));
            assert(before + seq![fields] =~= before.push(fields));
        }
    } else {
        proof {
            assert(rows_view(rows@) + Seq::<Seq<Seq<char>>>::empty() =~= rows_view(rows@));
        }
    }
    rows
}

proof fn lemma_some_record(s: Seq<char>, start: int, i: int, inside: bool)
    requires
        0 <= start < s.len(),
        start <= i,
    ensures
        records_from(s, start, i, inside).len() > 0,
    decreases s.len() - i,
{
    if i < s.len() {
        if inside {
            if s[i] == '"' {
                if i + 1 < s.len() && s[i + 1] == '"' {
                    lemma_some_record(s, start, i + 2, true);
                } else {
                    lemma_some_record(s, start, i + 1, false);
                }
            } else {
                lemma_some_record(s, start, i + 1, true);
            }
        } else if s[i] == '"' {
            lemma_some_record(s, start, i + 1, true);
        } else if s[i] != '\n' {
            lemma_some_record(s, start, i + 1, false);
        }
    }
}

// ---------------------------------------------------------------------------
// Tables
// ---------------------------------------------------------------------------

/// The width that a cell asks for.
pub open spec fn cell_width(c: Seq<char>) -> int {
    if utf8_len(c) <= MAX_COL_WIDTH {
        utf8_len(c) as int
    } else {
        MAX_COL_WIDTH as int
    }
}

/// The width of a column over its header and the first `n` rows.
pub open spec fn column_width(
    headers: Seq<Seq<char>>,
    rows: Seq<Seq<Seq<char>>>,
    c: int,
    n: int,
) -> int
    decreases n,
{
    if n <= 0 {
        cell_width(headers[c])
    } else {
        let w = column_width(headers, rows, c, n - 1);
        if c < rows[n - 1].len() && cell_width(rows[n - 1][c]) > w {
            cell_width(rows[n - 1][c])
        } else {
            w
        }
    }
}

/// The first columns of a row.
pub open spec fn visible<T>(row: Seq<T>) -> Seq<T> {
    if row.len() <= MAX_COLS {
        row
    } else {
        row.take(MAX_COLS as int)
    }
}

/// The widths of the columns that are shown.
pub open spec fn visible_widths(headers: Seq<Seq<char>>, rows: Seq<Seq<Seq<char>>>) -> Seq<int> {
    Seq::new(visible(headers).len(), |c: int| column_width(headers, rows, c, rows.len() as int))
}

/// A cell in its column: cut and padded to the width, empty beyond the columns
/// of the header.
pub open spec fn fitted(cells: Seq<Seq<char>>, widths: Seq<int>, i: int) -> Seq<char> {
    let w = if i < widths.len() {
        widths[i] as nat
    } else {
        0nat
    };
    padded(first_chars(cells[i], w), w)
}

/// A row of a table.
pub open spec fn table_row(cells: Seq<Seq<char>>, widths: Seq<int>) -> Seq<char> {
    BG_GRAY@ + join_of(
        Seq::new(visible(cells).len(), |i: int| fitted(visible(cells), widths, i)),
        " | "@,
    ) + RESET@ + "\n"@
}

/// The rows from `from` up to `to`.
pub open spec fn table_rows(
    rows: Seq<Seq<Seq<char>>>,
    widths: Seq<int>,
    from: int,
    to: int,
) -> Seq<char>
    decreases to - from,
{
    if from >= to {
        Seq::empty()
    } else {
        table_rows(rows, widths, from, to - 1) + table_row(rows[to - 1], widths)
    }
}

/// A line on what is left out.
pub open spec fn omitted_line(n: int, what: Seq<char>) -> Seq<char> {
    BG_GRAY@ + C_GRAY@ + "  ... "@ + decimal(n as nat) + what + ending(n, "s"@) + " omitted ..."@
        + RESET@ + "\n"@
}

/// The line below the header.
pub open spec fn rule_line(widths: Seq<int>) -> Seq<char> {
    BG_GRAY@ + join_of(widths.map_values(|w: int| run_of('-', w)), "-+-"@) + RESET@ + "\n"@
}

/// A table: a note on hidden columns, the header, the rows with a gap where
/// there are many, and the counts.
pub open spec fn table_text(
    headers: Seq<Seq<char>>,
    rows: Seq<Seq<Seq<char>>>,
    notice: Option<Seq<char>>,
) -> Seq<char> {
    let widths = visible_widths(headers, rows);
    let total = rows.len() as int;
    let cols = headers.len() as int;
    let shown = if total <= MAX_ROWS {
        table_rows(rows, widths, 0, total)
    } else {
        table_rows(rows, widths, 0, HEAD_TAIL_ROWS as int) + omitted_line(
            total - 2 * HEAD_TAIL_ROWS,
            " row"@,
        ) + table_rows(rows, widths, total - HEAD_TAIL_ROWS, total)
    };
    (if cols > MAX_COLS {
        omitted_line(cols - MAX_COLS, " column"@)
    } else {
        Seq::empty()
    }) + table_row(headers, widths) + rule_line(widths) + shown + (C_GRAY@ + "["@ + decimal(
        cols as nat,
    ) + " col"@ + ending(cols, "s"@) + " x "@ + decimal(total as nat) + " row"@ + ending(
        total,
        "s"@,
    ) + "]"@ + RESET@) + (match notice {
        Some(t) => " -- "@ + t,
        None => Seq::empty(),
    }) + "\n"@
}

fn width_of(c: &str) -> (r: usize)
    ensures
        r == cell_width(c@),
{
    let n: usize = byte_len(c);
    if n <= MAX_COL_WIDTH {
        n
    } else {
        MAX_COL_WIDTH
    }
}

/// The contents of a list of widths.
pub open spec fn widths_view(v: Seq<usize>) -> Seq<int> {
    v.map_values(|w: usize| w as int)
}

fn column_widths(headers: &Vec<String>, rows: &Vec<Vec<String>>) -> (r: Vec<usize>)
    ensures
        widths_view(r@) == visible_widths(views(headers@), rows_view(rows@)),
{
    let ghost h = views(headers@);
    let ghost all = rows_view(rows@);
    let cols: usize = if headers.len() <= MAX_COLS {
        headers.len()
    } else {
        MAX_COLS
    };
    let mut widths: Vec<usize> = Vec::new();
    let mut c: usize = 0;
    while c < cols
        invariant
            c <= cols,
            cols <= headers@.len(),
            h == views(headers@),
            all == rows_view(rows@),
            widths@.len() == c,
            forall|k: int|
                0 <= k < c ==> #[trigger] widths@[k] == column_width(h, all, k, all.len() as int),
        decreases cols - c,
    {
        let mut w: usize = width_of(headers[c].as_str());
        let mut i: usize = 0;
        while i < rows.len()
            invariant
                i <= rows@.len(),
                c < headers@.len(),
                h == views(headers@),
                all == rows_view(rows@),
                w == column_width(h, all, c as int, i as int),
            decreases rows@.len() - i,
        {
            proof {
                assert(all[i as int] == views(rows@[i as int]@));
            }
            if c < rows[i].len() {
                let x: usize = width_of(rows[i][c].as_str());
                if x > w {
                    w = x;
                }
            }
            i = i + 1;
        }
        widths.push(w);
        c = c + 1;
    }
    proof {
        assert(widths_view(widths@) =~= visible_widths(h, all));
    }
    widths
}

fn format_row(cells: &Vec<String>, widths: &Vec<usize>) -> (r: String)
    ensures
        r@ == table_row(views(cells@), widths_view(widths@)),
{
    let ghost row = views(cells@);
    let ghost ws = widths_view(widths@);
    let n: usize = if cells.len() <= MAX_COLS {
        cells.len()
    } else {
        MAX_COLS
    };
    let mut parts: Vec<String> = Vec::new();
    let mut i: usize = 0;
    while i < n
        invariant
            i <= n,
            n <= cells@.len(),
            n == visible(row).len(),
            row == views(cells@),
            ws == widths_view(widths@),
            parts@.len() == i,
            forall|k: int| 0 <= k < i ==> (#[trigger] parts@[k])@ == fitted(visible(row), ws, k),
        decreases n - i,
    {
        let w: usize = if i < widths.len() {
            widths[i]
        } else {
            0
        };
        proof {
            assert(visible(row)[i as int] == cells@[i as int]@);
        }
        let cut = take_chars(cells[i].as_str(), w);
        parts.push(pad_right(cut, w));
        i = i + 1;
    }
    proof {
        assert(views(parts@) =~= Seq::new(visible(row).len(), |k: int| fitted(visible(row), ws, k)));
    }
    let line = join(&parts, " | ");
    let mut s = String::from_str(BG_GRAY);
    s.append(line.as_str());
    s.append(RESET);
    s.append("\n");
    s
}

fn format_rows(rows: &Vec<Vec<String>>, widths: &Vec<usize>, from: usize, to: usize) -> (r: String)
    requires
        from <= to <= rows@.len(),
    ensures
        r@ == table_rows(rows_view(rows@), widths_view(widths@), from as int, to as int),
{
    let ghost all = rows_view(rows@);
    let ghost ws = widths_view(widths@);
    let mut s = String::new();
    let mut i: usize = from;
    proof {
        assert(s@ =~= table_rows(all, ws, from as int, from as int));
    }
    while i < to
        invariant
            from <= i <= to,
            to <= rows@.len(),
            all == rows_view(rows@),
            ws == widths_view(widths@),
            s@ == table_rows(all, ws, from as int, i as int),
        decreases to - i,
    {
        let line = format_row(&rows[i], widths);
        proof {
            assert(all[i as int] == views(rows@[i as int]@));
        }
        s.append(line.as_str());
        i = i + 1;
    }
    s
}

fn note_omitted(n: usize, what: &str) -> (r: String)
    ensures
        r@ == omitted_line(n as int, what@),
{
    let d = usize_text(n);
    let mut s = String::from_str(BG_GRAY);
    s.append(C_GRAY);
    s.append("  ... ");
    s.append(d.as_str());
    s.append(what);
    s.append(
        if n != 1 {
            "s"
        } else {
            ""
        },
    );
    s.append(" omitted ...");
    s.append(RESET);
    s.append("\n");
    s
}

fn format_rule(widths: &Vec<usize>) -> (r: String)
    ensures
        r@ == rule_line(widths_view(widths@)),
{
    let mut parts: Vec<String> = Vec::new();
    let mut i: usize = 0;
    while i < widths.len()
        invariant
            i <= widths@.len(),
            parts@.len() == i,
            forall|k: int| 0 <= k < i ==> (#[trigger] parts@[k])@ == run_of('-', widths@[k] as int),
        decreases widths@.len() - i,
    {
        parts.push(repeat_char('-', widths[i]));
        i = i + 1;
    }
    proof {
        assert(views(parts@) =~= widths_view(widths@).map_values(|w: int| run_of('-', w)));
    }
    let line = join(&parts, "-+-");
    let mut s = String::from_str(BG_GRAY);
    s.append(line.as_str());
    s.append(RESET);
    s.append("\n");
    s
}

/// Shows records as a table: a header and its rows, within the limits on
/// columns, rows and widths.
pub fn format_table(headers: &Vec<String>, rows: &Vec<Vec<String>>, notice: &Option<String>) -> (r:
    String)
    ensures
        r@ == table_text(views(headers@), rows_view(rows@), opt_view(*notice)),
{
    let widths = column_widths(headers, rows);
    let total: usize = rows.len();
    let cols: usize = headers.len();
    let mut s = String::new();
    if cols > MAX_COLS {
        s = note_omitted(cols - MAX_COLS, " column");
    } else {
        proof {
            assert(s@ =~= Seq::<char>::empty());
        }
    }
    let head = format_row(headers, &widths);
    s.append(head.as_str());
    let rule = format_rule(&widths);
    s.append(rule.as_str());
    let shown = if total <= MAX_ROWS {
        format_rows(rows, &widths, 0, total)
    } else {
        let mut t = format_rows(rows, &widths, 0, HEAD_TAIL_ROWS);
        let gap = note_omitted(total - 2 * HEAD_TAIL_ROWS, " row");
        t.append(gap.as_str());
        let tail = format_rows(rows, &widths, total - HEAD_TAIL_ROWS, total);
        t.append(tail.as_str());
        t
    };
    s.append(shown.as_str());
    let c = usize_text(cols);
    let n = usize_text(total);
    let mut counts = String::from_str(C_GRAY);
    counts.append("[");
    counts.append(c.as_str());
    counts.append(" col");
    counts.append(
        if cols != 1 {
            "s"
        } else {
            ""
        },
    );
    counts.append(" x ");
    counts.append(n.as_str());
    counts.append(" row");
    counts.append(
        if total != 1 {
            "s"
        } else {
            ""
        },
    );
    counts.append("]");
    counts.append(RESET);
    s.append(counts.as_str());
    match notice {
        Some(t) => {
            let mut more = String::from_str(" -- ");
            more.append(t.as_str());
            s.append(more.as_str());
        },
        None => {
            proof {
                assert(s@ + Seq::<char>::empty() =~= s@);
            }
        },
    }
    s.append("\n");
    s
}

/// The body of a result and the notice on what was cut from it.
pub open spec fn body_and_notice(content: Seq<char>) -> (Seq<char>, Option<Seq<char>>) {
    match split_first(content, "[DB_TRUNCATED]"@) {
        Some(p) => (trimmed(p.0), Some(trimmed("[DB_TRUNCATED]"@ + p.1))),
        None => (trimmed(content), None),
    }
}

/// A CSV result as a table.
pub open spec fn csv_text(content: Seq<char>) -> Seq<char> {
    let (body, notice) = body_and_notice(content);
    if body.len() == 0 {
        match notice {
            Some(t) => C_GRAY@ + t + RESET@ + "\n"@,
            None => Seq::empty(),
        }
    } else {
        table_text(csv_records(body)[0], csv_records(body).skip(1), notice)
    }
}

/// The result of a query: its table, or on one line why it failed.
pub open spec fn data_result(j: JsonView) -> Seq<char> {
    match (j.str_at("content"@), failure_reason(j)) {
        (Some(content), _) => csv_text(content),
        (None, Some(reason)) => failure_text(flat(reason)),
        (None, None) => raw_result(j),
    }
}

/// Shows a CSV result as a table.
pub fn format_csv(content: &str) -> (r: String)
    ensures
        r@ == csv_text(content@),
{
    let mut notice: Option<String> = None;
    let body = match split_once(content, "[DB_TRUNCATED]") {
        Some((before, after)) => {
            let mut t = String::from_str("[DB_TRUNCATED]");
            t.append(after);
            notice = Some(trim(t.as_str()).to_owned());
            trim(before)
        },
        None => trim(content),
    };
    if body.is_empty() {
        match notice {
            Some(t) => {
                let mut s = String::from_str(C_GRAY);
                s.append(t.as_str());
                s.append(RESET);
                s.append("\n");
                return s;
            },
            None => {
                let s = String::new();
                proof {
                    assert(s@ =~= Seq::<char>::empty());
                }
                return s;
            },
        }
    }
    let mut rows = parse_csv_rows(body);
    let ghost all = rows@;
    proof {
        lemma_some_record(body@, 0, 0, false);
        assert(rows@.len() == rows_view(rows@).len());
    }
    let headers = rows.remove(0);
    proof {
        assert(rows_view(rows@) =~= rows_view(all).skip(1));
        assert(views(headers@) == rows_view(all)[0]);
    }
    format_table(&headers, &rows, &notice)
}

/// Shows the result of a query.
pub fn pretty_print_data_result(result: &Json) -> (r: String)
    ensures
        r@ == data_result(result@),
{
    match (result.str_at("content"), find_failure(result)) {
        (Some(content), _) => format_csv(content),
        (None, Some(reason)) => show_failure(reason, true),
        (None, None) => show_raw(result),
    }
}

// ---------------------------------------------------------------------------
// Laws of CSV
// ---------------------------------------------------------------------------

/// A text from position `k` on with its quotes doubled.
pub open spec fn doubled(s: Seq<char>, k: int) -> Seq<char>
    decreases s.len() - k,
{
    if k < 0 || k >= s.len() {
        Seq::empty()
    } else if s[k] == '"' {
        seq!['"', '"'] + doubled(s, k + 1)
    } else {
        seq![s[k]] + doubled(s, k + 1)
    }
}

proof fn lemma_join_front(a: Seq<char>, rest: Seq<Seq<char>>, sep: Seq<char>)
    requires
        rest.len() > 0,
    ensures
        join_of(seq![a] + rest, sep) == a + sep + join_of(rest, sep),
    decreases rest.len(),
{
    let all = seq![a] + rest;
    assert(all.last() == rest.last());
    assert(all.drop_last() =~= seq![a] + rest.drop_last());
    if rest.len() == 1 {
        assert(all.drop_last() =~= seq![a]);
        assert(join_of(all.drop_last(), sep) == a);
        assert(a + sep + join_of(rest, sep) =~= a + sep + all.last());
    } else {
        lemma_join_front(a, rest.drop_last(), sep);
        assert(a + sep + join_of(rest.drop_last(), sep) + sep + rest.last() =~= a + sep + (join_of(
            rest.drop_last(),
            sep,
        ) + sep + rest.last()));
    }
}

proof fn lemma_doubled_plain(s: Seq<char>, k: int, i: int)
    requires
        0 <= k <= i <= s.len(),
        forall|x: int| k <= x < i ==> s[x] != '"',
    ensures
        doubled(s, k) == s.subrange(k, i) + doubled(s, i),
    decreases i - k,
{
    if k < i {
        lemma_doubled_plain(s, k + 1, i);
        assert(s.subrange(k, i) =~= seq![s[k]] + s.subrange(k + 1, i));
        assert(seq![s[k]] + (s.subrange(k + 1, i) + doubled(s, i)) =~= s.subrange(k, i) + doubled(
            s,
            i,
        ));
    } else {
        assert(s.subrange(k, i) + doubled(s, i) =~= doubled(s, i));
    }
}

proof fn lemma_replaced_doubles(s: Seq<char>, k: int)
    requires
        0 <= k <= s.len(),
    ensures
        join_of(split_from(s, seq!['"'], k), seq!['"', '"']) == doubled(s, k),
        split_from(s, seq!['"'], k).len() > 0,
    decreases s.len() - k,
{
    let p = seq!['"'];
    let to = seq!['"', '"'];
    lemma_first_from(s, p, k);
    match first_from_quote(s, k) {
        Some(i) => {
            assert(occurs_at(s, p, i));
            assert(s.subrange(i, i + 1)[0] == p[0]);
            assert forall|x: int| k <= x < i implies s[x] != '"' by {
                assert(!occurs_at(s, p, x));
                if s[x] == '"' {
                    assert(s.subrange(x, x + 1) =~= p);
                }
            }
            lemma_replaced_doubles(s, i + 1);
            let rest = split_from(s, p, i + 1);
            lemma_join_front(s.subrange(k, i), rest, to);
            lemma_doubled_plain(s, k, i);
            assert(s.subrange(k, i) + to + doubled(s, i + 1) =~= s.subrange(k, i) + (to + doubled(
                s,
                i + 1,
            )));
        },
        None => {
            assert forall|x: int| k <= x < s.len() implies s[x] != '"' by {
                assert(!occurs_at(s, p, x));
                if s[x] == '"' {
                    assert(s.subrange(x, x + 1) =~= p);
                }
            }
            lemma_doubled_plain(s, k, s.len() as int);
            assert(s.skip(k) =~= s.subrange(k, s.len() as int) + doubled(s, s.len() as int));
        },
    }
}

spec fn first_from_quote(s: Seq<char>, k: int) -> Option<int> {
    crate::text::first_from(s, seq!['"'], k)
}

proof fn lemma_quoted(f: Seq<char>)
    ensures
        quoted(f) == seq!['"'] + doubled(f, 0) + seq!['"'],
{
    reveal_strlit("\"");
    reveal_strlit("\"\"");
    assert("\""@ =~= seq!['"']);
    assert("\"\""@ =~= seq!['"', '"']);
    lemma_replaced_doubles(f, 0);
}

/// What follows a field: nothing, or something else than a quote.
spec fn ends_field(post: Seq<char>) -> bool {
    post.len() == 0 || post[0] != '"'
}

proof fn lemma_quoted_body(pre: Seq<char>, f: Seq<char>, k: int, post: Seq<char>, cur: Seq<char>, start: int)
    requires
        0 <= k <= f.len(),
        ends_field(post),
    ensures
        ({
            let t = pre + doubled(f, k) + (seq!['"'] + post);
            let end = (pre + doubled(f, k)).len() as int + 1;
            &&& fields_from(t, pre.len() as int, cur, true) == fields_from(
                t,
                end,
                cur + f.skip(k),
                false,
            )
            &&& records_from(t, start, pre.len() as int, true) == records_from(t, start, end, false)
        }),
    decreases f.len() - k,
{
    let d = doubled(f, k);
    let tail = seq!['"'] + post;
    let t = pre + d + tail;
    let i = pre.len() as int;
    if k == f.len() {
        assert(d =~= Seq::<char>::empty());
        assert(t[i] == '"');
        if post.len() > 0 {
            assert(t[i + 1] == post[0]);
        }
        assert(cur + f.skip(k) =~= cur);
    } else if f[k] == '"' {
        let pre2 = pre + seq!['"', '"'];
        assert(pre2 + doubled(f, k + 1) =~= pre + d);
        assert(t =~= pre2 + doubled(f, k + 1) + tail);
        assert(t[i] == '"' && t[i + 1] == '"');
        lemma_quoted_body(pre2, f, k + 1, post, cur.push('"'), start);
        assert(cur.push('"') + f.skip(k + 1) =~= cur + f.skip(k));
    } else {
        let pre2 = pre + seq![f[k]];
        assert(pre2 + doubled(f, k + 1) =~= pre + d);
        assert(t =~= pre2 + doubled(f, k + 1) + tail);
        assert(t[i] == f[k]);
        lemma_quoted_body(pre2, f, k + 1, post, cur.push(f[k]), start);
        assert(cur.push(f[k]) + f.skip(k + 1) =~= cur + f.skip(k));
    }
}

proof fn lemma_plain_body(pre: Seq<char>, f: Seq<char>, k: int, post: Seq<char>, cur: Seq<char>, start: int)
    requires
        0 <= k <= f.len(),
        !needs_quotes(f),
    ensures
        ({
            let t = pre + f.skip(k) + post;
            let end = pre.len() + f.len() - k;
            &&& fields_from(t, pre.len() as int, cur, false) == fields_from(
                t,
                end,
                cur + f.skip(k),
                false,
            )
            &&& records_from(t, start, pre.len() as int, false) == records_from(
                t,
                start,
                end,
                false,
            )
        }),
    decreases f.len() - k,
{
    let t = pre + f.skip(k) + post;
    let i = pre.len() as int;
    if k == f.len() {
        assert(cur + f.skip(k) =~= cur);
    } else {
        let pre2 = pre + seq![f[k]];
        assert(t =~= pre2 + f.skip(k + 1) + post);
        assert(t[i] == f[k]);
        assert(f.contains(f[k]));
        lemma_plain_body(pre2, f, k + 1, post, cur.push(f[k]), start);
        assert(cur.push(f[k]) + f.skip(k + 1) =~= cur + f.skip(k));
    }
}

proof fn lemma_field(pre: Seq<char>, f: Seq<char>, post: Seq<char>, start: int)
    requires
        ends_field(post),
    ensures
        ({
            let t = pre + csv_field(f) + post;
            let end = (pre + csv_field(f)).len() as int;
            &&& fields_from(t, pre.len() as int, Seq::empty(), false) == fields_from(
                t,
                end,
                f,
                false,
            )
            &&& records_from(t, start, pre.len() as int, false) == records_from(
                t,
                start,
                end,
                false,
            )
        }),
{
    let t = pre + csv_field(f) + post;
    let none = Seq::<char>::empty();
    assert(f.skip(0) =~= f);
    assert(none + f =~= f);
    if needs_quotes(f) {
        lemma_quoted(f);
        let pre2 = pre + seq!['"'];
        lemma_quoted_body(pre2, f, 0, post, none, start);
        assert(t =~= pre2 + doubled(f, 0) + (seq!['"'] + post));
        assert((pre2 + doubled(f, 0)).len() + 1 == (pre + csv_field(f)).len());
        assert(t[pre.len() as int] == '"');
    } else {
        lemma_plain_body(pre, f, 0, post, none, start);
    }
}

/// The fields from `n` on as CSV writes them.
spec fn written_fields(fields: Seq<Seq<char>>, n: int) -> Seq<char>
    decreases fields.len() - n,
{
    if n < 0 || n >= fields.len() {
        Seq::empty()
    } else if n == fields.len() - 1 {
        csv_field(fields[n])
    } else {
        csv_field(fields[n]) + seq![','] + written_fields(fields, n + 1)
    }
}

proof fn lemma_record_front(fields: Seq<Seq<char>>, n: int)
    requires
        0 <= n < fields.len(),
    ensures
        join_of(fields.skip(n).map_values(|f: Seq<char>| csv_field(f)), ","@) == written_fields(
            fields,
            n,
        ),
    decreases fields.len() - n,
{
    reveal_strlit(",");
    assert(","@ =~= seq![',']);
    let mapped = fields.skip(n).map_values(|f: Seq<char>| csv_field(f));
    if n < fields.len() - 1 {
        let rest = fields.skip(n + 1).map_values(|f: Seq<char>| csv_field(f));
        assert(mapped =~= seq![csv_field(fields[n])] + rest);
        lemma_join_front(csv_field(fields[n]), rest, ","@);
        lemma_record_front(fields, n + 1);
    } else {
        assert(mapped =~= seq![csv_field(fields[n])]);
    }
}

proof fn lemma_fields_back(pre: Seq<char>, fields: Seq<Seq<char>>, n: int, post: Seq<char>, start: int)
    requires
        0 <= n < fields.len(),
        post.len() == 0 || post[0] == '\n',
    ensures
        ({
            let t = pre + written_fields(fields, n) + post;
            let end = (pre + written_fields(fields, n)).len() as int;
            &&& post.len() == 0 ==> fields_from(t, pre.len() as int, Seq::empty(), false)
                == fields.skip(n)
            &&& records_from(t, start, pre.len() as int, false) == records_from(
                t,
                start,
                end,
                false,
            )
        }),
    decreases fields.len() - n,
{
    let w = written_fields(fields, n);
    let t = pre + w + post;
    if n == fields.len() - 1 {
        lemma_field(pre, fields[n], post, start);
        if post.len() == 0 {
            assert(fields.skip(n) =~= seq![fields[n]]);
            assert(t.len() == (pre + csv_field(fields[n])).len());
        }
    } else {
        let rest = seq![','] + written_fields(fields, n + 1) + post;
        let pre2 = pre + csv_field(fields[n]) + seq![','];
        let end = (pre + csv_field(fields[n])).len() as int;
        lemma_field(pre, fields[n], rest, start);
        assert(t =~= pre + csv_field(fields[n]) + rest);
        assert(t =~= pre2 + written_fields(fields, n + 1) + post);
        assert(pre2 + written_fields(fields, n + 1) =~= pre + w);
        lemma_fields_back(pre2, fields, n + 1, post, start);
        assert(t[end] == ',');
        if post.len() == 0 {
            assert(fields.skip(n) =~= seq![fields[n]] + fields.skip(n + 1));
        }
    }
}

/// Reading a record back gives the fields that were written, whatever they
/// hold.
pub proof fn csv_record_reads_back(fields: Seq<Seq<char>>)
    requires
        fields.len() > 0,
    ensures
        csv_fields(csv_record(fields)) == fields,
{
    let none = Seq::<char>::empty();
    lemma_record_front(fields, 0);
    assert(fields.skip(0) =~= fields);
    lemma_fields_back(none, fields, 0, none, 0);
    assert(none + written_fields(fields, 0) + none =~= csv_record(fields));
}

/// The records from `k` on as CSV writes them, a line each.
spec fn written_records(records: Seq<Seq<Seq<char>>>, k: int) -> Seq<char>
    decreases records.len() - k,
{
    if k < 0 || k >= records.len() {
        Seq::empty()
    } else {
        csv_record(records[k]) + seq!['\n'] + written_records(records, k + 1)
    }
}

proof fn lemma_written_push(records: Seq<Seq<Seq<char>>>, r: Seq<Seq<char>>, k: int)
    requires
        0 <= k <= records.len(),
    ensures
        written_records(records.push(r), k) == written_records(records, k) + csv_record(r)
            + seq!['\n'],
    decreases records.len() - k,
{
    let all = records.push(r);
    if k < records.len() {
        lemma_written_push(records, r, k + 1);
        assert(all[k] == records[k]);
        assert(written_records(all, k) =~= written_records(records, k) + csv_record(r)
            + seq!['\n']);
    } else {
        assert(written_records(all, k + 1) =~= Seq::<char>::empty());
        assert(written_records(all, k) =~= written_records(records, k) + csv_record(r)
            + seq!['\n']);
    }
}

proof fn lemma_records_back(pre: Seq<char>, records: Seq<Seq<Seq<char>>>, k: int)
    requires
        0 <= k <= records.len(),
        forall|i: int| 0 <= i < records.len() ==> (#[trigger] records[i]).len() > 0,
    ensures
        records_from(
            pre + written_records(records, k),
            pre.len() as int,
            pre.len() as int,
            false,
        ) == records.skip(k),
    decreases records.len() - k,
{
    let t = pre + written_records(records, k);
    let i = pre.len() as int;
    if k < records.len() {
        let fields = records[k];
        let rec = csv_record(fields);
        let post = seq!['\n'] + written_records(records, k + 1);
        lemma_record_front(fields, 0);
        assert(fields.skip(0) =~= fields);
        lemma_fields_back(pre, fields, 0, post, i);
        assert(t =~= pre + written_fields(fields, 0) + post);
        let end = (pre + rec).len() as int;
        assert(t[end] == '\n');
        assert(t.subrange(i, end) =~= rec);
        csv_record_reads_back(fields);
        let pre2 = pre + rec + seq!['\n'];
        assert(t =~= pre2 + written_records(records, k + 1));
        lemma_records_back(pre2, records, k + 1);
        assert(records.skip(k) =~= seq![fields] + records.skip(k + 1));
    } else {
        assert(t =~= pre);
        assert(records.skip(k) =~= Seq::<Seq<Seq<char>>>::empty());
    }
}

/// The records of a table: its header and its first `n` rows.
pub open spec fn table_records(headers: Seq<Seq<char>>, rows: Seq<Vec<DbValue>>, n: int) -> Seq<
    Seq<Seq<char>>,
>
    decreases n,
{
    if n <= 0 {
        seq![headers]
    } else {
        table_records(headers, rows, n - 1).push(shown_row(rows[n - 1]@))
    }
}

proof fn lemma_table_records(headers: Seq<Seq<char>>, rows: Seq<Vec<DbValue>>, n: int)
    requires
        headers.len() > 0,
        forall|i: int| 0 <= i < rows.len() ==> (#[trigger] rows[i])@.len() > 0,
        0 <= n <= rows.len(),
    ensures
        csv_table(headers, rows, n) == written_records(table_records(headers, rows, n), 0),
        table_records(headers, rows, n).len() == n + 1,
        forall|i: int| 0 <= i <= n ==> (#[trigger] table_records(headers, rows, n)[i]).len() > 0,
    decreases n,
{
    if n > 0 {
        lemma_table_records(headers, rows, n - 1);
        let before = table_records(headers, rows, n - 1);
        lemma_written_push(before, shown_row(rows[n - 1]@), 0);
        let rec = csv_record(shown_row(rows[n - 1]@));
        assert((written_records(before, 0) + rec).push('\n') =~= written_records(before, 0) + rec
            + seq!['\n']);
        assert(shown_row(rows[n - 1]@).len() == rows[n - 1]@.len());
    } else {
        let records = table_records(headers, rows, 0);
        assert(written_records(records, 1) =~= Seq::<char>::empty());
        assert(csv_record(headers).push('\n') =~= written_records(records, 0));
    }
}

/// Reading back the CSV of a query gives its header and its rows, whatever the
/// fields hold.
pub proof fn csv_table_reads_back(headers: Seq<Seq<char>>, rows: Seq<Vec<DbValue>>)
    requires
        headers.len() > 0,
        forall|i: int| 0 <= i < rows.len() ==> (#[trigger] rows[i])@.len() > 0,
    ensures
        csv_records(csv_table(headers, rows, rows.len() as int)) == table_records(
            headers,
            rows,
            rows.len() as int,
        ),
{
    let n = rows.len() as int;
    let records = table_records(headers, rows, n);
    lemma_table_records(headers, rows, n);
    let none = Seq::<char>::empty();
    lemma_records_back(none, records, 0);
    assert(none + written_records(records, 0) =~= written_records(records, 0));
    assert(records.skip(0) =~= records);
}

} // verus!
