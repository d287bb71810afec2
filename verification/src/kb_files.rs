//! The files of the knowledge base: registration, extraction of units,
//! listing, deletion, synchronisation and backup.
//!
//! Files and the database are reached by the caller. This module makes the
//! decisions between two accesses and says what is written and answered.

use vstd::prelude::*;
use vstd::string::*;

use crate::json_model::{empty_object, group_json, Json, JsonView};
use crate::json_text::{json_read, json_written, print_json};
use crate::kb::{
    cells_view, escape_sql_string, object_read, parse_json_obj, statements_view, text_cell, Cell,
    CellView, Statement, StatementView,
};
use crate::text::{
    after_prefix, decimal, decimal_int, i64_text, is_space, join, join_of, lemma_views_push,
    lowercase_of, opt_str_view, opt_view, pad_right, padded, pairs_view, parse_i64, parsed_signed,
    replace, replaced, split, split_on, starts_with, str_eq, str_or, strip_prefix, text_or,
    to_lowercase, trim, trimmed, usize_text, views,
};

verus! {

broadcast use group_json;

/// Version of the extraction, kept with every unit.
pub const PARSER_VERSION: &'static str = "0.1.0";

// ---------------------------------------------------------------------------
// Runs
// ---------------------------------------------------------------------------

pub const NO_DIRECTORY: &'static str = "[KB_CONFIG_ERROR] No KB directory configured (--kb-dir / KB_DIR) and the app data directory could not be resolved.";

/// The error on a knowledge base that cannot be opened.
pub fn init_error(kb_dir: &str, why: &str) -> (r: String)
    ensures
        r@ == "[KB_CONFIG_ERROR] Knowledge base initialization failed at '"@ + kb_dir@ + "': "@
            + why@ + ". Check the directory permissions and that library.sqlite is not corrupted."@,
{
    let mut s = String::from_str("[KB_CONFIG_ERROR] Knowledge base initialization failed at '");
    s.append(kb_dir);
    s.append("': ");
    s.append(why);
    s.append(". Check the directory permissions and that library.sqlite is not corrupted.");
    s
}

pub const STALE_RUNS_SQL: &'static str = "UPDATE analysis_runs SET status = 'failed', finished_at = ?1, summary = ?2 WHERE status = 'running' AND started_at < ?1";

pub const START_RUN_SQL: &'static str = "INSERT INTO analysis_runs (id, label, status, config) VALUES (?1, ?2, 'running', ?3)";

pub const FINISH_RUN_SQL: &'static str = "UPDATE analysis_runs SET status = 'completed', finished_at = ?1 WHERE id = ?2 AND status = 'running'";

/// A statement with texts bound to it.
pub open spec fn with_texts(sql: Seq<char>, texts: Seq<Seq<char>>) -> StatementView {
    StatementView { sql, params: texts.map_values(|t: Seq<char>| CellView::Text(t)) }
}

fn bind1(sql: &str, a: &str) -> (r: Statement)
    ensures
        r@ == with_texts(sql@, seq![a@]),
{
    let mut p: Vec<Cell> = Vec::new();
    p.push(Cell::text(a));
    proof {
        assert(cells_view(p@) =~= with_texts(sql@, seq![a@]).params);
    }
    Statement { sql: sql.to_owned(), params: p }
}

fn bind2(sql: &str, a: &str, b: &str) -> (r: Statement)
    ensures
        r@ == with_texts(sql@, seq![a@, b@]),
{
    let mut p: Vec<Cell> = Vec::new();
    p.push(Cell::text(a));
    p.push(Cell::text(b));
    proof {
        assert(cells_view(p@) =~= with_texts(sql@, seq![a@, b@]).params);
    }
    Statement { sql: sql.to_owned(), params: p }
}

/// Marks the runs that a crash left running since before `cutoff` as failed.
pub fn mark_stale_runs(cutoff: &str) -> (r: Statement)
    ensures
        r@ == with_texts(STALE_RUNS_SQL@, seq![cutoff@, "stale run (previous crash)"@]),
{
    bind2(STALE_RUNS_SQL, cutoff, "stale run (previous crash)")
}

/// Records the run of this process.
pub fn start_run(run_id: &str, version: &str, now: &str) -> (r: Statement)
    ensures
        r@ == with_texts(
            START_RUN_SQL@,
            seq![run_id@, "auto "@ + version@ + " "@ + now@, "{}"@],
        ),
{
    let mut label = String::from_str("auto ");
    label.append(version);
    label.append(" ");
    label.append(now);
    let mut p: Vec<Cell> = Vec::new();
    p.push(Cell::text(run_id));
    p.push(Cell::text(label.as_str()));
    p.push(Cell::text("{}"));
    proof {
        assert(cells_view(p@) =~= with_texts(
            START_RUN_SQL@,
            seq![run_id@, "auto "@ + version@ + " "@ + now@, "{}"@],
        ).params);
    }
    Statement { sql: START_RUN_SQL.to_owned(), params: p }
}

/// Marks the run of this process as completed.
pub fn finish_run(run_id: &str, now: &str) -> (r: Statement)
    ensures
        r@ == with_texts(FINISH_RUN_SQL@, seq![now@, run_id@]),
{
    bind2(FINISH_RUN_SQL, now, run_id)
}

// ---------------------------------------------------------------------------
// Adding files
// ---------------------------------------------------------------------------

/// Where the file of an addition comes from.
#[derive(Debug, PartialEq, Eq)]
pub enum AddStep {
    /// It is copied into the data directory.
    Copy,
    /// It is in the data directory, under the given path.
    UnderData,
    /// It is in the data directory, under its name.
    ByName,
    Refused(String),
}

/// Where the file of an addition comes from.
pub enum AddView {
    Copy,
    UnderData,
    ByName,
    Refused(Seq<char>),
}

impl View for AddStep {
    type V = AddView;

    open spec fn view(&self) -> AddView {
        match *self {
            AddStep::Copy => AddView::Copy,
            AddStep::UnderData => AddView::UnderData,
            AddStep::ByName => AddView::ByName,
            AddStep::Refused(e) => AddView::Refused(e@),
        }
    }
}

/// The error on a path without a file name.
pub open spec fn invalid_path(path: Seq<char>) -> Seq<char> {
    "[KB_FILE_ERROR] Invalid path: '"@ + path + "'"@
}

fn invalid_path_text(path: &str) -> (r: String)
    ensures
        r@ == invalid_path(path@),
{
    let mut s = String::from_str("[KB_FILE_ERROR] Invalid path: '");
    s.append(path);
    s.append("'");
    s
}

/// Where the file of an addition comes from: an absolute path is copied; a
/// relative one is looked for in the data directory, then in the workspace,
/// then by its name (`by_name`, absent where the path has none) in the data
/// directory.
pub open spec fn add_source(
    path: Seq<char>,
    absolute: bool,
    under_data: bool,
    in_workspace: bool,
    by_name: Option<bool>,
) -> AddView {
    if absolute {
        AddView::Copy
    } else if under_data {
        AddView::UnderData
    } else if in_workspace {
        AddView::Copy
    } else {
        match by_name {
            Some(true) => AddView::ByName,
            Some(false) => AddView::Refused(
                "[KB_FILE_ERROR] File not found in KB data/ or workspace: '"@ + path + "'."@,
            ),
            None => AddView::Refused(invalid_path(path)),
        }
    }
}

/// Decides where the file of an addition comes from.
pub fn plan_add(
    path: &str,
    absolute: bool,
    under_data: bool,
    in_workspace: bool,
    by_name: Option<bool>,
) -> (r: AddStep)
    ensures
        r@ == add_source(path@, absolute, under_data, in_workspace, by_name),
{
    if absolute {
        AddStep::Copy
    } else if under_data {
        AddStep::UnderData
    } else if in_workspace {
        AddStep::Copy
    } else {
        match by_name {
            Some(found) => if found {
                AddStep::ByName
            } else {
                let mut s = String::from_str(
                    "[KB_FILE_ERROR] File not found in KB data/ or workspace: '",
                );
                s.append(path);
                s.append("'.");
                AddStep::Refused(s)
            },
            None => AddStep::Refused(invalid_path_text(path)),
        }
    }
}

/// Why a copy into the data directory is refused.
pub open spec fn copy_refusal(
    path: Seq<char>,
    exists: bool,
    name: Option<Seq<char>>,
    taken: bool,
    data_dir: Seq<char>,
) -> Option<Seq<char>> {
    if !exists {
        Some("[KB_FILE_ERROR] File not found: '"@ + path + "'."@)
    } else {
        match name {
            None => Some(invalid_path(path)),
            Some(n) => if taken {
                Some(
                    "[KB_FILE_ERROR] File '"@ + n + "' already exists in "@ + data_dir
                        + ". Register it or use a different name."@,
                )
            } else {
                None
            },
        }
    }
}

/// Checks a copy into the data directory: the file must exist and have a name
/// that is not taken there.
pub fn check_copy(path: &str, exists: bool, name: Option<&str>, taken: bool, data_dir: &str) -> (r:
    Option<String>)
    ensures
        opt_view(r) == copy_refusal(path@, exists, opt_str_view(name), taken, data_dir@),
{
    if !exists {
        let mut s = String::from_str("[KB_FILE_ERROR] File not found: '");
        s.append(path);
        s.append("'.");
        return Some(s);
    }
    match name {
        None => Some(invalid_path_text(path)),
        Some(n) => if taken {
            let mut s = String::from_str("[KB_FILE_ERROR] File '");
            s.append(n);
            s.append("' already exists in ");
            s.append(data_dir);
            s.append(". Register it or use a different name.");
            Some(s)
        } else {
            None
        },
    }
}

/// The source name of a path relative to the knowledge base.
pub fn relative_source(relative: &str) -> (r: String)
    ensures
        r@ == replaced(relative@, "\\"@, "/"@),
{
    proof {
        reveal_strlit("\\");
    }
    replace(relative, "\\", "/")
}

// ---------------------------------------------------------------------------
// Listing
// ---------------------------------------------------------------------------

pub const LIST_SQL: &'static str = "SELECT source, version, superseded_by, analysis_status, created_at, updated_at, metadata FROM documents ORDER BY source, version";

/// A registered document.
#[derive(Debug, PartialEq, Eq)]
pub struct DocumentRow {
    pub source: Option<String>,
    pub version: String,
    pub superseded_by: Option<String>,
    pub status: String,
    pub created_at: String,
    pub updated_at: String,
    pub metadata: String,
}

/// A line of seven columns, the first six padded.
pub open spec fn list_columns(
    source: Seq<char>,
    version: Seq<char>,
    state: Seq<char>,
    analysis: Seq<char>,
    created: Seq<char>,
    updated: Seq<char>,
    last: Seq<char>,
) -> Seq<char> {
    padded(source, 32) + " "@ + padded(version, 12) + " "@ + padded(state, 10) + " "@ + padded(
        analysis,
        12,
    ) + " "@ + padded(created, 28) + " "@ + padded(updated, 28) + " "@ + last
}

fn columns(
    source: &str,
    version: &str,
    state: &str,
    analysis: &str,
    created: &str,
    updated: &str,
    last: &str,
) -> (r: String)
    ensures
        r@ == list_columns(source@, version@, state@, analysis@, created@, updated@, last@),
{
    let a = pad_right(source, 32);
    let b = pad_right(version, 12);
    let c = pad_right(state, 10);
    let d = pad_right(analysis, 12);
    let e = pad_right(created, 28);
    let f = pad_right(updated, 28);
    let mut s = a;
    s.append(" ");
    s.append(b.as_str());
    s.append(" ");
    s.append(c.as_str());
    s.append(" ");
    s.append(d.as_str());
    s.append(" ");
    s.append(e.as_str());
    s.append(" ");
    s.append(f.as_str());
    s.append(" ");
    s.append(last);
    s
}

/// The line of a document.
pub open spec fn document_line(row: DocumentRow, missing: bool) -> Seq<char> {
    list_columns(
        text_or(opt_view(row.source), ""@),
        "v"@ + row.version@ + if row.superseded_by is Some {
            "(old)"@
        } else {
            ""@
        },
        if row.superseded_by is Some {
            "superseded"@
        } else {
            "current"@
        },
        row.status@,
        row.created_at@,
        row.updated_at@,
        if missing {
            "[missing]"@
        } else {
            ""@
        },
    )
}

/// Whether a document waits for its analysis.
pub open spec fn is_pending(row: DocumentRow) -> bool {
    row.superseded_by is None && row.status@ == "pending"@
}

/// How many of the first `n` documents wait for their analysis.
pub open spec fn pending_count(rows: Seq<DocumentRow>, n: int) -> nat
    decreases n,
{
    if n <= 0 {
        0
    } else {
        pending_count(rows, n - 1) + if is_pending(rows[n - 1]) {
            1nat
        } else {
            0nat
        }
    }
}

/// The header of the list and the lines of the first `n` documents.
pub open spec fn document_lines(rows: Seq<DocumentRow>, missing: Seq<bool>, n: int) -> Seq<
    Seq<char>,
>
    decreases n,
{
    if n <= 0 {
        seq![
            list_columns(
                "source"@,
                "version"@,
                "status"@,
                "analysis"@,
                "created_at"@,
                "updated_at"@,
                "missing"@,
            ),
        ]
    } else {
        document_lines(rows, missing, n - 1).push(document_line(rows[n - 1], missing[n - 1]))
    }
}

/// The hint on documents that wait for their analysis.
pub open spec fn pending_hint(n: nat) -> Seq<char> {
    "Hint: "@ + decimal(n)
        + " document(s) are pending analysis. Ask the AI to analyze them, then to set analysis_status to analyzed via data_kb_update (a write tool; it asks y/N). /kb add / /kb sync only extract paragraphs - they never run the LLM, so the status stays pending until the AI writes the transition."@
}

/// The list of documents.
pub open spec fn documents_text(rows: Seq<DocumentRow>, missing: Seq<bool>) -> Seq<char> {
    let lines = document_lines(rows, missing, rows.len() as int);
    let shown = if rows.len() == 0 {
        lines.push("(no documents registered)"@)
    } else {
        lines
    };
    let pending = pending_count(rows, rows.len() as int);
    join_of(
        if pending > 0 {
            shown.push(pending_hint(pending))
        } else {
            shown
        },
        "\n"@,
    )
}

/// Lists the documents; `missing` says whose file is gone.
pub fn list_documents(rows: &Vec<DocumentRow>, missing: &Vec<bool>) -> (r: String)
    requires
        missing@.len() == rows@.len(),
    ensures
        r@ == documents_text(rows@, missing@),
{
    let mut lines: Vec<String> = Vec::new();
    lines.push(
        columns("source", "version", "status", "analysis", "created_at", "updated_at", "missing"),
    );
    let mut pending: usize = 0;
    let mut i: usize = 0;
    proof {
        assert(views(lines@) =~= document_lines(rows@, missing@, 0));
    }
    while i < rows.len()
        invariant
            i <= rows@.len(),
            missing@.len() == rows@.len(),
            pending <= i,
            pending == pending_count(rows@, i as int),
            views(lines@) == document_lines(rows@, missing@, i as int),
        decreases rows@.len() - i,
    {
        let row = &rows[i];
        let old = row.superseded_by.is_some();
        let mut version = String::from_str("v");
        version.append(row.version.as_str());
        version.append(
            if old {
                "(old)"
            } else {
                ""
            },
        );
        let source = match &row.source {
            Some(s) => s.as_str(),
            None => "",
        };
        if !old && str_eq(row.status.as_str(), "pending") {
            pending = pending + 1;
        }
        let line = columns(
            source,
            version.as_str(),
            if old {
                "superseded"
            } else {
                "current"
            },
            row.status.as_str(),
            row.created_at.as_str(),
            row.updated_at.as_str(),
            if missing[i] {
                "[missing]"
            } else {
                ""
            },
        );
        proof {
            lemma_views_push(lines@, line);
        }
        lines.push(line);
        i = i + 1;
    }
    if rows.len() == 0 {
        let none = "(no documents registered)".to_owned();
        proof {
            lemma_views_push(lines@, none);
        }
        lines.push(none);
    }
    if pending > 0 {
        let mut s = String::from_str("Hint: ");
        let d = usize_text(pending);
        s.append(d.as_str());
        s.append(
            " document(s) are pending analysis. Ask the AI to analyze them, then to set analysis_status to analyzed via data_kb_update (a write tool; it asks y/N). /kb add / /kb sync only extract paragraphs - they never run the LLM, so the status stays pending until the AI writes the transition.",
        );
        proof {
            lemma_views_push(lines@, s);
        }
        lines.push(s);
    }
    join(&lines, "\n")
}

/// Whether the metadata of a document say that its file is gone.
pub open spec fn says_missing(meta: JsonView) -> bool {
    match meta.get("file_missing"@) {
        Some(v) => v.as_bool() == Some(true),
        None => false,
    }
}

/// Lists the documents.
pub fn kb_list(rows: &Vec<DocumentRow>) -> (r: String)
    ensures
        r@ == documents_text(
            rows@,
            rows@.map_values(|d: DocumentRow| says_missing(object_read(json_read(d.metadata@)))),
        ),
{
    let mut missing: Vec<bool> = Vec::new();
    let mut i: usize = 0;
    while i < rows.len()
        invariant
            i <= rows@.len(),
            missing@.len() == i,
            forall|k: int|
                0 <= k < i ==> #[trigger] missing@[k] == says_missing(
                    object_read(json_read(rows@[k].metadata@)),
                ),
        decreases rows@.len() - i,
    {
        let meta = parse_json_obj(rows[i].metadata.as_str());
        let gone = match meta.get("file_missing") {
            Some(v) => match v.as_bool() {
                Some(b) => b,
                None => false,
            },
            None => false,
        };
        missing.push(gone);
        i = i + 1;
    }
    proof {
        assert(missing@ =~= rows@.map_values(
            |d: DocumentRow| says_missing(object_read(json_read(d.metadata@))),
        ));
    }
    list_documents(rows, &missing)
}

// ---------------------------------------------------------------------------
// Deletion
// ---------------------------------------------------------------------------

/// The source that a deletion names: `inside` is the path relative to the
/// knowledge base where the argument lies in its data directory, `name` the
/// file name of the argument.
pub open spec fn deleted_source(
    path: Seq<char>,
    inside: Option<Seq<char>>,
    name: Option<Seq<char>>,
) -> Result<Seq<char>, Seq<char>> {
    match inside {
        Some(relative) => Ok(replaced(relative, "\\"@, "/"@)),
        None => match name {
            None => Err(invalid_path(path)),
            Some(n) => if "data/"@.is_prefix_of(path) {
                Ok(path)
            } else {
                Ok("data/"@ + n)
            },
        },
    }
}

/// The outcome of a step that gives a text.
pub open spec fn named_outcome(r: Result<String, String>) -> Result<Seq<char>, Seq<char>> {
    match r {
        Ok(s) => Ok(s@),
        Err(e) => Err(e@),
    }
}

/// The source that a deletion names.
pub fn delete_source(path: &str, inside: Option<&str>, name: Option<&str>) -> (r: Result<
    String,
    String,
>)
    ensures
        named_outcome(r) == deleted_source(path@, opt_str_view(inside), opt_str_view(name)),
{
    match inside {
        Some(relative) => Ok(relative_source(relative)),
        None => match name {
            None => Err(invalid_path_text(path)),
            Some(n) => if starts_with(path, "data/") {
                Ok(path.to_owned())
            } else {
                let mut s = String::from_str("data/");
                s.append(n);
                Ok(s)
            },
        },
    }
}

pub const VERSIONS_SQL: &'static str = "SELECT id FROM documents WHERE source = ?1";

pub const CURRENT_SQL: &'static str = "SELECT id FROM documents WHERE source = ?1 AND superseded_by IS NULL";

/// Asks for every row that can be an end of a relation, of all documents of a
/// source.
pub const SOURCE_ENDPOINTS_SQL: &'static str = "SELECT id FROM entities WHERE document_id IN (SELECT id FROM documents WHERE source = ?1) UNION SELECT id FROM claims WHERE document_id IN (SELECT id FROM documents WHERE source = ?1) UNION SELECT id FROM conditions WHERE document_id IN (SELECT id FROM documents WHERE source = ?1) UNION SELECT id FROM events WHERE document_id IN (SELECT id FROM documents WHERE source = ?1) UNION SELECT id FROM document_units WHERE document_id IN (SELECT id FROM documents WHERE source = ?1)";

/// Asks for every row that can be an end of a relation, of one document.
pub const DOCUMENT_ENDPOINTS_SQL: &'static str = "SELECT id FROM entities WHERE document_id = ?1 UNION SELECT id FROM claims WHERE document_id = ?1 UNION SELECT id FROM conditions WHERE document_id = ?1 UNION SELECT id FROM events WHERE document_id = ?1 UNION SELECT id FROM document_units WHERE document_id = ?1";

pub const DELETE_ALL_SQL: &'static str = "DELETE FROM documents WHERE source = ?1";

pub const PROMOTE_SQL: &'static str = "UPDATE documents SET superseded_by = NULL WHERE superseded_by = ?1";

pub const DELETE_ONE_SQL: &'static str = "DELETE FROM documents WHERE id = ?1";

/// The query for the rows that a deletion takes away and that can be an end of a
/// relation: those of every version, or those of the current one.
pub open spec fn endpoints_query(
    source: Seq<char>,
    all_versions: bool,
    current: Option<Seq<char>>,
) -> Option<StatementView> {
    if all_versions {
        Some(with_texts(SOURCE_ENDPOINTS_SQL@, seq![source]))
    } else {
        match current {
            Some(id) => Some(with_texts(DOCUMENT_ENDPOINTS_SQL@, seq![id])),
            None => None,
        }
    }
}

/// The query for the rows that a deletion takes away and that can be an end of a
/// relation; nothing where no version is deleted.
pub fn deleted_endpoints(source: &str, all_versions: bool, current: Option<&str>) -> (r: Option<
    Statement,
>)
    ensures
        opt_statement(r) == endpoints_query(source@, all_versions, opt_str_view(current)),
{
    if all_versions {
        Some(bind1(SOURCE_ENDPOINTS_SQL, source))
    } else {
        match current {
            Some(id) => Some(bind1(DOCUMENT_ENDPOINTS_SQL, id)),
            None => None,
        }
    }
}

/// `n` placeholders, separated by commas.
pub open spec fn placeholders(n: nat) -> Seq<char> {
    join_of(Seq::new(n, |i: int| "?"@), ","@)
}

/// The statement that removes the cross-document relations with an end among
/// some rows.
pub open spec fn cleanup_statement(endpoints: Seq<Seq<char>>) -> StatementView {
    with_texts(
        "DELETE FROM relations WHERE document_id IS NULL AND (source_id IN ("@ + placeholders(
            endpoints.len(),
        ) + ") OR target_id IN ("@ + placeholders(endpoints.len()) + "))"@,
        endpoints + endpoints,
    )
}

/// What a deletion runs, in order: the statement that deletes documents is
/// `delete`.
#[derive(Debug, PartialEq, Eq)]
pub struct DeletePlan {
    /// Makes the previous version the current one.
    pub promote: Option<Statement>,
    pub delete: Statement,
    /// Removes the cross-document relations that lose an end.
    pub cleanup: Option<Statement>,
}

/// What a deletion runs, in order.
pub struct DeleteView {
    pub promote: Option<StatementView>,
    pub delete: StatementView,
    pub cleanup: Option<StatementView>,
}

/// The contents of an optional statement.
pub open spec fn opt_statement(o: Option<Statement>) -> Option<StatementView> {
    match o {
        Some(s) => Some(s@),
        None => None,
    }
}

impl View for DeletePlan {
    type V = DeleteView;

    open spec fn view(&self) -> DeleteView {
        DeleteView {
            promote: opt_statement(self.promote),
            delete: self.delete@,
            cleanup: opt_statement(self.cleanup),
        }
    }
}

/// What a deletion runs, or why it is refused. `ids` are the registered
/// versions, `current` is the current one, and `endpoints` is the answer to
/// [`endpoints_query`].
pub open spec fn deletion(
    source: Seq<char>,
    all_versions: bool,
    ids: nat,
    current: Option<Seq<char>>,
    endpoints: Seq<Seq<char>>,
) -> Result<DeleteView, Seq<char>> {
    let cleanup = if endpoints.len() > 0 {
        Some(cleanup_statement(endpoints))
    } else {
        None
    };
    if ids == 0 {
        Err(
            "[KB_FILE_ERROR] No registered document for '"@ + source
                + "'. Use /kb list to see sources."@,
        )
    } else if all_versions {
        Ok(
            DeleteView {
                promote: None,
                delete: with_texts(DELETE_ALL_SQL@, seq![source]),
                cleanup,
            },
        )
    } else {
        match current {
            None => Err(
                "[KB_FILE_ERROR] No current version for '"@ + source
                    + "'. Use --all-versions to delete old versions."@,
            ),
            Some(id) => Ok(
                DeleteView {
                    promote: Some(with_texts(PROMOTE_SQL@, seq![id])),
                    delete: with_texts(DELETE_ONE_SQL@, seq![id]),
                    cleanup,
                },
            ),
        }
    }
}

fn cleanup_relations(endpoints: &Vec<String>) -> (r: Statement)
    ensures
        r@ == cleanup_statement(views(endpoints@)),
{
    let n: usize = endpoints.len();
    let mut marks: Vec<String> = Vec::new();
    let mut params: Vec<Cell> = Vec::new();
    let mut i: usize = 0;
    while i < n
        invariant
            i <= n,
            n == endpoints@.len(),
            marks@.len() == i,
            params@.len() == i,
            forall|k: int| 0 <= k < i ==> (#[trigger] marks@[k])@ == "?"@,
            forall|k: int|
                0 <= k < i ==> (#[trigger] params@[k])@ == CellView::Text(endpoints@[k]@),
        decreases n - i,
    {
        marks.push("?".to_owned());
        params.push(Cell::text(endpoints[i].as_str()));
        i = i + 1;
    }
    proof {
        assert(views(marks@) =~= Seq::new(n as nat, |k: int| "?"@));
    }
    let list = join(&marks, ",");
    i = 0;
    while i < n
        invariant
            i <= n,
            n == endpoints@.len(),
            params@.len() == n + i,
            forall|k: int|
                0 <= k < n ==> (#[trigger] params@[k])@ == CellView::Text(endpoints@[k]@),
            forall|k: int|
                n <= k < n + i ==> (#[trigger] params@[k])@ == CellView::Text(
                    endpoints@[k - n]@,
                ),
        decreases n - i,
    {
        params.push(Cell::text(endpoints[i].as_str()));
        i = i + 1;
    }
    proof {
        let e = views(endpoints@);
        assert(cells_view(params@) =~= (e + e).map_values(|t: Seq<char>| CellView::Text(t)));
    }
    let mut sql = String::from_str(
        "DELETE FROM relations WHERE document_id IS NULL AND (source_id IN (",
    );
    sql.append(list.as_str());
    sql.append(") OR target_id IN (");
    sql.append(list.as_str());
    sql.append("))");
    Statement { sql, params }
}

/// Plans a deletion: of every version, or of the current one, whose immediate
/// predecessor then becomes the current one. `endpoints` is the answer to
/// [`deleted_endpoints`].
pub fn plan_delete(
    source: &str,
    all_versions: bool,
    ids: usize,
    current: Option<&str>,
    endpoints: &Vec<String>,
) -> (r: Result<DeletePlan, String>)
    ensures
        match r {
            Ok(p) => deletion(
                source@,
                all_versions,
                ids as nat,
                opt_str_view(current),
                views(endpoints@),
            ) == Ok::<DeleteView, Seq<char>>(p@),
            Err(e) => deletion(
                source@,
                all_versions,
                ids as nat,
                opt_str_view(current),
                views(endpoints@),
            ) == Err::<DeleteView, Seq<char>>(e@),
        },
{
    if ids == 0 {
        let mut s = String::from_str("[KB_FILE_ERROR] No registered document for '");
        s.append(source);
        s.append("'. Use /kb list to see sources.");
        return Err(s);
    }
    let cleanup = if endpoints.len() > 0 {
        Some(cleanup_relations(endpoints))
    } else {
        None
    };
    if all_versions {
        return Ok(DeletePlan { promote: None, delete: bind1(DELETE_ALL_SQL, source), cleanup });
    }
    match current {
        None => {
            let mut s = String::from_str("[KB_FILE_ERROR] No current version for '");
            s.append(source);
            s.append("'. Use --all-versions to delete old versions.");
            Err(s)
        },
        Some(id) => Ok(
            DeletePlan {
                promote: Some(bind1(PROMOTE_SQL, id)),
                delete: bind1(DELETE_ONE_SQL, id),
                cleanup,
            },
        ),
    }
}

/// The rows whose relations a deletion removes are those of the documents that it
/// deletes: every version, or the current one alone, whose predecessor then is
/// current.
pub proof fn deletion_keeps_other_versions(
    source: Seq<char>,
    all_versions: bool,
    ids: nat,
    current: Option<Seq<char>>,
    endpoints: Seq<Seq<char>>,
)
    requires
        deletion(source, all_versions, ids, current, endpoints) is Ok,
    ensures
        ({
            let plan = deletion(source, all_versions, ids, current, endpoints)->Ok_0;
            let asked = endpoints_query(source, all_versions, current);
            &&& asked is Some
            &&& asked->0.params == plan.delete.params
            &&& all_versions ==> {
                &&& plan.delete.sql == DELETE_ALL_SQL@
                &&& asked->0.sql == SOURCE_ENDPOINTS_SQL@
                &&& plan.promote is None
            }
            &&& !all_versions ==> {
                &&& plan.delete == with_texts(DELETE_ONE_SQL@, seq![current->0])
                &&& asked->0.sql == DOCUMENT_ENDPOINTS_SQL@
                &&& plan.promote == Some(with_texts(PROMOTE_SQL@, seq![current->0]))
            }
            &&& plan.cleanup is Some <==> endpoints.len() > 0
            &&& plan.cleanup is Some ==> plan.cleanup->0 == cleanup_statement(endpoints)
        }),
{
}

/// The path of a source below the data directory.
pub fn stored_path<'a>(source: &'a str) -> (r: Option<&'a str>)
    ensures
        opt_str_view(r) == after_prefix(source@, "data/"@),
{
    strip_prefix(source, "data/")
}

/// The report of a deletion.
pub fn delete_report(deleted: usize, source: &str, all_versions: bool) -> (r: String)
    ensures
        r@ == "Deleted "@ + decimal(deleted as nat) + " version(s) of '"@ + source@ + "' ("@ + (
        if all_versions {
            "all versions"@
        } else {
            "current"@
        }) + ") and its data file."@,
{
    let d = usize_text(deleted);
    let mut s = String::from_str("Deleted ");
    s.append(d.as_str());
    s.append(" version(s) of '");
    s.append(source);
    s.append("' (");
    s.append(
        if all_versions {
            "all versions"
        } else {
            "current"
        },
    );
    s.append(") and its data file.");
    s
}

// ---------------------------------------------------------------------------
// Metadata
// ---------------------------------------------------------------------------

pub const SET_METADATA_SQL: &'static str = "UPDATE documents SET metadata = ?1 WHERE id = ?2";

pub const CURRENT_META_SQL: &'static str = "SELECT id, metadata FROM documents WHERE source = ?1 AND superseded_by IS NULL";

pub const SOURCE_META_SQL: &'static str = "SELECT id, metadata FROM documents WHERE source = ?1";

pub const SOURCES_SQL: &'static str = "SELECT DISTINCT source FROM documents";

/// Metadata with the size and the time of the file.
pub open spec fn sized_meta(meta: JsonView, size: int, mtime: int) -> JsonView {
    meta.with("size"@, JsonView::Int(size)).with("mtime"@, JsonView::Int(mtime))
}

/// Metadata that say whether the file is gone.
pub open spec fn marked_meta(meta: JsonView, missing: bool, now: Seq<char>) -> JsonView {
    if missing {
        meta.with("file_missing"@, JsonView::Bool(true)).with("missing_at"@, JsonView::Str(now))
    } else {
        meta.without("file_missing"@).without("missing_at"@)
    }
}

/// Sets the metadata of a document.
pub open spec fn meta_statement(meta: JsonView, id: Seq<char>) -> StatementView {
    with_texts(SET_METADATA_SQL@, seq![json_written(meta), id])
}

/// Metadata with the size and the time of the file.
pub fn with_size(meta: Json, size: u64, mtime: u64) -> (r: Json)
    ensures
        r@ == sized_meta(meta@, size as int, mtime as int),
{
    meta.with("size", Json::Unsigned(size)).with("mtime", Json::Unsigned(mtime))
}

/// Metadata that say whether the file is gone.
pub fn with_missing(meta: Json, missing: bool, now: &str) -> (r: Json)
    ensures
        r@ == marked_meta(meta@, missing, now@),
{
    if missing {
        meta.with("file_missing", Json::Bool(true)).with("missing_at", Json::text(now))
    } else {
        meta.without("file_missing").without("missing_at")
    }
}

fn set_metadata(meta: &Json, id: &str) -> (r: Statement)
    ensures
        r@ == meta_statement(meta@, id@),
{
    let t = print_json(meta);
    bind2(SET_METADATA_SQL, t.as_str(), id)
}

/// Refreshes the size and the time in the metadata of a document.
pub fn update_current_meta(id: &str, metadata: &str, size: u64, mtime: u64) -> (r: Statement)
    ensures
        r@ == meta_statement(
            sized_meta(object_read(json_read(metadata@)), size as int, mtime as int),
            id@,
        ),
{
    let meta = with_size(parse_json_obj(metadata), size, mtime);
    set_metadata(&meta, id)
}

/// Sets or clears the mark of a missing file in the metadata of a document.
pub fn mark_missing(id: &str, metadata: &str, missing: bool, now: &str) -> (r: Statement)
    ensures
        r@ == meta_statement(marked_meta(object_read(json_read(metadata@)), missing, now@), id@),
{
    let meta = with_missing(parse_json_obj(metadata), missing, now);
    set_metadata(&meta, id)
}

/// Records in the metadata of a document why its extraction failed.
pub fn record_failure(id: &str, metadata: &str, why: &str) -> (r: Statement)
    ensures
        r@ == meta_statement(
            object_read(json_read(metadata@)).with("extraction_error"@, JsonView::Str(why@)),
            id@,
        ),
{
    let meta = parse_json_obj(metadata).with("extraction_error", Json::text(why));
    set_metadata(&meta, id)
}

// ---------------------------------------------------------------------------
// Synchronisation
// ---------------------------------------------------------------------------

/// What a file of the data directory is to its registration.
#[derive(Debug, Clone, Copy, PartialEq, Eq, Structural)]
pub enum SyncAction {
    /// Not registered.
    New,
    /// Its size or time is another.
    Changed,
    Unchanged,
}

/// What a file is to the metadata of its current version.
pub open spec fn sync_state(meta: Option<JsonView>, size: int, mtime: int) -> SyncAction {
    match meta {
        None => SyncAction::New,
        Some(m) => {
            let known_size = match m.u64_at("size"@) {
                Some(n) => n,
                None => 0,
            };
            let known_time = match m.u64_at("mtime"@) {
                Some(n) => n,
                None => 0,
            };
            if known_size != size || known_time != mtime {
                SyncAction::Changed
            } else {
                SyncAction::Unchanged
            }
        },
    }
}

/// What a file is to the metadata of its current version.
pub fn sync_decision(meta: Option<&Json>, size: u64, mtime: u64) -> (r: SyncAction)
    ensures
        r == sync_state(crate::json_model::opt_json(meta), size as int, mtime as int),
{
    match meta {
        None => SyncAction::New,
        Some(m) => {
            let known_size: u64 = match m.u64_at("size") {
                Some(n) => n,
                None => 0,
            };
            let known_time: u64 = match m.u64_at("mtime") {
                Some(n) => n,
                None => 0,
            };
            if known_size != size || known_time != mtime {
                SyncAction::Changed
            } else {
                SyncAction::Unchanged
            }
        },
    }
}

/// What a file is to its registration, whose metadata are given as text.
pub fn sync_action(metadata: Option<&str>, size: u64, mtime: u64) -> (r: SyncAction)
    ensures
        r == sync_state(
            match opt_str_view(metadata) {
                Some(t) => Some(object_read(json_read(t))),
                None => None,
            },
            size as int,
            mtime as int,
        ),
{
    match metadata {
        None => sync_decision(None, size, mtime),
        Some(t) => {
            let m = parse_json_obj(t);
            sync_decision(Some(&m), size, mtime)
        },
    }
}

/// Whether the files below a directory of the given name are registered: not where
/// it is hidden, its name beginning with a dot.
pub fn is_scanned(name: Option<&str>) -> (r: bool)
    ensures
        r == !(name is Some && "."@.is_prefix_of(name->0@)),
{
    match name {
        Some(n) => !starts_with(n, "."),
        None => true,
    }
}

/// What a synchronisation counts.
#[derive(Debug, Clone, Copy, PartialEq, Eq, Structural)]
pub struct SyncTally {
    pub added: usize,
    pub updated: usize,
    pub unchanged: usize,
}

/// The counts after a file; `outcome` is the report of its registration, empty
/// where it was not registered.
pub open spec fn tallied(t: SyncTally, action: SyncAction, outcome: Seq<char>) -> SyncTally {
    match action {
        SyncAction::New => if "registered: "@.is_prefix_of(outcome) {
            SyncTally { added: (t.added + 1) as usize, ..t }
        } else {
            t
        },
        SyncAction::Changed => if "updated: "@.is_prefix_of(outcome) {
            SyncTally { updated: (t.updated + 1) as usize, ..t }
        } else {
            SyncTally { unchanged: (t.unchanged + 1) as usize, ..t }
        },
        SyncAction::Unchanged => SyncTally { unchanged: (t.unchanged + 1) as usize, ..t },
    }
}

impl SyncTally {
    /// Nothing counted.
    pub fn new() -> (r: SyncTally)
        ensures
            r == (SyncTally { added: 0, updated: 0, unchanged: 0 }),
    {
        SyncTally { added: 0, updated: 0, unchanged: 0 }
    }

    /// Counts a file; whether the size and time of its metadata are to be
    /// refreshed, which holds of every file counted as unchanged.
    pub fn count(&mut self, action: SyncAction, outcome: &str) -> (r: bool)
        requires
            old(self).added < usize::MAX,
            old(self).updated < usize::MAX,
            old(self).unchanged < usize::MAX,
        ensures
            *final(self) == tallied(*old(self), action, outcome@),
            r == (final(self).unchanged > old(self).unchanged),
    {
        match action {
            SyncAction::New => {
                if starts_with(outcome, "registered: ") {
                    self.added = self.added + 1;
                }
                false
            },
            SyncAction::Changed => {
                if starts_with(outcome, "updated: ") {
                    self.updated = self.updated + 1;
                    false
                } else {
                    self.unchanged = self.unchanged + 1;
                    true
                }
            },
            SyncAction::Unchanged => {
                self.unchanged = self.unchanged + 1;
                true
            },
        }
    }

    /// The report of a synchronisation.
    pub fn report(&self, orphans: &str) -> (r: String)
        ensures
            r@ == "KB sync done: added "@ + decimal(self.added as nat) + ", updated "@ + decimal(
                self.updated as nat,
            ) + ", unchanged "@ + decimal(self.unchanged as nat) + "."@ + orphans@,
    {
        let a = usize_text(self.added);
        let u = usize_text(self.updated);
        let n = usize_text(self.unchanged);
        let mut s = String::from_str("KB sync done: added ");
        s.append(a.as_str());
        s.append(", updated ");
        s.append(u.as_str());
        s.append(", unchanged ");
        s.append(n.as_str());
        s.append(".");
        s.append(orphans);
        s
    }
}

/// The checks for references to rows that are gone, each with its label.
pub open spec fn orphan_checks_of() -> Seq<(Seq<char>, Seq<char>)> {
    seq![
        (
            "relations.source_id orphan"@,
            "SELECT COUNT(*) FROM relations r WHERE NOT EXISTS (SELECT 1 FROM entities e WHERE e.id=r.source_id) AND NOT EXISTS (SELECT 1 FROM claims c WHERE c.id=r.source_id) AND NOT EXISTS (SELECT 1 FROM events ev WHERE ev.id=r.source_id) AND NOT EXISTS (SELECT 1 FROM document_units u WHERE u.id=r.source_id)"@,
        ),
        (
            "relations.target_id orphan"@,
            "SELECT COUNT(*) FROM relations r WHERE NOT EXISTS (SELECT 1 FROM entities e WHERE e.id=r.target_id) AND NOT EXISTS (SELECT 1 FROM claims c WHERE c.id=r.target_id) AND NOT EXISTS (SELECT 1 FROM events ev WHERE ev.id=r.target_id) AND NOT EXISTS (SELECT 1 FROM document_units u WHERE u.id=r.target_id)"@,
        ),
        (
            "conditions.target_id orphan"@,
            "SELECT COUNT(*) FROM conditions cd WHERE NOT EXISTS (SELECT 1 FROM claims c WHERE c.id=cd.target_id) AND NOT EXISTS (SELECT 1 FROM events ev WHERE ev.id=cd.target_id)"@,
        ),
        (
            "evidence.target_id orphan"@,
            "SELECT COUNT(*) FROM evidence ev WHERE NOT EXISTS (SELECT 1 FROM entities e WHERE e.id=ev.target_id) AND NOT EXISTS (SELECT 1 FROM claims c WHERE c.id=ev.target_id) AND NOT EXISTS (SELECT 1 FROM relations r WHERE r.id=ev.target_id) AND NOT EXISTS (SELECT 1 FROM events evt WHERE evt.id=ev.target_id) AND NOT EXISTS (SELECT 1 FROM conditions cd WHERE cd.id=ev.target_id)"@,
        ),
        (
            "evidence.source_unit_id orphan"@,
            "SELECT COUNT(*) FROM evidence ev WHERE ev.source_unit_id IS NOT NULL AND NOT EXISTS (SELECT 1 FROM document_units u WHERE u.id=ev.source_unit_id)"@,
        ),
        (
            "claims.subject_id orphan"@,
            "SELECT COUNT(*) FROM claims c WHERE c.subject_id IS NOT NULL AND NOT EXISTS (SELECT 1 FROM entities e WHERE e.id=c.subject_id)"@,
        ),
        (
            "claims.object_id orphan"@,
            "SELECT COUNT(*) FROM claims c WHERE c.object_id IS NOT NULL AND NOT EXISTS (SELECT 1 FROM entities e WHERE e.id=c.object_id)"@,
        ),
        (
            "events.subject_id orphan"@,
            "SELECT COUNT(*) FROM events ev WHERE ev.subject_id IS NOT NULL AND NOT EXISTS (SELECT 1 FROM entities e WHERE e.id=ev.subject_id)"@,
        ),
    ]
}

/// The checks for references to rows that are gone, each with its label.
pub fn orphan_checks() -> (r: Vec<(String, String)>)
    ensures
        pairs_view(r@) == orphan_checks_of(),
{
    let mut v: Vec<(String, String)> = Vec::new();
    v.push((
        "relations.source_id orphan".to_owned(),
        "SELECT COUNT(*) FROM relations r WHERE NOT EXISTS (SELECT 1 FROM entities e WHERE e.id=r.source_id) AND NOT EXISTS (SELECT 1 FROM claims c WHERE c.id=r.source_id) AND NOT EXISTS (SELECT 1 FROM events ev WHERE ev.id=r.source_id) AND NOT EXISTS (SELECT 1 FROM document_units u WHERE u.id=r.source_id)".to_owned(),
    ));
    v.push((
        "relations.target_id orphan".to_owned(),
        "SELECT COUNT(*) FROM relations r WHERE NOT EXISTS (SELECT 1 FROM entities e WHERE e.id=r.target_id) AND NOT EXISTS (SELECT 1 FROM claims c WHERE c.id=r.target_id) AND NOT EXISTS (SELECT 1 FROM events ev WHERE ev.id=r.target_id) AND NOT EXISTS (SELECT 1 FROM document_units u WHERE u.id=r.target_id)".to_owned(),
    ));
    v.push((
        "conditions.target_id orphan".to_owned(),
        "SELECT COUNT(*) FROM conditions cd WHERE NOT EXISTS (SELECT 1 FROM claims c WHERE c.id=cd.target_id) AND NOT EXISTS (SELECT 1 FROM events ev WHERE ev.id=cd.target_id)".to_owned(),
    ));
    v.push((
        "evidence.target_id orphan".to_owned(),
        "SELECT COUNT(*) FROM evidence ev WHERE NOT EXISTS (SELECT 1 FROM entities e WHERE e.id=ev.target_id) AND NOT EXISTS (SELECT 1 FROM claims c WHERE c.id=ev.target_id) AND NOT EXISTS (SELECT 1 FROM relations r WHERE r.id=ev.target_id) AND NOT EXISTS (SELECT 1 FROM events evt WHERE evt.id=ev.target_id) AND NOT EXISTS (SELECT 1 FROM conditions cd WHERE cd.id=ev.target_id)".to_owned(),
    ));
    v.push((
        "evidence.source_unit_id orphan".to_owned(),
        "SELECT COUNT(*) FROM evidence ev WHERE ev.source_unit_id IS NOT NULL AND NOT EXISTS (SELECT 1 FROM document_units u WHERE u.id=ev.source_unit_id)".to_owned(),
    ));
    v.push((
        "claims.subject_id orphan".to_owned(),
        "SELECT COUNT(*) FROM claims c WHERE c.subject_id IS NOT NULL AND NOT EXISTS (SELECT 1 FROM entities e WHERE e.id=c.subject_id)".to_owned(),
    ));
    v.push((
        "claims.object_id orphan".to_owned(),
        "SELECT COUNT(*) FROM claims c WHERE c.object_id IS NOT NULL AND NOT EXISTS (SELECT 1 FROM entities e WHERE e.id=c.object_id)".to_owned(),
    ));
    v.push((
        "events.subject_id orphan".to_owned(),
        "SELECT COUNT(*) FROM events ev WHERE ev.subject_id IS NOT NULL AND NOT EXISTS (SELECT 1 FROM entities e WHERE e.id=ev.subject_id)".to_owned(),
    ));
    proof {
        assert(pairs_view(v@) =~= orphan_checks_of());
    }
    v
}

/// The report of the first `n` checks; a check that failed counts as clean.
pub open spec fn orphans_text(counts: Seq<Option<i64>>, n: int) -> Seq<char>
    decreases n,
{
    if n <= 0 {
        Seq::empty()
    } else {
        match counts[n - 1] {
            Some(c) => if c > 0 {
                orphans_text(counts, n - 1) + ("\n  orphan "@ + orphan_checks_of()[n - 1].0 + ": "@
                    + decimal_int(c as int))
            } else {
                orphans_text(counts, n - 1)
            },
            None => orphans_text(counts, n - 1),
        }
    }
}

/// Reports the checks that found something.
pub fn orphan_report(counts: &Vec<Option<i64>>) -> (r: String)
    requires
        counts@.len() == orphan_checks_of().len(),
    ensures
        r@ == orphans_text(counts@, counts@.len() as int),
{
    let checks = orphan_checks();
    proof {
        assert(checks@.len() == pairs_view(checks@).len());
    }
    let mut out = String::new();
    let mut i: usize = 0;
    proof {
        assert(out@ =~= orphans_text(counts@, 0));
    }
    while i < counts.len()
        invariant
            i <= counts@.len(),
            counts@.len() == checks@.len(),
            pairs_view(checks@) == orphan_checks_of(),
            out@ == orphans_text(counts@, i as int),
        decreases counts@.len() - i,
    {
        match counts[i] {
            Some(c) => {
                if c > 0 {
                    proof {
                        assert(pairs_view(checks@)[i as int].0 == checks@[i as int].0@);
                    }
                    let d = i64_text(c);
                    let mut line = String::from_str("\n  orphan ");
                    line.append(checks[i].0.as_str());
                    line.append(": ");
                    line.append(d.as_str());
                    out.append(line.as_str());
                }
            },
            None => {},
        }
        i = i + 1;
    }
    out
}

// ---------------------------------------------------------------------------
// Backup
// ---------------------------------------------------------------------------

/// The destination that was asked for; `None` where the default is meant.
pub fn backup_destination<'a>(path: Option<&'a str>) -> (r: Option<&'a str>)
    ensures
        opt_str_view(r) == match opt_str_view(path) {
            Some(p) => if trimmed(p).len() > 0 {
                Some(p)
            } else {
                None
            },
            None => None,
        },
{
    match path {
        Some(p) => if trim(p).is_empty() {
            None
        } else {
            Some(p)
        },
        None => None,
    }
}

/// The default name of a backup taken at a time.
pub fn backup_name(stamp: &str) -> (r: String)
    ensures
        r@ == "library-"@ + stamp@ + ".sqlite"@,
{
    let mut s = String::from_str("library-");
    s.append(stamp);
    s.append(".sqlite");
    s
}

/// The statement that writes a snapshot of the database to a file.
pub fn backup_sql(dest: &str) -> (r: String)
    ensures
        r@ == "VACUUM INTO '"@ + replaced(dest@, "'"@, "''"@) + "'"@,
{
    let q = escape_sql_string(dest);
    let mut s = String::from_str("VACUUM INTO '");
    s.append(q.as_str());
    s.append("'");
    s
}

// ---------------------------------------------------------------------------
// Registration
// ---------------------------------------------------------------------------

/// Asks for the current version of a source.
pub const EXISTING_SQL: &'static str = "SELECT id, version, file_hash FROM documents WHERE source = ?1 AND superseded_by IS NULL";

pub const INSERT_DOCUMENT_SQL: &'static str = "INSERT INTO documents (id, title, source, document_type, version, analysis_status, file_hash, metadata, annotations) VALUES (?1, ?2, ?3, ?4, ?5, 'pending', ?6, ?7, '{}')";

pub const SUPERSEDE_SQL: &'static str = "UPDATE documents SET superseded_by = ?1 WHERE id = ?2";

pub const FAILED_SQL: &'static str = "UPDATE documents SET analysis_status = 'failed' WHERE id = ?1";

/// A file to register.
pub struct FileFacts {
    pub source: String,
    /// The name without its extension.
    pub stem: Option<String>,
    pub extension: Option<String>,
    /// The digest of the content.
    pub hash: String,
    pub size: u64,
    pub mtime: u64,
}

/// The current version of a source.
pub struct ExistingVersion {
    pub id: String,
    pub version: String,
    pub hash: String,
}

/// What a registration comes to.
#[derive(Debug, Clone, Copy, PartialEq, Eq, Structural)]
pub enum RegisterKind {
    /// The content is that of the current version.
    Skipped,
    /// A new version.
    Updated,
    /// A new document.
    Registered,
}

/// How a registration is reported.
pub open spec fn kind_text(k: RegisterKind) -> Seq<char> {
    match k {
        RegisterKind::Skipped => "skipped"@,
        RegisterKind::Updated => "updated"@,
        RegisterKind::Registered => "registered"@,
    }
}

/// A registration: the document, its version and the statements to run.
pub struct Registration {
    pub kind: RegisterKind,
    pub id: String,
    pub version: String,
    pub statements: Vec<Statement>,
}

/// A registration.
pub struct RegistrationView {
    pub kind: RegisterKind,
    pub id: Seq<char>,
    pub version: Seq<char>,
    pub statements: Seq<StatementView>,
}

impl View for Registration {
    type V = RegistrationView;

    open spec fn view(&self) -> RegistrationView {
        RegistrationView {
            kind: self.kind,
            id: self.id@,
            version: self.version@,
            statements: statements_view(self.statements@),
        }
    }
}

/// The type of a document, by its extension.
pub open spec fn type_of(extension: Option<Seq<char>>) -> Seq<char> {
    lowercase_of(text_or(extension, "txt"@))
}

/// The type of a document, by its extension.
pub fn document_type(extension: Option<&str>) -> (r: String)
    ensures
        r@ == type_of(opt_str_view(extension)),
{
    to_lowercase(str_or(extension, "txt"))
}

/// The statement that inserts a document.
pub open spec fn document_statement(
    f: FileFacts,
    kind: Seq<char>,
    id: Seq<char>,
    version: Seq<char>,
) -> StatementView {
    with_texts(
        INSERT_DOCUMENT_SQL@,
        seq![
            id,
            text_or(opt_view(f.stem), "untitled"@),
            f.source@,
            kind,
            version,
            f.hash@,
            json_written(sized_meta(empty_object(), f.size as int, f.mtime as int)),
        ],
    )
}

/// The number of the version after one.
pub open spec fn next_version(version: Seq<char>) -> int {
    match parsed_signed(version, 0x7fff_ffff_ffff_ffff) {
        Some(n) => n + 1,
        None => 1,
    }
}

/// The registration of a file: nothing where the content is known, else a new
/// version that supersedes the current one, or a new document.
pub open spec fn registration(
    f: FileFacts,
    kind: Seq<char>,
    existing: Option<ExistingVersion>,
    new_id: Seq<char>,
) -> RegistrationView {
    match existing {
        Some(e) => if e.hash@ == f.hash@ {
            RegistrationView {
                kind: RegisterKind::Skipped,
                id: e.id@,
                version: e.version@,
                statements: Seq::empty(),
            }
        } else {
            let version = decimal_int(next_version(e.version@));
            RegistrationView {
                kind: RegisterKind::Updated,
                id: new_id,
                version,
                statements: seq![
                    document_statement(f, kind, new_id, version),
                    with_texts(SUPERSEDE_SQL@, seq![new_id, e.id@]),
                ],
            }
        },
        None => RegistrationView {
            kind: RegisterKind::Registered,
            id: new_id,
            version: "1"@,
            statements: seq![document_statement(f, kind, new_id, "1"@)],
        },
    }
}

fn insert_document(f: &FileFacts, kind: &str, id: &str, version: &str) -> (r: Statement)
    ensures
        r@ == document_statement(*f, kind@, id@, version@),
{
    let title = match &f.stem {
        Some(s) => s.as_str(),
        None => "untitled",
    };
    let meta = with_size(Json::object(), f.size, f.mtime);
    let meta_text = print_json(&meta);
    let mut p: Vec<Cell> = Vec::new();
    p.push(Cell::text(id));
    p.push(Cell::text(title));
    p.push(Cell::text(f.source.as_str()));
    p.push(Cell::text(kind));
    p.push(Cell::text(version));
    p.push(Cell::text(f.hash.as_str()));
    p.push(Cell::Text(meta_text));
    proof {
        assert(cells_view(p@) =~= document_statement(*f, kind@, id@, version@).params);
    }
    Statement { sql: INSERT_DOCUMENT_SQL.to_owned(), params: p }
}

/// Plans the registration of a file whose document would get the identifier
/// `new_id`.
pub fn plan_registration(f: &FileFacts, existing: &Option<ExistingVersion>, new_id: &str) -> (r:
    Registration)
    requires
        (*existing) is Some && existing->0.hash@ != f.hash@ ==> next_version(existing->0.version@)
            <= i64::MAX,
    ensures
        r@ == registration(*f, type_of(opt_view(f.extension)), *existing, new_id@),
{
    let ext = match &f.extension {
        Some(e) => Some(e.as_str()),
        None => None,
    };
    let kind = document_type(ext);
    let ghost want = registration(*f, kind@, *existing, new_id@);
    let mut statements: Vec<Statement> = Vec::new();
    match existing {
        Some(e) => {
            if str_eq(e.hash.as_str(), f.hash.as_str()) {
                proof {
                    assert(statements_view(statements@) =~= want.statements);
                }
                return Registration {
                    kind: RegisterKind::Skipped,
                    id: e.id.clone(),
                    version: e.version.clone(),
                    statements,
                };
            }
            let next: i64 = match parse_i64(e.version.as_str()) {
                Some(n) => n + 1,
                None => 1,
            };
            let version = i64_text(next);
            statements.push(insert_document(f, kind.as_str(), new_id, version.as_str()));
            statements.push(bind2(SUPERSEDE_SQL, new_id, e.id.as_str()));
            proof {
                assert(statements_view(statements@) =~= want.statements);
            }
            Registration {
                kind: RegisterKind::Updated,
                id: new_id.to_owned(),
                version,
                statements,
            }
        },
        None => {
            statements.push(insert_document(f, kind.as_str(), new_id, "1"));
            proof {
                assert(statements_view(statements@) =~= want.statements);
            }
            Registration {
                kind: RegisterKind::Registered,
                id: new_id.to_owned(),
                version: "1".to_owned(),
                statements,
            }
        },
    }
}

impl Registration {
    /// The report of the registration; `status` is the state of its extraction.
    pub fn report(&self, source: &str, status: &str) -> (r: String)
        ensures
            r@ == match self.kind {
                RegisterKind::Skipped => "skipped: "@ + source@ + " (v"@ + self.version@
                    + ", unchanged content)"@,
                k => kind_text(k) + ": "@ + source@ + " (id "@ + self.id@ + ", v"@ + self.version@
                    + ", status "@ + status@ + ")"@,
            },
    {
        match self.kind {
            RegisterKind::Skipped => {
                let mut s = String::from_str("skipped: ");
                s.append(source);
                s.append(" (v");
                s.append(self.version.as_str());
                s.append(", unchanged content)");
                s
            },
            k => {
                let mut s = String::from_str(
                    match k {
                        RegisterKind::Updated => "updated",
                        _ => "registered",
                    },
                );
                s.append(": ");
                s.append(source);
                s.append(" (id ");
                s.append(self.id.as_str());
                s.append(", v");
                s.append(self.version.as_str());
                s.append(", status ");
                s.append(status);
                s.append(")");
                s
            },
        }
    }
}

/// A file with the content of the current version changes nothing; any other
/// content gives exactly one new document, under the new identifier, and
/// supersedes the version that was current.
pub proof fn registration_keeps_versions_linked(
    f: FileFacts,
    kind: Seq<char>,
    existing: Option<ExistingVersion>,
    new_id: Seq<char>,
)
    ensures
        ({
            let r = registration(f, kind, existing, new_id);
            &&& r.kind == RegisterKind::Skipped <==> existing is Some && existing->0.hash@ == f.hash@
            &&& r.kind == RegisterKind::Skipped ==> r.statements.len() == 0 && r.id
                == existing->0.id@
            &&& r.kind != RegisterKind::Skipped ==> {
                &&& r.id == new_id
                &&& r.statements[0] == document_statement(f, kind, new_id, r.version)
                &&& r.statements.len() == if existing is Some {
                    2nat
                } else {
                    1nat
                }
                &&& existing is Some ==> r.statements[1] == with_texts(
                    SUPERSEDE_SQL@,
                    seq![new_id, existing->0.id@],
                )
            }
        }),
{
}

// ---------------------------------------------------------------------------
// Extraction
// ---------------------------------------------------------------------------

/// The paragraphs among the first `n` parts: trimmed, without the empty ones.
pub open spec fn kept_paragraphs(parts: Seq<Seq<char>>, n: int) -> Seq<Seq<char>>
    decreases n,
{
    if n <= 0 {
        Seq::empty()
    } else if trimmed(parts[n - 1]).len() > 0 {
        kept_paragraphs(parts, n - 1).push(trimmed(parts[n - 1]))
    } else {
        kept_paragraphs(parts, n - 1)
    }
}

/// The paragraphs of a text: its parts between blank lines.
pub open spec fn paragraphs_of(text: Seq<char>) -> Seq<Seq<char>> {
    let parts = split_on(replaced(text, "\r\n"@, "\n"@), "\n\n"@);
    kept_paragraphs(parts, parts.len() as int)
}

/// Splits a text into trimmed paragraphs that are not empty.
pub fn split_paragraphs(text: &str) -> (r: Vec<String>)
    ensures
        views(r@) == paragraphs_of(text@),
{
    proof {
        reveal_strlit("\r\n");
        reveal_strlit("\n\n");
    }
    let norm = replace(text, "\r\n", "\n");
    let parts = split(norm.as_str(), "\n\n");
    let ghost all = views(parts@);
    let mut out: Vec<String> = Vec::new();
    let mut i: usize = 0;
    proof {
        assert(views(out@) =~= kept_paragraphs(all, 0));
    }
    while i < parts.len()
        invariant
            i <= parts@.len(),
            all == views(parts@),
            views(out@) == kept_paragraphs(all, i as int),
        decreases parts@.len() - i,
    {
        let t = trim(parts[i].as_str());
        if !t.is_empty() {
            let s = t.to_owned();
            proof {
                lemma_views_push(out@, s);
            }
            out.push(s);
        }
        i = i + 1;
    }
    out
}

proof fn lemma_kept(parts: Seq<Seq<char>>, n: int, i: int)
    requires
        0 <= i < kept_paragraphs(parts, n).len(),
    ensures
        kept_paragraphs(parts, n)[i].len() > 0,
        !is_space(kept_paragraphs(parts, n)[i][0]),
        !is_space(kept_paragraphs(parts, n)[i].last()),
    decreases n,
{
    if n > 0 {
        let t = trimmed(parts[n - 1]);
        if t.len() > 0 && i == kept_paragraphs(parts, n).len() - 1 {
            lemma_trimmed_ends(parts[n - 1]);
        } else {
            lemma_kept(parts, n - 1, i);
        }
    }
}

proof fn lemma_trimmed_ends(s: Seq<char>)
    requires
        trimmed(s).len() > 0,
    ensures
        !is_space(trimmed(s)[0]),
        !is_space(trimmed(s).last()),
{
    crate::text::lemma_space_end(s, 0);
    let t = crate::text::trimmed_start(s);
    crate::text::lemma_text_end(t, t.len() as int);
    crate::text::lemma_text_end(s, s.len() as int);
}

/// A paragraph is never empty and never begins or ends with white space.
pub proof fn paragraphs_are_trimmed(text: Seq<char>, i: int)
    requires
        0 <= i < paragraphs_of(text).len(),
    ensures
        paragraphs_of(text)[i].len() > 0,
        !is_space(paragraphs_of(text)[i][0]),
        !is_space(paragraphs_of(text)[i].last()),
{
    let parts = split_on(replaced(text, "\r\n"@, "\n"@), "\n\n"@);
    lemma_kept(parts, parts.len() as int, i);
}

/// The metadata of an extracted unit.
pub open spec fn unit_meta(doc_id: Seq<char>, page: Option<usize>, created: Seq<char>) -> JsonView {
    let source = empty_object().with("document_id"@, JsonView::Str(doc_id));
    empty_object().with(
        "source"@,
        match page {
            Some(p) => source.with("page"@, JsonView::Int(p as int)),
            None => source,
        },
    ).with(
        "extraction"@,
        empty_object().with("method"@, JsonView::Str("machine"@)).with(
            "parser"@,
            JsonView::Str(
                if page is Some {
                    "pdf-text"@
                } else {
                    "text-paragraph"@
                },
            ),
        ).with("version"@, JsonView::Str(PARSER_VERSION@)).with(
            "created_at"@,
            JsonView::Str(created),
        ),
    )
}

/// The metadata of an extracted unit, as text.
pub fn unit_metadata(doc_id: &str, page: Option<usize>, created: &str) -> (r: String)
    ensures
        r@ == json_written(unit_meta(doc_id@, page, created@)),
{
    let source = Json::object().with("document_id", Json::text(doc_id));
    let source = match page {
        Some(p) => source.with("page", Json::Unsigned(p as u64)),
        None => source,
    };
    let parser = match page {
        Some(_) => "pdf-text",
        None => "text-paragraph",
    };
    let extraction = Json::object().with("method", Json::text("machine")).with(
        "parser",
        Json::text(parser),
    ).with("version", Json::text(PARSER_VERSION)).with("created_at", Json::text(created));
    let meta = Json::object().with("source", source).with("extraction", extraction);
    print_json(&meta)
}

/// Asks for a unit by its place in a document.
pub const FIND_UNIT_SQL: &'static str = "SELECT id FROM document_units WHERE document_id=?1 AND unit_type=?2 AND position=?3 AND ((?4 IS NULL AND parent_id IS NULL) OR parent_id=?4)";

pub const INSERT_UNIT_SQL: &'static str = "INSERT INTO document_units (id, document_id, parent_id, unit_type, text, position, metadata, annotations, analysis_run_id, obsolete) VALUES (?1, ?2, ?3, ?4, ?5, ?6, ?7, '{}', NULL, 0)";

/// The statement that inserts a unit into a document.
pub open spec fn unit_insertion(u: UnitView, id: Seq<char>, doc_id: Seq<char>) -> StatementView {
    StatementView {
        sql: INSERT_UNIT_SQL@,
        params: seq![
            CellView::Text(id),
            CellView::Text(doc_id),
            text_cell(u.parent_id),
            CellView::Text(u.unit_type),
            CellView::Text(u.text),
            CellView::Whole(u.position),
            CellView::Text(u.metadata),
        ],
    }
}

/// The query for the unit at the same place of a document.
pub open spec fn unit_lookup(u: UnitView, doc_id: Seq<char>) -> StatementView {
    StatementView {
        sql: FIND_UNIT_SQL@,
        params: seq![
            CellView::Text(doc_id),
            CellView::Text(u.unit_type),
            CellView::Whole(u.position),
            text_cell(u.parent_id),
        ],
    }
}

/// A part of a document.
pub struct Unit {
    pub parent_id: Option<String>,
    /// `page` or `paragraph`.
    pub unit_type: String,
    pub position: i64,
    pub text: String,
    pub metadata: String,
}

impl Unit {
    /// Asks for the unit at the same place of a document.
    pub fn lookup(&self, doc_id: &str) -> (r: Statement)
        ensures
            r@ == unit_lookup(self@, doc_id@),
            r@ == (StatementView {
                sql: FIND_UNIT_SQL@,
                params: seq![
                    CellView::Text(doc_id@),
                    CellView::Text(self.unit_type@),
                    CellView::Whole(self.position as int),
                    text_cell(opt_view(self.parent_id)),
                ],
            }),
    {
        let mut p: Vec<Cell> = Vec::new();
        p.push(Cell::text(doc_id));
        p.push(Cell::text(self.unit_type.as_str()));
        p.push(Cell::Whole(self.position));
        p.push(Cell::owned_text(&self.parent_id));
        proof {
            assert(cells_view(p@) =~= seq![
                CellView::Text(doc_id@),
                CellView::Text(self.unit_type@),
                CellView::Whole(self.position as int),
                text_cell(opt_view(self.parent_id)),
            ]);
        }
        Statement { sql: FIND_UNIT_SQL.to_owned(), params: p }
    }

    /// Inserts the unit into a document.
    pub fn insertion(&self, id: &str, doc_id: &str) -> (r: Statement)
        ensures
            r@ == unit_insertion(self@, id@, doc_id@),
            r@ == (StatementView {
                sql: INSERT_UNIT_SQL@,
                params: seq![
                    CellView::Text(id@),
                    CellView::Text(doc_id@),
                    text_cell(opt_view(self.parent_id)),
                    CellView::Text(self.unit_type@),
                    CellView::Text(self.text@),
                    CellView::Whole(self.position as int),
                    CellView::Text(self.metadata@),
                ],
            }),
    {
        let mut p: Vec<Cell> = Vec::new();
        p.push(Cell::text(id));
        p.push(Cell::text(doc_id));
        p.push(Cell::owned_text(&self.parent_id));
        p.push(Cell::text(self.unit_type.as_str()));
        p.push(Cell::text(self.text.as_str()));
        p.push(Cell::Whole(self.position));
        p.push(Cell::text(self.metadata.as_str()));
        proof {
            assert(cells_view(p@) =~= seq![
                CellView::Text(id@),
                CellView::Text(doc_id@),
                text_cell(opt_view(self.parent_id)),
                CellView::Text(self.unit_type@),
                CellView::Text(self.text@),
                CellView::Whole(self.position as int),
                CellView::Text(self.metadata@),
            ]);
        }
        Statement { sql: INSERT_UNIT_SQL.to_owned(), params: p }
    }
}

/// What a unit is.
pub struct UnitView {
    pub parent_id: Option<Seq<char>>,
    pub unit_type: Seq<char>,
    pub position: int,
    pub text: Seq<char>,
    pub metadata: Seq<char>,
}

impl View for Unit {
    type V = UnitView;

    open spec fn view(&self) -> UnitView {
        UnitView {
            parent_id: opt_view(self.parent_id),
            unit_type: self.unit_type@,
            position: self.position as int,
            text: self.text@,
            metadata: self.metadata@,
        }
    }
}

/// The contents of a list of units.
pub open spec fn units_view(v: Seq<Unit>) -> Seq<UnitView> {
    v.map_values(|u: Unit| u@)
}

/// The paragraphs of a text as units below `parent`, numbered from zero.
pub open spec fn paragraph_units(
    text: Seq<char>,
    parent: Option<Seq<char>>,
    metadata: Seq<char>,
) -> Seq<UnitView> {
    Seq::new(
        paragraphs_of(text).len(),
        |i: int|
            UnitView {
                parent_id: parent,
                unit_type: "paragraph"@,
                position: i,
                text: paragraphs_of(text)[i],
                metadata,
            },
    )
}

/// The paragraphs of a text as units below `parent`, numbered from zero.
pub fn units_of_text(text: &str, parent: &Option<String>, metadata: &str) -> (r: Vec<Unit>)
    requires
        paragraphs_of(text@).len() <= i64::MAX,
    ensures
        units_view(r@) == paragraph_units(text@, opt_view(*parent), metadata@),
{
    let list = split_paragraphs(text);
    let ghost all = views(list@);
    let mut out: Vec<Unit> = Vec::new();
    let mut i: usize = 0;
    while i < list.len()
        invariant
            i <= list@.len(),
            all == views(list@),
            all == paragraphs_of(text@),
            all.len() <= i64::MAX,
            units_view(out@) =~= paragraph_units(text@, opt_view(*parent), metadata@).take(
                i as int,
            ),
        decreases list@.len() - i,
    {
        let u = Unit {
            parent_id: match parent {
                Some(p) => Some(p.clone()),
                None => None,
            },
            unit_type: "paragraph".to_owned(),
            position: i as i64,
            text: list[i].clone(),
            metadata: metadata.to_owned(),
        };
        let ghost before = out@;
        let ghost want = paragraph_units(text@, opt_view(*parent), metadata@);
        out.push(u);
        proof {
            assert(all[i as int] == list@[i as int]@);
            assert(u@ == want[i as int]);
            assert(units_view(out@) =~= units_view(before).push(u@));
            assert(want.take(i + 1) =~= want.take(i as int).push(want[i as int]));
        }
        i = i + 1;
    }
    proof {
        assert(out@.len() == units_view(out@).len());
    }
    out
}

/// The unit of a page of a document.
pub fn page_unit(page: usize, text: &str, metadata: &str) -> (r: Unit)
    requires
        page <= i64::MAX,
    ensures
        r@ == (UnitView {
            parent_id: None,
            unit_type: "page"@,
            position: page as int,
            text: text@,
            metadata: metadata@,
        }),
{
    Unit {
        parent_id: None,
        unit_type: "page".to_owned(),
        position: page as i64,
        text: text.to_owned(),
        metadata: metadata.to_owned(),
    }
}

} // verus!
