//! Laws of updates and queries of the knowledge base: an update changes what it is
//! asked to and nothing else, keeps its history, and a query only reads.

use vstd::prelude::*;
use vstd::string::*;

use crate::json_keys::{group_members, lemma_kb_keys};
use crate::json_model::{group_json, JsonView};
use crate::json_text::{json_written, json_read};
use crate::kb::{
    approx_rows, distinct_keys, json_of_db, merge_sets_removes_and_keeps, query_refusal, quoted,
    record_json, stat_rows, truncated, CellView, DbValue, StatementView, object_read,
};
use crate::kb_insert_laws::{lemma_marks, listing, mark, text_or_null};
use crate::kb_write::{
    row_read, update_asked, update_plan, updated_objects, UpdateView, HISTORY_SQL, row_update_plan,
    RowView,
};
use crate::text::{decimal, join_of, utf8_len};

verus! {

broadcast use {group_json, group_members};

// ---------------------------------------------------------------------------
// What an update is asked to do
// ---------------------------------------------------------------------------

/// An update is admitted exactly where it names a row of a kind that can be updated and
/// asks for something: attributes, annotations, or the mark of being obsolete. It then
/// asks for just what its arguments say.
pub proof fn updates_ask_for_what_is_given(args: JsonView)
    ensures
        ({
            let u = update_asked(args);
            let kind = args.str_at("target_type"@);
            let known = kind == Some("documents"@) || kind == Some("document_units"@) || kind == Some(
                "entities"@,
            ) || kind == Some("claims"@) || kind == Some("relations"@) || kind == Some(
                "conditions"@,
            ) || kind == Some("events"@) || kind == Some("evidence"@) || kind == Some(
                "canonical_entities"@,
            );
            let attributes = args.get("attributes"@) is Some && !(args.get("attributes"@)->0
                is Null);
            let annotations = args.get("annotations"@) is Some && !(args.get("annotations"@)->0
                is Null);
            let obsolete = args.get("obsolete"@) == Some(JsonView::Bool(true));
            &&& u is Ok <==> known && args.str_at("target_id"@) is Some && (attributes
                || annotations || obsolete)
            &&& u is Ok ==> {
                &&& u->Ok_0.target_type == kind->0
                &&& u->Ok_0.target_id == args.str_at("target_id"@)->0
                &&& attributes ==> u->Ok_0.attributes == args.get("attributes"@)
                &&& !attributes ==> u->Ok_0.attributes is None
                &&& annotations ==> u->Ok_0.annotations == args.get("annotations"@)
                &&& !annotations ==> u->Ok_0.annotations is None
                &&& u->Ok_0.obsolete == obsolete
                &&& u->Ok_0.reason == args.str_at("reason"@)
            }
        }),
{
    let t = crate::kb_schema::update_targets();
    assert(t.len() == 9);
    assert(t[0] == "documents"@ && t[1] == "document_units"@ && t[2] == "entities"@);
    assert(t[3] == "claims"@ && t[4] == "relations"@ && t[5] == "conditions"@);
    assert(t[6] == "events"@ && t[7] == "evidence"@ && t[8] == "canonical_entities"@);
}

/// The attributes and annotations of a row after an update: what the update gives a
/// value is set, what it gives a null is gone, and everything else stays; a row that is
/// marked obsolete says so.
pub proof fn updates_change_what_they_name(
    u: UpdateView,
    attributes: JsonView,
    annotations: JsonView,
    key: Seq<char>,
)
    requires
        attributes is Object && distinct_keys(attributes->Object_0),
        annotations is Object && distinct_keys(annotations->Object_0),
        u.attributes is Some ==> u.attributes->0 is Object && distinct_keys(
            u.attributes->0->Object_0,
        ),
        u.annotations is Some ==> u.annotations->0 is Object && distinct_keys(
            u.annotations->0->Object_0,
        ),
    ensures
        ({
            let out = updated_objects(u, attributes, annotations);
            &&& out is Ok
            &&& out->Ok_0.0.get(key) == after_patch(attributes, u.attributes, key)
            &&& key == "obsolete"@ && u.obsolete ==> out->Ok_0.1.get(key) == Some(
                JsonView::Bool(true),
            )
            &&& !(key == "obsolete"@ && u.obsolete) ==> out->Ok_0.1.get(key) == after_patch(
                annotations,
                u.annotations,
                key,
            )
        }),
{
    if u.attributes is Some {
        merge_sets_removes_and_keeps(attributes->Object_0, u.attributes->0->Object_0, key);
    }
    if u.annotations is Some {
        merge_sets_removes_and_keeps(annotations->Object_0, u.annotations->0->Object_0, key);
    }
}

/// The member of an object after a patch.
pub open spec fn after_patch(j: JsonView, patch: Option<JsonView>, key: Seq<char>) -> Option<
    JsonView,
> {
    match patch {
        None => j.get(key),
        Some(p) => match p.get(key) {
            None => j.get(key),
            Some(v) => if v is Null {
                None
            } else {
                Some(v)
            },
        },
    }
}

/// A patch that is no object is refused.
pub proof fn patches_are_objects(u: UpdateView, attributes: JsonView, annotations: JsonView)
    requires
        (u.attributes is Some && !(u.attributes->0 is Object)) || (u.annotations is Some
            && !(u.annotations->0 is Object)),
    ensures
        updated_objects(u, attributes, annotations) is Err,
{
}

// ---------------------------------------------------------------------------
// What an update does
// ---------------------------------------------------------------------------

/// The columns of the history.
pub open spec fn history_columns() -> Seq<Seq<char>> {
    seq![
        "id"@,
        "target_type"@,
        "target_id"@,
        "version"@,
        "annotations"@,
        "analysis_run_id"@,
        "created_by"@,
        "reason"@,
    ]
}

/// The first `n` marks.
pub open spec fn marks(n: nat) -> Seq<Seq<char>> {
    Seq::new(n, |i: int| mark(i + 1))
}

proof fn lemma_history_statement()
    ensures
        HISTORY_SQL@ == "INSERT INTO annotation_versions ("@ + listing(history_columns(), 8)
            + ") VALUES ("@ + listing(marks(8), 8) + ")"@,
{
    lemma_marks();
    reveal_strlit(
        "INSERT INTO annotation_versions (id, target_type, target_id, version, annotations, analysis_run_id, created_by, reason) VALUES (?1, ?2, ?3, ?4, ?5, ?6, ?7, ?8)",
    );
    reveal_strlit("INSERT INTO annotation_versions (");
    reveal_strlit("id");
    reveal_strlit("target_type");
    reveal_strlit("target_id");
    reveal_strlit("version");
    reveal_strlit("annotations");
    reveal_strlit("analysis_run_id");
    reveal_strlit("created_by");
    reveal_strlit("reason");
    reveal_strlit(", ");
    reveal_strlit(") VALUES (");
    reveal_strlit(")");
    reveal_strlit("?1");
    reveal_strlit("?2");
    reveal_strlit("?3");
    reveal_strlit("?4");
    reveal_strlit("?5");
    reveal_strlit("?6");
    reveal_strlit("?7");
    reveal_strlit("?8");
    reveal_with_fuel(listing, 9);
    let m = marks(8);
    assert(m[0] == "?1"@ && m[1] == "?2"@ && m[2] == "?3"@ && m[3] == "?4"@);
    assert(m[4] == "?5"@ && m[5] == "?6"@ && m[6] == "?7"@ && m[7] == "?8"@);
    assert(listing(history_columns(), 8) == "id"@ + ", "@ + "target_type"@ + ", "@ + "target_id"@
        + ", "@ + "version"@ + ", "@ + "annotations"@ + ", "@ + "analysis_run_id"@ + ", "@
        + "created_by"@ + ", "@ + "reason"@);
    assert(listing(m, 8) == "?1"@ + ", "@ + "?2"@ + ", "@ + "?3"@ + ", "@ + "?4"@ + ", "@ + "?5"@
        + ", "@ + "?6"@ + ", "@ + "?7"@ + ", "@ + "?8"@);
    assert(HISTORY_SQL@ =~= "INSERT INTO annotation_versions ("@ + listing(history_columns(), 8)
        + ") VALUES ("@ + listing(m, 8) + ")"@);
}

/// Whether a statement appends to the history, with a value in one of its columns.
pub open spec fn records(s: StatementView, i: int, column: Seq<char>, value: CellView) -> bool {
    &&& s.sql == "INSERT INTO annotation_versions ("@ + listing(history_columns(), 8)
        + ") VALUES ("@ + listing(marks(8), 8) + ")"@
    &&& s.params.len() == 8
    &&& history_columns()[i] == column
    &&& s.params[i] == value
}

/// An update appends to the history: the row, the new version, the annotations that the
/// row then has, the run, who did it and why.
pub proof fn updates_are_recorded(
    u: UpdateView,
    attrs: JsonView,
    annos: JsonView,
    document_id: Option<Seq<char>>,
    highest: Option<i64>,
    version_id: Seq<char>,
    run_id: Seq<char>,
    now: Seq<char>,
)
    ensures
        ({
            let h = update_plan(u, attrs, annos, document_id, highest, version_id, run_id, now).history;
            &&& records(h, 0, "id"@, CellView::Text(version_id))
            &&& records(h, 1, "target_type"@, CellView::Text(u.target_type))
            &&& records(h, 2, "target_id"@, CellView::Text(u.target_id))
            &&& records(
                h,
                3,
                "version"@,
                CellView::Whole(
                    match highest {
                        Some(n) => n + 1,
                        None => 1,
                    },
                ),
            )
            &&& records(h, 4, "annotations"@, CellView::Text(json_written(annos)))
            &&& records(h, 5, "analysis_run_id"@, CellView::Text(run_id))
            &&& records(h, 6, "created_by"@, CellView::Text("data_kb_update"@))
            &&& records(h, 7, "reason"@, text_or_null(u.reason))
        }),
{
    lemma_history_statement();
}

/// An update of a row sets the row's attributes and annotations, where its kind has
/// them, marks it obsolete where it is asked to, and touches no other row: the row is
/// named by its identifier, bound last.
pub proof fn updates_set_the_row(
    u: UpdateView,
    attrs: JsonView,
    annos: JsonView,
    document_id: Option<Seq<char>>,
    highest: Option<i64>,
    version_id: Seq<char>,
    run_id: Seq<char>,
    now: Seq<char>,
)
    requires
        u.target_type == "entities"@ || u.target_type == "claims"@ || u.target_type == "relations"@
            || u.target_type == "events"@ || u.target_type == "canonical_entities"@,
    ensures
        ({
            let plan = update_plan(
                u,
                attrs,
                annos,
                document_id,
                highest,
                version_id,
                run_id,
                now,
            );
            let s = plan.update->Ok_0;
            &&& plan.update is Ok
            &&& s.sql == "UPDATE "@ + quoted(u.target_type) + " SET "@ + (if u.obsolete {
                "attributes = ?"@ + ", "@ + "annotations = ?"@ + ", "@ + "obsolete = 1"@
            } else {
                "attributes = ?"@ + ", "@ + "annotations = ?"@
            }) + " WHERE id = ?"@ + decimal(3)
            &&& s.params == seq![
                CellView::Text(json_written(attrs)),
                CellView::Text(json_written(annos)),
                CellView::Text(u.target_id),
            ]
        }),
{
    lemma_kb_keys();
    let a = crate::kb_write::assignments(u, attrs, annos, now);
    reveal_with_fuel(join_of, 4);
    if u.obsolete {
        assert(a.0 =~= seq!["attributes = ?"@, "annotations = ?"@, "obsolete = 1"@]);
        assert(a.0.drop_last() =~= seq!["attributes = ?"@, "annotations = ?"@]);
    } else {
        assert(a.0 =~= seq!["attributes = ?"@, "annotations = ?"@]);
    }
    assert(seq!["attributes = ?"@, "annotations = ?"@].drop_last() =~= seq!["attributes = ?"@]);
    let plan = update_plan(u, attrs, annos, document_id, highest, version_id, run_id, now);
    assert(plan.update->Ok_0.params =~= seq![
        CellView::Text(json_written(attrs)),
        CellView::Text(json_written(annos)),
        CellView::Text(u.target_id),
    ]);
}

/// A document takes its status from its annotations; one that is analyzed gets the time
/// of it, and an unknown status is refused.
pub proof fn documents_take_their_status(
    u: UpdateView,
    attrs: JsonView,
    annos: JsonView,
    document_id: Option<Seq<char>>,
    highest: Option<i64>,
    version_id: Seq<char>,
    run_id: Seq<char>,
    now: Seq<char>,
)
    requires
        u.target_type == "documents"@,
    ensures
        ({
            let plan = update_plan(
                u,
                attrs,
                annos,
                document_id,
                highest,
                version_id,
                run_id,
                now,
            );
            let status = annos.str_at("analysis_status"@);
            let known = status == Some("pending"@) || status == Some("analyzing"@) || status == Some(
                "analyzed"@,
            ) || status == Some("failed"@);
            let p = plan.update->Ok_0.params;
            &&& plan.update is Ok <==> status is None || known
            &&& p[0] == CellView::Text(json_written(annos)) || plan.update is Err
            &&& plan.update is Ok ==> p.last() == CellView::Text(u.target_id)
            &&& plan.update is Ok && status is None ==> p.len() == 2
            &&& status is Some && known && status != Some("analyzed"@) ==> p.len() == 3 && p[1]
                == CellView::Text(status->0)
            &&& status == Some("analyzed"@) ==> p.len() == 4 && p[1] == CellView::Text(status->0)
                && p[2] == CellView::Text(now)
        }),
{
    lemma_kb_keys();
}

/// An update moves the time of the document that it is about: the row itself, or the
/// document that the row belongs to; for a condition none. The report says so.
pub proof fn updates_touch_their_document(
    u: UpdateView,
    attrs: JsonView,
    annos: JsonView,
    document_id: Option<Seq<char>>,
    highest: Option<i64>,
    version_id: Seq<char>,
    run_id: Seq<char>,
    now: Seq<char>,
)
    ensures
        ({
            let plan = update_plan(
                u,
                attrs,
                annos,
                document_id,
                highest,
                version_id,
                run_id,
                now,
            );
            let moved = if u.target_type == "documents"@ {
                Some(u.target_id)
            } else if u.target_type == "conditions"@ {
                None
            } else {
                document_id
            };
            &&& plan.touch is Some <==> moved is Some
            &&& moved is Some ==> plan.touch->0.params == seq![
                CellView::Text(now),
                CellView::Text(moved->0),
            ] && plan.touch->0.sql == "UPDATE documents SET updated_at = ?1 WHERE id = ?2"@
            &&& plan.report.str_at("status"@) == Some("ok"@)
            &&& plan.report.str_at("document_updated_at"@) == Some(
                if moved is Some {
                    now
                } else {
                    ""@
                },
            )
        }),
{
    lemma_kb_keys();
}

/// Of a row an update reads the attributes, the annotations and the document; columns
/// of another name decide nothing.
pub proof fn rows_are_read_by_column(cols: Seq<Seq<char>>, values: Seq<DbValue>, n: int, i: int)
    requires
        0 <= i < n <= cols.len(),
        cols.len() == values.len(),
        forall|k: int| i < k < n ==> #[trigger] cols[k] != cols[i],
        values[i] is Text,
    ensures
        ({
            let row = row_read(cols, values, n);
            let t = values[i]->Text_0@;
            &&& cols[i] == "attributes"@ ==> row.attributes == t
            &&& cols[i] == "annotations"@ ==> row.annotations == t
            &&& cols[i] == "document_id"@ ==> row.document_id == Some(t)
        }),
    decreases n,
{
    lemma_kb_keys();
    if i < n - 1 {
        rows_are_read_by_column(cols, values, n - 1, i);
        assert(cols[n - 1] != cols[i]);
    }
}

// ---------------------------------------------------------------------------
// Queries
// ---------------------------------------------------------------------------

proof fn lemma_first_word(word: Seq<char>, rest: Seq<char>, i: int)
    requires
        0 <= i <= word.len(),
        forall|k: int| 0 <= k < word.len() ==> crate::kb::is_name_char(#[trigger] word[k]),
    ensures
        crate::kb::name_end(word + seq![' '] + rest, i) == word.len(),
    decreases word.len() - i,
{
    let s = word + seq![' '] + rest;
    if i < word.len() {
        assert(s[i] == word[i]);
        lemma_first_word(word, rest, i + 1);
    } else {
        assert(s[i] == ' ');
    }
}

/// What decides on a query is its first word: a query is admitted exactly where that is
/// `select`, `with` or `explain`, in any letter case, whatever follows.
pub proof fn queries_are_admitted_by_their_first_word(word: Seq<char>, rest: Seq<char>)
    requires
        word.len() > 0,
        word[0] as u32 <= 127,
        forall|k: int| 0 <= k < word.len() ==> crate::kb::is_name_char(#[trigger] word[k]),
    ensures
        query_refusal(word + seq![' '] + rest) is None <==> (crate::text::ascii_lower(word)
            == "select"@ || crate::text::ascii_lower(word) == "with"@ || crate::text::ascii_lower(
            word,
        ) == "explain"@),
{
    let s = word + seq![' '] + rest;
    assert(s[0] == word[0]);
    assert(!crate::text::is_space(s[0]));
    assert(crate::text::space_end(s, 0) == 0);
    assert(crate::text::trimmed_start(s) =~= s);
    reveal_strlit("--");
    reveal_strlit("/*");
    assert(!"--"@.is_prefix_of(s)) by {
        if "--"@.is_prefix_of(s) {
            assert("--"@[0] == s.subrange(0, 2)[0]);
        }
    }
    assert(!"/*"@.is_prefix_of(s)) by {
        if "/*"@.is_prefix_of(s) {
            assert("/*"@[0] == s.subrange(0, 2)[0]);
        }
    }
    lemma_first_word(word, rest, 0);
    assert(s.subrange(0, word.len() as int) =~= word);
    reveal_strlit("SELECT");
    reveal_strlit("WITH");
    reveal_strlit("EXPLAIN");
    reveal_strlit("select");
    reveal_strlit("with");
    reveal_strlit("explain");
    assert(crate::text::ascii_lower("SELECT"@) =~= "select"@);
    assert(crate::text::ascii_lower("WITH"@) =~= "with"@);
    assert(crate::text::ascii_lower("EXPLAIN"@) =~= "explain"@);
}

/// The fields of a sample row go by the names of their columns.
pub proof fn samples_go_by_their_columns(names: Seq<Seq<char>>, row: Seq<DbValue>, n: int, i: int)
    requires
        0 <= i < n <= names.len(),
        names.len() == row.len(),
        forall|k: int| i < k < n ==> #[trigger] names[k] != names[i],
    ensures
        record_json(names, row, n) is Object,
        record_json(names, row, n).get(names[i]) == Some(json_of_db(row[i])),
    decreases n,
{
    lemma_record(names, row, n - 1);
    if i < n - 1 {
        samples_go_by_their_columns(names, row, n - 1, i);
        assert(names[n - 1] != names[i]);
    }
}

proof fn lemma_record(names: Seq<Seq<char>>, row: Seq<DbValue>, n: int)
    ensures
        record_json(names, row, n) is Object,
    decreases n,
{
    if n > 0 {
        lemma_record(names, row, n - 1);
    }
}

/// A table has as many rows as its first statistic says that can be read.
pub proof fn tables_have_the_rows_of_their_statistic(
    stats: Seq<(Seq<char>, Seq<char>)>,
    name: Seq<char>,
    i: int,
    at: int,
)
    requires
        0 <= i <= at < stats.len(),
        forall|k: int|
            i <= k < at ==> (#[trigger] stats[k]).0 != name || stat_rows(stats[k].1) is None,
        stats[at].0 == name,
        stat_rows(stats[at].1) is Some,
    ensures
        approx_rows(stats, name, i) == stat_rows(stats[at].1)->0,
    decreases at - i,
{
    if i < at {
        assert(stats[i].0 != name || stat_rows(stats[i].1) is None);
        tables_have_the_rows_of_their_statistic(stats, name, i + 1, at);
    }
}

/// A result that fits is given whole; a longer one is cut within the limit and says so.
pub proof fn results_fit_or_say_so(body: Seq<char>, max: nat)
    ensures
        utf8_len(body) <= max ==> truncated(body, max) == body,
        utf8_len(body) > max ==> crate::text::head_within(body, max).is_prefix_of(
            truncated(body, max),
        ) && ("\n[KB_TRUNCATED] Result truncated at "@ + decimal(max)
            + " bytes. Use tighter WHERE filters, GROUP BY aggregation, or smaller LIMIT to retrieve complete data."@).is_suffix_of(
        truncated(body, max)),
{
    if utf8_len(body) > max {
        let t = truncated(body, max);
        let h = crate::text::head_within(body, max);
        let n = "\n[KB_TRUNCATED] Result truncated at "@ + decimal(max)
            + " bytes. Use tighter WHERE filters, GROUP BY aggregation, or smaller LIMIT to retrieve complete data."@;
        assert(t =~= h + n);
        assert(t.subrange(0, h.len() as int) =~= h);
        assert(t.subrange(t.len() - n.len(), t.len() as int) =~= n);
    }
}

/// Rows that hold annotations alone have these set, and the mark of being obsolete where
/// it is asked for; an evidence can only be marked.
pub proof fn other_rows_are_set(
    u: UpdateView,
    attrs: JsonView,
    annos: JsonView,
    document_id: Option<Seq<char>>,
    highest: Option<i64>,
    version_id: Seq<char>,
    run_id: Seq<char>,
    now: Seq<char>,
)
    requires
        u.target_type == "document_units"@ || u.target_type == "conditions"@ || u.target_type
            == "evidence"@,
    ensures
        ({
            let s = update_plan(u, attrs, annos, document_id, highest, version_id, run_id, now).update;
            let marked = u.target_type != "evidence"@;
            &&& s is Ok <==> marked || u.obsolete
            &&& s is Ok ==> s->Ok_0.params == if marked {
                seq![CellView::Text(json_written(annos)), CellView::Text(u.target_id)]
            } else {
                seq![CellView::Text(u.target_id)]
            }
            &&& s is Ok && marked && !u.obsolete ==> s->Ok_0.sql == "UPDATE "@ + quoted(
                u.target_type,
            ) + " SET "@ + "annotations = ?"@ + " WHERE id = ?"@ + decimal(2)
            &&& s is Ok && !marked ==> s->Ok_0.sql == "UPDATE "@ + quoted(u.target_type) + " SET "@
                + "obsolete = 1"@ + " WHERE id = ?"@ + decimal(1)
        }),
{
    lemma_kb_keys();
    let a = crate::kb_write::assignments(u, attrs, annos, now);
    let s = update_plan(u, attrs, annos, document_id, highest, version_id, run_id, now).update;
    reveal_with_fuel(join_of, 3);
    if u.target_type != "evidence"@ {
        assert(s->Ok_0.params =~= seq![
            CellView::Text(json_written(annos)),
            CellView::Text(u.target_id),
        ]);
        if !u.obsolete {
            assert(a.0 =~= seq!["annotations = ?"@]);
        }
    } else if u.obsolete {
        assert(a.0 =~= seq!["obsolete = 1"@]);
        assert(s->Ok_0.params =~= seq![CellView::Text(u.target_id)]);
    }
}

/// An update of a row works on what the row holds: what is stored and recorded are the
/// row's own attributes and annotations with the update in them.
pub proof fn updates_work_on_the_row(
    u: UpdateView,
    row: RowView,
    highest: Option<i64>,
    version_id: Seq<char>,
    run_id: Seq<char>,
    now: Seq<char>,
)
    ensures
        ({
            let now_held = updated_objects(
                u,
                object_read(json_read(row.attributes)),
                object_read(json_read(row.annotations)),
            );
            let plan = row_update_plan(u, row, highest, version_id, run_id, now);
            &&& plan is Ok <==> now_held is Ok
            &&& plan is Ok ==> plan->Ok_0 == update_plan(
                u,
                (now_held->Ok_0).0,
                (now_held->Ok_0).1,
                row.document_id,
                highest,
                version_id,
                run_id,
                now,
            )
        }),
{
}

} // verus!
