//! Laws of the documents of the knowledge base: how files are registered, kept up to
//! date, cut into paragraphs and listed.

use vstd::prelude::*;
use vstd::string::*;

use crate::json_keys::{group_members, lemma_dropped, lemma_kb_keys};
use crate::json_model::{ascending, group_json, lemma_drop_member, JsonView};
use crate::json_text::json_written;
use crate::kb::{CellView, StatementView};
use crate::kb_files::{
    document_line, document_lines, document_statement, kept_paragraphs, marked_meta,
    paragraph_units, paragraphs_of, pending_count, registration, says_missing, sized_meta,
    sync_state, tallied, unit_insertion, unit_lookup, with_texts, DocumentRow, ExistingVersion,
    FileFacts, RegisterKind, SyncAction, SyncTally, UnitView, INSERT_DOCUMENT_SQL, INSERT_UNIT_SQL,
    SUPERSEDE_SQL, deleted_source, deletion, orphan_checks_of, placeholders,
};
use crate::kb_insert_laws::{lemma_marks, listing};
use crate::text::{decimal, is_space, lemma_decimal, occurs_at, split_on, text_contains, trimmed};
use crate::text_laws::{
    absent_texts_change_nothing, parts_strung_by_a_pair_split, stays_whole, strung_by,
};

verus! {

broadcast use {group_json, group_members};

// ---------------------------------------------------------------------------
// Registration
// ---------------------------------------------------------------------------

/// The columns of a new document.
pub open spec fn document_columns() -> Seq<Seq<char>> {
    seq![
        "id"@,
        "title"@,
        "source"@,
        "document_type"@,
        "version"@,
        "analysis_status"@,
        "file_hash"@,
        "metadata"@,
        "annotations"@,
    ]
}

/// What these columns are set to.
pub open spec fn document_settings() -> Seq<Seq<char>> {
    seq!["?1"@, "?2"@, "?3"@, "?4"@, "?5"@, "'pending'"@, "?6"@, "?7"@, "'{}'"@]
}

proof fn lemma_document_statement()
    ensures
        INSERT_DOCUMENT_SQL@ == "INSERT INTO documents ("@ + listing(document_columns(), 9)
            + ") VALUES ("@ + listing(document_settings(), 9) + ")"@,
{
    reveal_strlit(
        "INSERT INTO documents (id, title, source, document_type, version, analysis_status, file_hash, metadata, annotations) VALUES (?1, ?2, ?3, ?4, ?5, 'pending', ?6, ?7, '{}')",
    );
    reveal_strlit("INSERT INTO documents (");
    reveal_strlit("id");
    reveal_strlit("title");
    reveal_strlit("source");
    reveal_strlit("document_type");
    reveal_strlit("version");
    reveal_strlit("analysis_status");
    reveal_strlit("file_hash");
    reveal_strlit("metadata");
    reveal_strlit("annotations");
    reveal_strlit(", ");
    reveal_strlit(") VALUES (");
    reveal_strlit(")");
    reveal_strlit("?1");
    reveal_strlit("?2");
    reveal_strlit("?3");
    reveal_strlit("?4");
    reveal_strlit("?5");
    reveal_strlit("?6");
    reveal_strlit("?7");
    reveal_strlit("'pending'");
    reveal_strlit("'{}'");
    reveal_with_fuel(listing, 10);
    let c = document_columns();
    let v = document_settings();
    assert(listing(c, 9) == "id"@ + ", "@ + "title"@ + ", "@ + "source"@ + ", "@
        + "document_type"@ + ", "@ + "version"@ + ", "@ + "analysis_status"@ + ", "@ + "file_hash"@
        + ", "@ + "metadata"@ + ", "@ + "annotations"@);
    assert(listing(v, 9) == "?1"@ + ", "@ + "?2"@ + ", "@ + "?3"@ + ", "@ + "?4"@ + ", "@ + "?5"@
        + ", "@ + "'pending'"@ + ", "@ + "?6"@ + ", "@ + "?7"@ + ", "@ + "'{}'"@);
    assert(INSERT_DOCUMENT_SQL@ =~= "INSERT INTO documents ("@ + listing(c, 9) + ") VALUES ("@
        + listing(v, 9) + ")"@);
}

/// Whether a statement inserts a document, with a text in one of its columns.
pub open spec fn inserts(s: StatementView, i: int, k: int, column: Seq<char>, text: Seq<char>) -> bool {
    &&& s.sql == "INSERT INTO documents ("@ + listing(document_columns(), 9) + ") VALUES ("@
        + listing(document_settings(), 9) + ")"@
    &&& s.params.len() == 7
    &&& document_columns()[i] == column
    &&& document_settings()[i] == crate::kb_insert_laws::mark(k + 1)
    &&& s.params[k] == CellView::Text(text)
}

/// A new document has its title, source, type, version and the digest of its content,
/// and knows the size and the time of its file; it waits for its analysis.
pub proof fn documents_are_stored(
    f: FileFacts,
    kind: Seq<char>,
    id: Seq<char>,
    version: Seq<char>,
)
    ensures
        ({
            let s = document_statement(f, kind, id, version);
            &&& inserts(s, 0, 0, "id"@, id)
            &&& inserts(
                s,
                1,
                1,
                "title"@,
                match f.stem {
                    Some(t) => t@,
                    None => "untitled"@,
                },
            )
            &&& inserts(s, 2, 2, "source"@, f.source@)
            &&& inserts(s, 3, 3, "document_type"@, kind)
            &&& inserts(s, 4, 4, "version"@, version)
            &&& inserts(s, 6, 5, "file_hash"@, f.hash@)
            &&& exists|meta: JsonView|
                inserts(s, 7, 6, "metadata"@, #[trigger] json_written(meta)) && meta.get("size"@)
                    == Some(JsonView::Int(f.size as int)) && meta.get("mtime"@) == Some(
                    JsonView::Int(f.mtime as int),
                )
        }),
{
    lemma_document_statement();
    lemma_marks();
    lemma_kb_keys();
    let meta = sized_meta(crate::json_model::empty_object(), f.size as int, f.mtime as int);
    let s = document_statement(f, kind, id, version);
    assert(inserts(s, 7, 6, "metadata"@, json_written(meta)));
    assert(meta.get("size"@) == Some(JsonView::Int(f.size as int)));
    assert(meta.get("mtime"@) == Some(JsonView::Int(f.mtime as int)));
}

/// The version of a changed file is one above the current one, and the current one then
/// points to it; the first version is 1.
pub proof fn versions_follow_each_other(
    f: FileFacts,
    kind: Seq<char>,
    existing: Option<ExistingVersion>,
    new_id: Seq<char>,
    n: nat,
)
    requires
        existing is Some ==> existing->0.version@ == decimal(n) && existing->0.hash@ != f.hash@,
        n <= i64::MAX,
    ensures
        ({
            let r = registration(f, kind, existing, new_id);
            &&& existing is None ==> r.version == decimal(1) && r.kind == RegisterKind::Registered
            &&& existing is Some ==> r.version == decimal(n + 1) && r.kind == RegisterKind::Updated
                && r.statements.len() == 2 && r.statements[1].sql
                == "UPDATE documents SET superseded_by = ?1 WHERE id = ?2"@
                && r.statements[1].params == seq![
                CellView::Text(new_id),
                CellView::Text(existing->0.id@),
            ]
        }),
{
    lemma_decimal(n);
    let d = decimal(n);
    assert(crate::text::is_digit(d[0]));
    reveal_strlit("1");
    assert(decimal(1) =~= "1"@);
    if existing is Some {
        let s = with_texts(SUPERSEDE_SQL@, seq![new_id, existing->0.id@]);
        assert(s.params =~= seq![CellView::Text(new_id), CellView::Text(existing->0.id@)]);
    }
}

/// The columns of a new unit.
pub open spec fn unit_columns() -> Seq<Seq<char>> {
    seq![
        "id"@,
        "document_id"@,
        "parent_id"@,
        "unit_type"@,
        "text"@,
        "position"@,
        "metadata"@,
        "annotations"@,
        "analysis_run_id"@,
        "obsolete"@,
    ]
}

/// What these columns are set to.
pub open spec fn unit_settings() -> Seq<Seq<char>> {
    seq!["?1"@, "?2"@, "?3"@, "?4"@, "?5"@, "?6"@, "?7"@, "'{}'"@, "NULL"@, "0"@]
}

proof fn lemma_unit_statement()
    ensures
        INSERT_UNIT_SQL@ == "INSERT INTO document_units ("@ + listing(unit_columns(), 10)
            + ") VALUES ("@ + listing(unit_settings(), 10) + ")"@,
{
    reveal_strlit(
        "INSERT INTO document_units (id, document_id, parent_id, unit_type, text, position, metadata, annotations, analysis_run_id, obsolete) VALUES (?1, ?2, ?3, ?4, ?5, ?6, ?7, '{}', NULL, 0)",
    );
    reveal_strlit("INSERT INTO document_units (");
    reveal_strlit("id");
    reveal_strlit("document_id");
    reveal_strlit("parent_id");
    reveal_strlit("unit_type");
    reveal_strlit("text");
    reveal_strlit("position");
    reveal_strlit("metadata");
    reveal_strlit("annotations");
    reveal_strlit("analysis_run_id");
    reveal_strlit("obsolete");
    reveal_strlit(", ");
    reveal_strlit(") VALUES (");
    reveal_strlit(")");
    reveal_strlit("?1");
    reveal_strlit("?2");
    reveal_strlit("?3");
    reveal_strlit("?4");
    reveal_strlit("?5");
    reveal_strlit("?6");
    reveal_strlit("?7");
    reveal_strlit("'{}'");
    reveal_strlit("NULL");
    reveal_strlit("0");
    reveal_with_fuel(listing, 11);
    let c = unit_columns();
    let v = unit_settings();
    assert(listing(c, 10) == "id"@ + ", "@ + "document_id"@ + ", "@ + "parent_id"@ + ", "@
        + "unit_type"@ + ", "@ + "text"@ + ", "@ + "position"@ + ", "@ + "metadata"@ + ", "@
        + "annotations"@ + ", "@ + "analysis_run_id"@ + ", "@ + "obsolete"@);
    assert(listing(v, 10) == "?1"@ + ", "@ + "?2"@ + ", "@ + "?3"@ + ", "@ + "?4"@ + ", "@ + "?5"@
        + ", "@ + "?6"@ + ", "@ + "?7"@ + ", "@ + "'{}'"@ + ", "@ + "NULL"@ + ", "@ + "0"@);
    assert(INSERT_UNIT_SQL@ =~= "INSERT INTO document_units ("@ + listing(c, 10) + ") VALUES ("@
        + listing(v, 10) + ")"@);
}

/// Whether a statement inserts a unit, with a value in one of its columns.
pub open spec fn inserts_unit(s: StatementView, i: int, column: Seq<char>, value: CellView) -> bool {
    &&& s.sql == "INSERT INTO document_units ("@ + listing(unit_columns(), 10) + ") VALUES ("@
        + listing(unit_settings(), 10) + ")"@
    &&& s.params.len() == 7
    &&& unit_columns()[i] == column
    &&& unit_settings()[i] == crate::kb_insert_laws::mark(i + 1)
    &&& s.params[i] == value
}

/// A unit is stored in its document, under its parent where it has one, with its kind,
/// its text and its place; it is looked for by document, kind, place and parent.
pub proof fn units_are_stored(u: UnitView, id: Seq<char>, doc_id: Seq<char>)
    ensures
        ({
            let s = unit_insertion(u, id, doc_id);
            let parent = match u.parent_id {
                Some(p) => CellView::Text(p),
                None => CellView::Null,
            };
            &&& inserts_unit(s, 0, "id"@, CellView::Text(id))
            &&& inserts_unit(s, 1, "document_id"@, CellView::Text(doc_id))
            &&& inserts_unit(s, 2, "parent_id"@, parent)
            &&& inserts_unit(s, 3, "unit_type"@, CellView::Text(u.unit_type))
            &&& inserts_unit(s, 4, "text"@, CellView::Text(u.text))
            &&& inserts_unit(s, 5, "position"@, CellView::Whole(u.position))
            &&& inserts_unit(s, 6, "metadata"@, CellView::Text(u.metadata))
            &&& unit_lookup(u, doc_id).params == seq![
                CellView::Text(doc_id),
                CellView::Text(u.unit_type),
                CellView::Whole(u.position),
                parent,
            ]
        }),
{
    lemma_unit_statement();
    lemma_marks();
}

// ---------------------------------------------------------------------------
// Synchronisation
// ---------------------------------------------------------------------------

/// A file whose size and time are those on record is unchanged, a file with another size
/// or time is changed, and one without a record is new. Refreshing the record makes a
/// file unchanged and keeps the rest of it.
pub proof fn files_are_known_by_size_and_time(
    meta: JsonView,
    size: u64,
    mtime: u64,
    other_size: u64,
    other_time: u64,
    key: Seq<char>,
)
    requires
        meta is Object,
    ensures
        sync_state(None, size as int, mtime as int) == SyncAction::New,
        ({
            let m = sized_meta(meta, size as int, mtime as int);
            &&& sync_state(Some(m), size as int, mtime as int) == SyncAction::Unchanged
            &&& sync_state(Some(m), other_size as int, other_time as int) == SyncAction::Unchanged
                <==> other_size == size && other_time == mtime
            &&& sync_state(Some(m), other_size as int, other_time as int) != SyncAction::New
            &&& key != "size"@ && key != "mtime"@ ==> m.get(key) == meta.get(key)
        }),
{
    lemma_kb_keys();
}

/// A file that is gone is marked as missing and one that is back is not; the rest of the
/// record stays.
pub proof fn missing_files_are_marked(meta: JsonView, now: Seq<char>, key: Seq<char>)
    requires
        meta is Object,
        ascending(meta->Object_0),
        key != "file_missing"@,
        key != "missing_at"@,
    ensures
        says_missing(marked_meta(meta, true, now)),
        marked_meta(meta, true, now).str_at("missing_at"@) == Some(now),
        !says_missing(marked_meta(meta, false, now)),
        marked_meta(meta, true, now).get(key) == meta.get(key),
        marked_meta(meta, false, now).get(key) == meta.get(key),
{
    lemma_kb_keys();
    let m = meta->Object_0;
    let a = meta.without("file_missing"@);
    lemma_dropped(m, "file_missing"@);
    lemma_drop_member(m, "file_missing"@, key);
    lemma_drop_member(a->Object_0, "missing_at"@, key);
    lemma_drop_member(a->Object_0, "missing_at"@, "file_missing"@);
    assert(a.get("file_missing"@) is None);
    assert(marked_meta(meta, false, now).get("file_missing"@) is None);
    assert(a.get(key) == meta.get(key));
}

/// Every file that a synchronisation sees is counted once, but for a new one that could
/// not be registered: as added, as updated, or as unchanged.
pub proof fn files_are_counted_once(t: SyncTally, action: SyncAction, outcome: Seq<char>)
    requires
        t.added < usize::MAX,
        t.updated < usize::MAX,
        t.unchanged < usize::MAX,
    ensures
        ({
            let out = tallied(t, action, outcome);
            &&& out.added - t.added == if action == SyncAction::New && "registered: "@.is_prefix_of(
                outcome,
            ) {
                1int
            } else {
                0int
            }
            &&& out.updated - t.updated == if action == SyncAction::Changed
                && "updated: "@.is_prefix_of(outcome) {
                1int
            } else {
                0int
            }
            &&& out.unchanged - t.unchanged == if action == SyncAction::Unchanged || (action
                == SyncAction::Changed && !"updated: "@.is_prefix_of(outcome)) {
                1int
            } else {
                0int
            }
        }),
{
}

// ---------------------------------------------------------------------------
// Paragraphs
// ---------------------------------------------------------------------------

/// Whether a text is a paragraph as it is.
pub open spec fn is_paragraph(p: Seq<char>) -> bool {
    &&& p.len() > 0
    &&& !is_space(p[0])
    &&& !is_space(p.last())
    &&& !text_contains(p, seq!['\n', '\n'])
    &&& !p.contains('\r')
}

proof fn lemma_untrimmed(s: Seq<char>)
    requires
        s.len() > 0,
        !is_space(s[0]),
        !is_space(s.last()),
    ensures
        trimmed(s) == s,
{
    assert(crate::text::space_end(s, 0) == 0);
    assert(crate::text::trimmed_start(s) =~= s);
    assert(crate::text::text_end(s, s.len() as int) == s.len());
    assert(s.take(s.len() as int) =~= s);
}

proof fn lemma_no_return(parts: Seq<Seq<char>>, k: int)
    requires
        0 <= k <= parts.len(),
        forall|i: int| 0 <= i < parts.len() ==> is_paragraph(#[trigger] parts[i]),
    ensures
        !strung_by(parts, seq!['\n', '\n'], k).contains('\r'),
    decreases parts.len() - k,
{
    let p = seq!['\n', '\n'];
    let s = strung_by(parts, p, k);
    if k < parts.len() {
        assert(is_paragraph(parts[k]));
        if k < parts.len() - 1 {
            lemma_no_return(parts, k + 1);
            let rest = strung_by(parts, p, k + 1);
            if s.contains('\r') {
                let x = choose|x: int| 0 <= x < s.len() && s[x] == '\r';
                let n = parts[k].len() as int;
                if x < n {
                    assert(parts[k][x] == '\r');
                } else if x < n + 2 {
                    assert(p[x - n] == '\r');
                } else {
                    assert(rest[x - n - 2] == '\r');
                }
            }
        }
    }
}

proof fn lemma_all_kept(parts: Seq<Seq<char>>, n: int)
    requires
        0 <= n <= parts.len(),
        forall|i: int| 0 <= i < parts.len() ==> is_paragraph(#[trigger] parts[i]),
    ensures
        kept_paragraphs(parts, n) == parts.take(n),
    decreases n,
{
    if n > 0 {
        lemma_all_kept(parts, n - 1);
        assert(is_paragraph(parts[n - 1]));
        lemma_untrimmed(parts[n - 1]);
        assert(parts.take(n) =~= parts.take(n - 1).push(parts[n - 1]));
    } else {
        assert(parts.take(0) =~= Seq::<Seq<char>>::empty());
    }
}

/// A text of paragraphs with a blank line between each two is cut into just these
/// paragraphs, and each becomes a unit, numbered from zero.
pub proof fn texts_are_cut_into_their_paragraphs(
    parts: Seq<Seq<char>>,
    parent: Option<Seq<char>>,
    metadata: Seq<char>,
)
    requires
        parts.len() > 0,
        forall|i: int| 0 <= i < parts.len() ==> is_paragraph(#[trigger] parts[i]),
    ensures
        ({
            let text = strung_by(parts, seq!['\n', '\n'], 0);
            let units = paragraph_units(text, parent, metadata);
            &&& paragraphs_of(text) == parts
            &&& units.len() == parts.len()
            &&& forall|i: int|
                0 <= i < parts.len() ==> (#[trigger] units[i]).text == parts[i]
                    && units[i].position == i && units[i].parent_id == parent && units[i].unit_type
                    == "paragraph"@ && units[i].metadata == metadata
        }),
{
    let p = seq!['\n', '\n'];
    let text = strung_by(parts, p, 0);
    reveal_strlit("\r\n");
    reveal_strlit("\n");
    reveal_strlit("\n\n");
    assert("\n\n"@ =~= p);
    lemma_no_return(parts, 0);
    assert forall|i: int| !occurs_at(text, "\r\n"@, i) by {
        if occurs_at(text, "\r\n"@, i) {
            assert(text.subrange(i, i + 2)[0] == text[i]);
            assert("\r\n"@[0] == '\r');
            assert(text.contains(text[i]));
        }
    }
    absent_texts_change_nothing(text, "\r\n"@, "\n"@);
    assert forall|i: int| 0 <= i < parts.len() implies stays_whole(#[trigger] parts[i], '\n') by {
        assert(is_paragraph(parts[i]));
        assert(is_space('\n'));
    }
    let none = Seq::<char>::empty();
    parts_strung_by_a_pair_split(none, parts, '\n', 0);
    assert(none + text =~= text);
    assert(parts.skip(0) =~= parts);
    assert(split_on(text, "\n\n"@) == parts);
    lemma_all_kept(parts, parts.len() as int);
    assert(parts.take(parts.len() as int) =~= parts);
}

// ---------------------------------------------------------------------------
// The list
// ---------------------------------------------------------------------------

/// Every document has its line in the list, in order, behind the header.
pub proof fn every_document_is_listed(
    rows: Seq<DocumentRow>,
    missing: Seq<bool>,
    n: int,
    i: int,
)
    requires
        0 <= i < n <= rows.len(),
    ensures
        document_lines(rows, missing, n).len() == n + 1,
        document_lines(rows, missing, n)[i + 1] == document_line(rows[i], missing[i]),
    decreases n,
{
    lemma_lines_len(rows, missing, n);
    lemma_lines_len(rows, missing, n - 1);
    if i < n - 1 {
        every_document_is_listed(rows, missing, n - 1, i);
    }
}

proof fn lemma_lines_len(rows: Seq<DocumentRow>, missing: Seq<bool>, n: int)
    requires
        0 <= n <= rows.len(),
    ensures
        document_lines(rows, missing, n).len() == n + 1,
    decreases n,
{
    if n > 0 {
        lemma_lines_len(rows, missing, n - 1);
    }
}

/// The documents that wait for their analysis are counted: current ones that are pending.
pub proof fn pending_documents_are_counted(rows: Seq<DocumentRow>, n: int)
    requires
        0 < n <= rows.len(),
    ensures
        pending_count(rows, n) == pending_count(rows, n - 1) + if rows[n - 1].superseded_by is None
            && rows[n - 1].status@ == "pending"@ {
            1int
        } else {
            0int
        },
        pending_count(rows, 0) == 0,
{
}

// ---------------------------------------------------------------------------
// Deletion
// ---------------------------------------------------------------------------

/// A deletion is refused where nothing is registered, or where no version is current and
/// only the current one is to go. All versions are those of the source; one version is
/// the current one. The relations to clean up are those with an end at one of the rows,
/// on either side.
pub proof fn deletions_take_what_is_named(
    source: Seq<char>,
    all_versions: bool,
    ids: nat,
    current: Option<Seq<char>>,
    endpoints: Seq<Seq<char>>,
)
    ensures
        ({
            let out = deletion(source, all_versions, ids, current, endpoints);
            let n = endpoints.len() as int;
            &&& out is Ok <==> ids > 0 && (all_versions || current is Some)
            &&& out is Ok ==> out->Ok_0.delete.params == seq![
                CellView::Text(
                    if all_versions {
                        source
                    } else {
                        current->0
                    },
                ),
            ]
            &&& out is Ok ==> out->Ok_0.delete.sql == if all_versions {
                "DELETE FROM documents WHERE source = ?1"@
            } else {
                "DELETE FROM documents WHERE id = ?1"@
            }
            &&& out is Ok ==> (out->Ok_0.promote is Some <==> !all_versions)
            &&& out is Ok && n > 0 ==> {
                let marks = placeholders(n as nat);
                let cleanup = out->Ok_0.cleanup->0;
                &&& out->Ok_0.cleanup is Some
                &&& cleanup.params.len() == 2 * n
                &&& forall|i: int|
                    0 <= i < n ==> #[trigger] cleanup.params[i] == CellView::Text(endpoints[i])
                &&& forall|i: int|
                    n <= i < 2 * n ==> #[trigger] cleanup.params[i] == CellView::Text(
                        endpoints[i - n],
                    )
                &&& cleanup.sql
                    == "DELETE FROM relations WHERE document_id IS NULL AND (source_id IN ("@
                    + marks + ") OR target_id IN ("@ + marks + "))"@
                &&& marks.len() == 2 * n - 1
            }
        }),
{
    let out = deletion(source, all_versions, ids, current, endpoints);
    if out is Ok {
        assert(out->Ok_0.delete.params =~= seq![
            CellView::Text(
                if all_versions {
                    source
                } else {
                    current->0
                },
            ),
        ]);
    }
    if endpoints.len() > 0 {
        lemma_placeholders(endpoints.len());
    }
}

/// There is one placeholder for each row.
proof fn lemma_placeholders(n: nat)
    requires
        n > 0,
    ensures
        placeholders(n).len() == 2 * n - 1,
    decreases n,
{
    reveal_strlit("?");
    reveal_strlit(",");
    let marks = Seq::new(n, |i: int| "?"@);
    if n > 1 {
        lemma_placeholders((n - 1) as nat);
        assert(marks.drop_last() =~= Seq::new((n - 1) as nat, |i: int| "?"@));
    }
}

/// The source of a file to delete lies below the data directory: a path inside it with
/// forward slashes, and for any other path its name there.
pub proof fn deleted_sources_lie_below_the_data(
    path: Seq<char>,
    inside: Option<Seq<char>>,
    name: Option<Seq<char>>,
)
    ensures
        ({
            let out = deleted_source(path, inside, name);
            &&& out is Ok <==> inside is Some || name is Some
            &&& inside is Some && !text_contains(inside->0, "\\"@) ==> out == Ok::<
                Seq<char>,
                Seq<char>,
            >(inside->0)
            &&& inside is None && name is Some ==> "data/"@.is_prefix_of(out->Ok_0)
            &&& inside is None && name is Some && !"data/"@.is_prefix_of(path) ==> out->Ok_0
                == "data/"@ + name->0
            &&& inside is None && name is Some && "data/"@.is_prefix_of(path) ==> out->Ok_0 == path
        }),
{
    if inside is Some {
        if !text_contains(inside->0, "\\"@) {
            reveal_strlit("\\");
            absent_texts_change_nothing(inside->0, "\\"@, "/"@);
        }
    } else if name is Some {
        let out = "data/"@ + name->0;
        assert(out.subrange(0, "data/"@.len() as int) =~= "data/"@);
    }
}

// ---------------------------------------------------------------------------
// References to rows that are gone
// ---------------------------------------------------------------------------

/// The table and the column of each check.
pub open spec fn checked_column(i: int) -> (Seq<char>, Seq<char>) {
    if i == 0 {
        ("relations"@, "source_id"@)
    } else if i == 1 {
        ("relations"@, "target_id"@)
    } else if i == 2 {
        ("conditions"@, "target_id"@)
    } else if i == 3 {
        ("evidence"@, "target_id"@)
    } else if i == 4 {
        ("evidence"@, "source_unit_id"@)
    } else if i == 5 {
        ("claims"@, "subject_id"@)
    } else if i == 6 {
        ("claims"@, "object_id"@)
    } else {
        ("events"@, "subject_id"@)
    }
}

proof fn lemma_check_of_relations_source_id()
    ensures
        "relations.source_id orphan"@ == checked_column(0).0 + "."@ + checked_column(0).1 + " orphan"@,
        ("SELECT COUNT(*) FROM "@ + checked_column(0).0 + " "@).is_prefix_of(
            "SELECT COUNT(*) FROM relations r WHERE NOT EXISTS (SELECT 1 FROM entities e WHERE e.id=r.source_id) AND NOT EXISTS (SELECT 1 FROM claims c WHERE c.id=r.source_id) AND NOT EXISTS (SELECT 1 FROM events ev WHERE ev.id=r.source_id) AND NOT EXISTS (SELECT 1 FROM document_units u WHERE u.id=r.source_id)"@,
        ),
        ("."@ + checked_column(0).1 + ")"@).is_suffix_of(
            "SELECT COUNT(*) FROM relations r WHERE NOT EXISTS (SELECT 1 FROM entities e WHERE e.id=r.source_id) AND NOT EXISTS (SELECT 1 FROM claims c WHERE c.id=r.source_id) AND NOT EXISTS (SELECT 1 FROM events ev WHERE ev.id=r.source_id) AND NOT EXISTS (SELECT 1 FROM document_units u WHERE u.id=r.source_id)"@,
        ),
{
    reveal_strlit("relations");
    reveal_strlit("source_id");
    reveal_strlit(".");
    reveal_strlit(" orphan");
    reveal_strlit("SELECT COUNT(*) FROM ");
    reveal_strlit(" ");
    reveal_strlit(")");
    reveal_strlit("relations.source_id orphan");
    reveal_strlit(
        "SELECT COUNT(*) FROM relations r WHERE NOT EXISTS (SELECT 1 FROM entities e WHERE e.id=r.source_id) AND NOT EXISTS (SELECT 1 FROM claims c WHERE c.id=r.source_id) AND NOT EXISTS (SELECT 1 FROM events ev WHERE ev.id=r.source_id) AND NOT EXISTS (SELECT 1 FROM document_units u WHERE u.id=r.source_id)",
    );
    let q = "SELECT COUNT(*) FROM relations r WHERE NOT EXISTS (SELECT 1 FROM entities e WHERE e.id=r.source_id) AND NOT EXISTS (SELECT 1 FROM claims c WHERE c.id=r.source_id) AND NOT EXISTS (SELECT 1 FROM events ev WHERE ev.id=r.source_id) AND NOT EXISTS (SELECT 1 FROM document_units u WHERE u.id=r.source_id)"@;
    let a = "SELECT COUNT(*) FROM "@ + "relations"@ + " "@;
    let b = "."@ + "source_id"@ + ")"@;
    assert(q.subrange(0, a.len() as int) =~= a);
    assert(q.subrange(q.len() - b.len(), q.len() as int) =~= b);
    assert("relations.source_id orphan"@ =~= "relations"@ + "."@ + "source_id"@ + " orphan"@);
}

proof fn lemma_check_of_relations_target_id()
    ensures
        "relations.target_id orphan"@ == checked_column(1).0 + "."@ + checked_column(1).1 + " orphan"@,
        ("SELECT COUNT(*) FROM "@ + checked_column(1).0 + " "@).is_prefix_of(
            "SELECT COUNT(*) FROM relations r WHERE NOT EXISTS (SELECT 1 FROM entities e WHERE e.id=r.target_id) AND NOT EXISTS (SELECT 1 FROM claims c WHERE c.id=r.target_id) AND NOT EXISTS (SELECT 1 FROM events ev WHERE ev.id=r.target_id) AND NOT EXISTS (SELECT 1 FROM document_units u WHERE u.id=r.target_id)"@,
        ),
        ("."@ + checked_column(1).1 + ")"@).is_suffix_of(
            "SELECT COUNT(*) FROM relations r WHERE NOT EXISTS (SELECT 1 FROM entities e WHERE e.id=r.target_id) AND NOT EXISTS (SELECT 1 FROM claims c WHERE c.id=r.target_id) AND NOT EXISTS (SELECT 1 FROM events ev WHERE ev.id=r.target_id) AND NOT EXISTS (SELECT 1 FROM document_units u WHERE u.id=r.target_id)"@,
        ),
{
    reveal_strlit("relations");
    reveal_strlit("target_id");
    reveal_strlit(".");
    reveal_strlit(" orphan");
    reveal_strlit("SELECT COUNT(*) FROM ");
    reveal_strlit(" ");
    reveal_strlit(")");
    reveal_strlit("relations.target_id orphan");
    reveal_strlit(
        "SELECT COUNT(*) FROM relations r WHERE NOT EXISTS (SELECT 1 FROM entities e WHERE e.id=r.target_id) AND NOT EXISTS (SELECT 1 FROM claims c WHERE c.id=r.target_id) AND NOT EXISTS (SELECT 1 FROM events ev WHERE ev.id=r.target_id) AND NOT EXISTS (SELECT 1 FROM document_units u WHERE u.id=r.target_id)",
    );
    let q = "SELECT COUNT(*) FROM relations r WHERE NOT EXISTS (SELECT 1 FROM entities e WHERE e.id=r.target_id) AND NOT EXISTS (SELECT 1 FROM claims c WHERE c.id=r.target_id) AND NOT EXISTS (SELECT 1 FROM events ev WHERE ev.id=r.target_id) AND NOT EXISTS (SELECT 1 FROM document_units u WHERE u.id=r.target_id)"@;
    let a = "SELECT COUNT(*) FROM "@ + "relations"@ + " "@;
    let b = "."@ + "target_id"@ + ")"@;
    assert(q.subrange(0, a.len() as int) =~= a);
    assert(q.subrange(q.len() - b.len(), q.len() as int) =~= b);
    assert("relations.target_id orphan"@ =~= "relations"@ + "."@ + "target_id"@ + " orphan"@);
}

proof fn lemma_check_of_conditions_target_id()
    ensures
        "conditions.target_id orphan"@ == checked_column(2).0 + "."@ + checked_column(2).1 + " orphan"@,
        ("SELECT COUNT(*) FROM "@ + checked_column(2).0 + " "@).is_prefix_of(
            "SELECT COUNT(*) FROM conditions cd WHERE NOT EXISTS (SELECT 1 FROM claims c WHERE c.id=cd.target_id) AND NOT EXISTS (SELECT 1 FROM events ev WHERE ev.id=cd.target_id)"@,
        ),
        ("."@ + checked_column(2).1 + ")"@).is_suffix_of(
            "SELECT COUNT(*) FROM conditions cd WHERE NOT EXISTS (SELECT 1 FROM claims c WHERE c.id=cd.target_id) AND NOT EXISTS (SELECT 1 FROM events ev WHERE ev.id=cd.target_id)"@,
        ),
{
    reveal_strlit("conditions");
    reveal_strlit("target_id");
    reveal_strlit(".");
    reveal_strlit(" orphan");
    reveal_strlit("SELECT COUNT(*) FROM ");
    reveal_strlit(" ");
    reveal_strlit(")");
    reveal_strlit("conditions.target_id orphan");
    reveal_strlit(
        "SELECT COUNT(*) FROM conditions cd WHERE NOT EXISTS (SELECT 1 FROM claims c WHERE c.id=cd.target_id) AND NOT EXISTS (SELECT 1 FROM events ev WHERE ev.id=cd.target_id)",
    );
    let q = "SELECT COUNT(*) FROM conditions cd WHERE NOT EXISTS (SELECT 1 FROM claims c WHERE c.id=cd.target_id) AND NOT EXISTS (SELECT 1 FROM events ev WHERE ev.id=cd.target_id)"@;
    let a = "SELECT COUNT(*) FROM "@ + "conditions"@ + " "@;
    let b = "."@ + "target_id"@ + ")"@;
    assert(q.subrange(0, a.len() as int) =~= a);
    assert(q.subrange(q.len() - b.len(), q.len() as int) =~= b);
    assert("conditions.target_id orphan"@ =~= "conditions"@ + "."@ + "target_id"@ + " orphan"@);
}

proof fn lemma_check_of_evidence_target_id()
    ensures
        "evidence.target_id orphan"@ == checked_column(3).0 + "."@ + checked_column(3).1 + " orphan"@,
        ("SELECT COUNT(*) FROM "@ + checked_column(3).0 + " "@).is_prefix_of(
            "SELECT COUNT(*) FROM evidence ev WHERE NOT EXISTS (SELECT 1 FROM entities e WHERE e.id=ev.target_id) AND NOT EXISTS (SELECT 1 FROM claims c WHERE c.id=ev.target_id) AND NOT EXISTS (SELECT 1 FROM relations r WHERE r.id=ev.target_id) AND NOT EXISTS (SELECT 1 FROM events evt WHERE evt.id=ev.target_id) AND NOT EXISTS (SELECT 1 FROM conditions cd WHERE cd.id=ev.target_id)"@,
        ),
        ("."@ + checked_column(3).1 + ")"@).is_suffix_of(
            "SELECT COUNT(*) FROM evidence ev WHERE NOT EXISTS (SELECT 1 FROM entities e WHERE e.id=ev.target_id) AND NOT EXISTS (SELECT 1 FROM claims c WHERE c.id=ev.target_id) AND NOT EXISTS (SELECT 1 FROM relations r WHERE r.id=ev.target_id) AND NOT EXISTS (SELECT 1 FROM events evt WHERE evt.id=ev.target_id) AND NOT EXISTS (SELECT 1 FROM conditions cd WHERE cd.id=ev.target_id)"@,
        ),
{
    reveal_strlit("evidence");
    reveal_strlit("target_id");
    reveal_strlit(".");
    reveal_strlit(" orphan");
    reveal_strlit("SELECT COUNT(*) FROM ");
    reveal_strlit(" ");
    reveal_strlit(")");
    reveal_strlit("evidence.target_id orphan");
    reveal_strlit(
        "SELECT COUNT(*) FROM evidence ev WHERE NOT EXISTS (SELECT 1 FROM entities e WHERE e.id=ev.target_id) AND NOT EXISTS (SELECT 1 FROM claims c WHERE c.id=ev.target_id) AND NOT EXISTS (SELECT 1 FROM relations r WHERE r.id=ev.target_id) AND NOT EXISTS (SELECT 1 FROM events evt WHERE evt.id=ev.target_id) AND NOT EXISTS (SELECT 1 FROM conditions cd WHERE cd.id=ev.target_id)",
    );
    let q = "SELECT COUNT(*) FROM evidence ev WHERE NOT EXISTS (SELECT 1 FROM entities e WHERE e.id=ev.target_id) AND NOT EXISTS (SELECT 1 FROM claims c WHERE c.id=ev.target_id) AND NOT EXISTS (SELECT 1 FROM relations r WHERE r.id=ev.target_id) AND NOT EXISTS (SELECT 1 FROM events evt WHERE evt.id=ev.target_id) AND NOT EXISTS (SELECT 1 FROM conditions cd WHERE cd.id=ev.target_id)"@;
    let a = "SELECT COUNT(*) FROM "@ + "evidence"@ + " "@;
    let b = "."@ + "target_id"@ + ")"@;
    assert(q.subrange(0, a.len() as int) =~= a);
    assert(q.subrange(q.len() - b.len(), q.len() as int) =~= b);
    assert("evidence.target_id orphan"@ =~= "evidence"@ + "."@ + "target_id"@ + " orphan"@);
}

proof fn lemma_check_of_evidence_source_unit_id()
    ensures
        "evidence.source_unit_id orphan"@ == checked_column(4).0 + "."@ + checked_column(4).1 + " orphan"@,
        ("SELECT COUNT(*) FROM "@ + checked_column(4).0 + " "@).is_prefix_of(
            "SELECT COUNT(*) FROM evidence ev WHERE ev.source_unit_id IS NOT NULL AND NOT EXISTS (SELECT 1 FROM document_units u WHERE u.id=ev.source_unit_id)"@,
        ),
        ("."@ + checked_column(4).1 + ")"@).is_suffix_of(
            "SELECT COUNT(*) FROM evidence ev WHERE ev.source_unit_id IS NOT NULL AND NOT EXISTS (SELECT 1 FROM document_units u WHERE u.id=ev.source_unit_id)"@,
        ),
{
    reveal_strlit("evidence");
    reveal_strlit("source_unit_id");
    reveal_strlit(".");
    reveal_strlit(" orphan");
    reveal_strlit("SELECT COUNT(*) FROM ");
    reveal_strlit(" ");
    reveal_strlit(")");
    reveal_strlit("evidence.source_unit_id orphan");
    reveal_strlit(
        "SELECT COUNT(*) FROM evidence ev WHERE ev.source_unit_id IS NOT NULL AND NOT EXISTS (SELECT 1 FROM document_units u WHERE u.id=ev.source_unit_id)",
    );
    let q = "SELECT COUNT(*) FROM evidence ev WHERE ev.source_unit_id IS NOT NULL AND NOT EXISTS (SELECT 1 FROM document_units u WHERE u.id=ev.source_unit_id)"@;
    let a = "SELECT COUNT(*) FROM "@ + "evidence"@ + " "@;
    let b = "."@ + "source_unit_id"@ + ")"@;
    assert(q.subrange(0, a.len() as int) =~= a);
    assert(q.subrange(q.len() - b.len(), q.len() as int) =~= b);
    assert("evidence.source_unit_id orphan"@ =~= "evidence"@ + "."@ + "source_unit_id"@ + " orphan"@);
}

proof fn lemma_check_of_claims_subject_id()
    ensures
        "claims.subject_id orphan"@ == checked_column(5).0 + "."@ + checked_column(5).1 + " orphan"@,
        ("SELECT COUNT(*) FROM "@ + checked_column(5).0 + " "@).is_prefix_of(
            "SELECT COUNT(*) FROM claims c WHERE c.subject_id IS NOT NULL AND NOT EXISTS (SELECT 1 FROM entities e WHERE e.id=c.subject_id)"@,
        ),
        ("."@ + checked_column(5).1 + ")"@).is_suffix_of(
            "SELECT COUNT(*) FROM claims c WHERE c.subject_id IS NOT NULL AND NOT EXISTS (SELECT 1 FROM entities e WHERE e.id=c.subject_id)"@,
        ),
{
    reveal_strlit("claims");
    reveal_strlit("subject_id");
    reveal_strlit(".");
    reveal_strlit(" orphan");
    reveal_strlit("SELECT COUNT(*) FROM ");
    reveal_strlit(" ");
    reveal_strlit(")");
    reveal_strlit("claims.subject_id orphan");
    reveal_strlit(
        "SELECT COUNT(*) FROM claims c WHERE c.subject_id IS NOT NULL AND NOT EXISTS (SELECT 1 FROM entities e WHERE e.id=c.subject_id)",
    );
    let q = "SELECT COUNT(*) FROM claims c WHERE c.subject_id IS NOT NULL AND NOT EXISTS (SELECT 1 FROM entities e WHERE e.id=c.subject_id)"@;
    let a = "SELECT COUNT(*) FROM "@ + "claims"@ + " "@;
    let b = "."@ + "subject_id"@ + ")"@;
    assert(q.subrange(0, a.len() as int) =~= a);
    assert(q.subrange(q.len() - b.len(), q.len() as int) =~= b);
    assert("claims.subject_id orphan"@ =~= "claims"@ + "."@ + "subject_id"@ + " orphan"@);
}

proof fn lemma_check_of_claims_object_id()
    ensures
        "claims.object_id orphan"@ == checked_column(6).0 + "."@ + checked_column(6).1 + " orphan"@,
        ("SELECT COUNT(*) FROM "@ + checked_column(6).0 + " "@).is_prefix_of(
            "SELECT COUNT(*) FROM claims c WHERE c.object_id IS NOT NULL AND NOT EXISTS (SELECT 1 FROM entities e WHERE e.id=c.object_id)"@,
        ),
        ("."@ + checked_column(6).1 + ")"@).is_suffix_of(
            "SELECT COUNT(*) FROM claims c WHERE c.object_id IS NOT NULL AND NOT EXISTS (SELECT 1 FROM entities e WHERE e.id=c.object_id)"@,
        ),
{
    reveal_strlit("claims");
    reveal_strlit("object_id");
    reveal_strlit(".");
    reveal_strlit(" orphan");
    reveal_strlit("SELECT COUNT(*) FROM ");
    reveal_strlit(" ");
    reveal_strlit(")");
    reveal_strlit("claims.object_id orphan");
    reveal_strlit(
        "SELECT COUNT(*) FROM claims c WHERE c.object_id IS NOT NULL AND NOT EXISTS (SELECT 1 FROM entities e WHERE e.id=c.object_id)",
    );
    let q = "SELECT COUNT(*) FROM claims c WHERE c.object_id IS NOT NULL AND NOT EXISTS (SELECT 1 FROM entities e WHERE e.id=c.object_id)"@;
    let a = "SELECT COUNT(*) FROM "@ + "claims"@ + " "@;
    let b = "."@ + "object_id"@ + ")"@;
    assert(q.subrange(0, a.len() as int) =~= a);
    assert(q.subrange(q.len() - b.len(), q.len() as int) =~= b);
    assert("claims.object_id orphan"@ =~= "claims"@ + "."@ + "object_id"@ + " orphan"@);
}

proof fn lemma_check_of_events_subject_id()
    ensures
        "events.subject_id orphan"@ == checked_column(7).0 + "."@ + checked_column(7).1 + " orphan"@,
        ("SELECT COUNT(*) FROM "@ + checked_column(7).0 + " "@).is_prefix_of(
            "SELECT COUNT(*) FROM events ev WHERE ev.subject_id IS NOT NULL AND NOT EXISTS (SELECT 1 FROM entities e WHERE e.id=ev.subject_id)"@,
        ),
        ("."@ + checked_column(7).1 + ")"@).is_suffix_of(
            "SELECT COUNT(*) FROM events ev WHERE ev.subject_id IS NOT NULL AND NOT EXISTS (SELECT 1 FROM entities e WHERE e.id=ev.subject_id)"@,
        ),
{
    reveal_strlit("events");
    reveal_strlit("subject_id");
    reveal_strlit(".");
    reveal_strlit(" orphan");
    reveal_strlit("SELECT COUNT(*) FROM ");
    reveal_strlit(" ");
    reveal_strlit(")");
    reveal_strlit("events.subject_id orphan");
    reveal_strlit(
        "SELECT COUNT(*) FROM events ev WHERE ev.subject_id IS NOT NULL AND NOT EXISTS (SELECT 1 FROM entities e WHERE e.id=ev.subject_id)",
    );
    let q = "SELECT COUNT(*) FROM events ev WHERE ev.subject_id IS NOT NULL AND NOT EXISTS (SELECT 1 FROM entities e WHERE e.id=ev.subject_id)"@;
    let a = "SELECT COUNT(*) FROM "@ + "events"@ + " "@;
    let b = "."@ + "subject_id"@ + ")"@;
    assert(q.subrange(0, a.len() as int) =~= a);
    assert(q.subrange(q.len() - b.len(), q.len() as int) =~= b);
    assert("events.subject_id orphan"@ =~= "events"@ + "."@ + "subject_id"@ + " orphan"@);
}

/// Each check is named after a table and a column, counts the rows of that table, and
/// looks for those that the column refers to.
pub proof fn checks_look_where_they_say(i: int)
    requires
        0 <= i < orphan_checks_of().len(),
    ensures
        orphan_checks_of().len() == 8,
        ({
            let (label, sql) = orphan_checks_of()[i];
            let (table, column) = checked_column(i);
            &&& label == table + "."@ + column + " orphan"@
            &&& ("SELECT COUNT(*) FROM "@ + table + " "@).is_prefix_of(sql)
            &&& ("."@ + column + ")"@).is_suffix_of(sql)
        }),
{
    lemma_check_of_relations_source_id();
    lemma_check_of_relations_target_id();
    lemma_check_of_conditions_target_id();
    lemma_check_of_evidence_target_id();
    lemma_check_of_evidence_source_unit_id();
    lemma_check_of_claims_subject_id();
    lemma_check_of_claims_object_id();
    lemma_check_of_events_subject_id();
}

} // verus!
