//! Schema of the knowledge base: tables, views, their purpose, and the
//! statements that set a database up.

use vstd::prelude::*;
use vstd::string::*;

use crate::json_model::{lemma_before_trans, text_before};
use crate::text::{opt_str_view, pairs_view, str_eq, views};

verus! {

/// Name of the full-text table over the document units.
pub const FTS_TABLE: &'static str = "units_fts";

/// Operational settings, applied to every connection.
pub const PRAGMAS: &'static str = "PRAGMA journal_mode = WAL;\n         PRAGMA busy_timeout = 5000;\n         PRAGMA synchronous = NORMAL;\n         PRAGMA foreign_keys = ON;";

/// Tables, full-text index, triggers, views and indexes of the first version.
pub const DDL_V1: &'static str = "\nCREATE TABLE IF NOT EXISTS analysis_runs (\n  id          TEXT PRIMARY KEY,\n  label       TEXT,\n  status      TEXT NOT NULL DEFAULT 'running',\n  started_at  TEXT NOT NULL DEFAULT (strftime('%Y-%m-%dT%H:%M:%fZ','now')),\n  finished_at TEXT,\n  config      TEXT NOT NULL DEFAULT '{}',\n  summary     TEXT\n);\n\nCREATE TABLE IF NOT EXISTS documents (\n  id              TEXT PRIMARY KEY,\n  title           TEXT NOT NULL,\n  source          TEXT,\n  document_type   TEXT,\n  version         TEXT,\n  superseded_by   TEXT,\n  analysis_status TEXT NOT NULL DEFAULT 'pending',\n  analyzed_at     TEXT,\n  file_hash       TEXT,\n  created_at      TEXT NOT NULL DEFAULT (strftime('%Y-%m-%dT%H:%M:%fZ','now')),\n  updated_at      TEXT NOT NULL DEFAULT (strftime('%Y-%m-%dT%H:%M:%fZ','now')),\n  metadata        TEXT NOT NULL DEFAULT '{}',\n  annotations     TEXT NOT NULL DEFAULT '{}'\n);\n\nCREATE TABLE IF NOT EXISTS document_units (\n  id              TEXT PRIMARY KEY,\n  document_id     TEXT NOT NULL REFERENCES documents(id) ON DELETE CASCADE,\n  parent_id       TEXT REFERENCES document_units(id),\n  unit_type       TEXT NOT NULL,\n  text            TEXT NOT NULL,\n  position        INTEGER NOT NULL DEFAULT 0,\n  metadata        TEXT NOT NULL DEFAULT '{}',\n  annotations     TEXT NOT NULL DEFAULT '{}',\n  analysis_run_id TEXT REFERENCES analysis_runs(id),\n  obsolete        INTEGER NOT NULL DEFAULT 0\n);\n\nCREATE TABLE IF NOT EXISTS entities (\n  id              TEXT PRIMARY KEY,\n  document_id     TEXT NOT NULL REFERENCES documents(id) ON DELETE CASCADE,\n  entity_type     TEXT,\n  name            TEXT NOT NULL,\n  name_norm       TEXT,\n  attributes      TEXT NOT NULL DEFAULT '{}',\n  annotations     TEXT NOT NULL DEFAULT '{}',\n  analysis_run_id TEXT REFERENCES analysis_runs(id),\n  obsolete        INTEGER NOT NULL DEFAULT 0\n);\n\nCREATE TABLE IF NOT EXISTS claims (\n  id              TEXT PRIMARY KEY,\n  document_id     TEXT NOT NULL REFERENCES documents(id) ON DELETE CASCADE,\n  subject_id      TEXT REFERENCES entities(id),\n  subject_value   TEXT,\n  predicate       TEXT NOT NULL,\n  object_id       TEXT REFERENCES entities(id),\n  object_value    TEXT,\n  modality        TEXT NOT NULL DEFAULT 'assertion',\n  polarity        TEXT NOT NULL DEFAULT 'positive',\n  fingerprint     TEXT,\n  confidence      REAL,\n  attributes      TEXT NOT NULL DEFAULT '{}',\n  annotations     TEXT NOT NULL DEFAULT '{}',\n  analysis_run_id TEXT REFERENCES analysis_runs(id),\n  obsolete        INTEGER NOT NULL DEFAULT 0\n);\n\nCREATE TABLE IF NOT EXISTS relations (\n  id              TEXT PRIMARY KEY,\n  document_id     TEXT REFERENCES documents(id) ON DELETE CASCADE,\n  source_type     TEXT NOT NULL,\n  source_id       TEXT NOT NULL,\n  relation_type   TEXT NOT NULL,\n  target_type     TEXT NOT NULL,\n  target_id       TEXT NOT NULL,\n  confidence      REAL,\n  attributes      TEXT NOT NULL DEFAULT '{}',\n  annotations     TEXT NOT NULL DEFAULT '{}',\n  analysis_run_id TEXT REFERENCES analysis_runs(id),\n  obsolete        INTEGER NOT NULL DEFAULT 0\n);\n\nCREATE TABLE IF NOT EXISTS conditions (\n  id              TEXT PRIMARY KEY,\n  document_id     TEXT REFERENCES documents(id) ON DELETE CASCADE,\n  target_type     TEXT NOT NULL,\n  target_id       TEXT NOT NULL,\n  condition_type  TEXT NOT NULL,\n  expression      TEXT NOT NULL DEFAULT '{}',\n  annotations     TEXT NOT NULL DEFAULT '{}',\n  analysis_run_id TEXT REFERENCES analysis_runs(id),\n  obsolete        INTEGER NOT NULL DEFAULT 0\n);\n\nCREATE TABLE IF NOT EXISTS events (\n  id              TEXT PRIMARY KEY,\n  document_id     TEXT NOT NULL REFERENCES documents(id) ON DELETE CASCADE,\n  event_type      TEXT,\n  subject_id      TEXT REFERENCES entities(id),\n  start_time      TEXT,\n  end_time        TEXT,\n  sort_key        TEXT,\n  precision       TEXT NOT NULL DEFAULT 'day',\n  attributes      TEXT NOT NULL DEFAULT '{}',\n  annotations     TEXT NOT NULL DEFAULT '{}',\n  analysis_run_id TEXT REFERENCES analysis_runs(id),\n  obsolete        INTEGER NOT NULL DEFAULT 0\n);\n\nCREATE TABLE IF NOT EXISTS evidence (\n  id              TEXT PRIMARY KEY,\n  document_id     TEXT NOT NULL REFERENCES documents(id) ON DELETE CASCADE,\n  source_unit_id  TEXT REFERENCES document_units(id),\n  target_type     TEXT NOT NULL,\n  target_id       TEXT NOT NULL,\n  start_offset    INTEGER,\n  end_offset      INTEGER,\n  matched_text    TEXT,\n  evidence_type   TEXT,\n  analysis_run_id TEXT REFERENCES analysis_runs(id),\n  obsolete        INTEGER NOT NULL DEFAULT 0\n);\n\nCREATE TABLE IF NOT EXISTS canonical_entities (\n  id              TEXT PRIMARY KEY,\n  name            TEXT NOT NULL,\n  entity_type     TEXT,\n  aliases         TEXT NOT NULL DEFAULT '[]',\n  attributes      TEXT NOT NULL DEFAULT '{}',\n  annotations     TEXT NOT NULL DEFAULT '{}',\n  analysis_run_id TEXT REFERENCES analysis_runs(id),\n  obsolete        INTEGER NOT NULL DEFAULT 0,\n  created_at      TEXT NOT NULL DEFAULT (strftime('%Y-%m-%dT%H:%M:%fZ','now'))\n);\n\nCREATE TABLE IF NOT EXISTS entity_links (\n  id              TEXT PRIMARY KEY,\n  entity_id       TEXT NOT NULL REFERENCES entities(id) ON DELETE CASCADE,\n  canonical_id    TEXT NOT NULL REFERENCES canonical_entities(id) ON DELETE CASCADE,\n  confidence      REAL,\n  annotations     TEXT NOT NULL DEFAULT '{}',\n  analysis_run_id TEXT REFERENCES analysis_runs(id),\n  created_at      TEXT NOT NULL DEFAULT (strftime('%Y-%m-%dT%H:%M:%fZ','now')),\n  UNIQUE(entity_id, canonical_id)\n);\n\nCREATE TABLE IF NOT EXISTS annotation_versions (\n  id              TEXT PRIMARY KEY,\n  target_type     TEXT NOT NULL,\n  target_id       TEXT NOT NULL,\n  version         INTEGER NOT NULL,\n  annotations     TEXT NOT NULL DEFAULT '{}',\n  analysis_run_id TEXT REFERENCES analysis_runs(id),\n  created_at      TEXT NOT NULL DEFAULT (strftime('%Y-%m-%dT%H:%M:%fZ','now')),\n  created_by      TEXT,\n  reason          TEXT,\n  UNIQUE(target_type, target_id, version)\n);\n\nCREATE VIRTUAL TABLE IF NOT EXISTS units_fts USING fts5(\n  text,\n  content='document_units',\n  content_rowid='rowid',\n  tokenize='trigram'\n);\n\nCREATE TRIGGER IF NOT EXISTS units_fts_ai AFTER INSERT ON document_units BEGIN\n  INSERT INTO units_fts(rowid, text) VALUES (new.rowid, new.text);\nEND;\n\nCREATE TRIGGER IF NOT EXISTS units_fts_ad AFTER DELETE ON document_units BEGIN\n  INSERT INTO units_fts(units_fts, rowid, text) VALUES ('delete', old.rowid, old.text);\nEND;\n\nCREATE INDEX IF NOT EXISTS idx_documents_hash    ON documents(file_hash);\nCREATE INDEX IF NOT EXISTS idx_units_doc         ON document_units(document_id, position);\nCREATE INDEX IF NOT EXISTS idx_entities_doc      ON entities(document_id);\nCREATE INDEX IF NOT EXISTS idx_entities_name     ON entities(name);\nCREATE INDEX IF NOT EXISTS idx_entities_norm     ON entities(name_norm);\nCREATE INDEX IF NOT EXISTS idx_claims_doc        ON claims(document_id);\nCREATE INDEX IF NOT EXISTS idx_claims_subj       ON claims(subject_id);\nCREATE INDEX IF NOT EXISTS idx_claims_obj        ON claims(object_id);\nCREATE INDEX IF NOT EXISTS idx_claims_fingerprint ON claims(fingerprint);\nCREATE INDEX IF NOT EXISTS idx_evidence_unit     ON evidence(source_unit_id);\nCREATE INDEX IF NOT EXISTS idx_evidence_target   ON evidence(target_type, target_id);\nCREATE INDEX IF NOT EXISTS idx_relations_src     ON relations(source_type, source_id);\nCREATE INDEX IF NOT EXISTS idx_relations_dst     ON relations(target_type, target_id);\nCREATE INDEX IF NOT EXISTS idx_links_entity      ON entity_links(entity_id);\nCREATE INDEX IF NOT EXISTS idx_links_canonical   ON entity_links(canonical_id);\nCREATE INDEX IF NOT EXISTS idx_ann_versions      ON annotation_versions(target_type, target_id);\nCREATE INDEX IF NOT EXISTS idx_conditions_target ON conditions(target_type, target_id);\nCREATE INDEX IF NOT EXISTS idx_conditions_doc    ON conditions(document_id);\n\nCREATE VIEW IF NOT EXISTS v_documents_current AS\nSELECT * FROM documents WHERE superseded_by IS NULL;\n\nCREATE VIEW IF NOT EXISTS v_claims_with_evidence AS\nSELECT c.id            AS claim_id,\n       c.document_id,\n       c.subject_id,\n       c.subject_value,\n       c.object_id,\n       c.object_value,\n       c.predicate,\n       c.modality,\n       c.polarity,\n       c.confidence,\n       c.annotations,\n       e.id            AS evidence_id,\n       e.start_offset,\n       e.end_offset,\n       e.matched_text,\n       u.id            AS source_unit_id,\n       u.unit_type,\n       u.position,\n       u.text          AS unit_text\nFROM claims c\nLEFT JOIN evidence e  ON e.target_type = 'claim' AND e.target_id = c.id AND e.obsolete = 0\nLEFT JOIN document_units u ON u.id = e.source_unit_id AND u.obsolete = 0\nWHERE c.obsolete = 0;\n";

/// Marks a database as being of the first version.
pub const SET_VERSION_1: &'static str = "PRAGMA user_version = 1;";

/// The batches that bring a database of a version up to date.
pub open spec fn pending_batches(version: int) -> Seq<Seq<char>> {
    if version < 1 {
        seq![DDL_V1@, SET_VERSION_1@]
    } else {
        Seq::empty()
    }
}

/// The batches that bring a database of a version up to date, in order.
pub fn migration_batches(version: i64) -> (r: Vec<String>)
    ensures
        views(r@) == pending_batches(version as int),
{
    let mut out: Vec<String> = Vec::new();
    if version < 1 {
        out.push(DDL_V1.to_owned());
        out.push(SET_VERSION_1.to_owned());
    }
    proof {
        assert(views(out@) =~= pending_batches(version as int));
    }
    out
}


/// What a table or view is for, in one line.
pub open spec fn purpose_of(name: Seq<char>) -> Option<Seq<char>> {
    if name == "analysis_runs"@ {
        Some("One analysis-process run record (id / status / started_at / finished_at / config / summary)"@)
    } else if name == "documents"@ {
        Some("Registered files (version chain superseded_by, analysis_status, file_hash, metadata, annotations)"@)
    } else if name == "document_units"@ {
        Some("Document units (page / paragraph / section, ...). text is immutable; machine extraction leaves analysis_run_id null"@)
    } else if name == "entities"@ {
        Some("Entities (people, organizations, standards, things). entity_type is loose; name_norm is NFKC-normalized"@)
    } else if name == "claims"@ {
        Some("Subject-predicate-object statements. modality / polarity; fingerprint auto-generated"@)
    } else if name == "relations"@ {
        Some("Relation edges (causes / depends_on / contradicts / supports / precedes / qualifies, ...). document_id NULL = cross-document"@)
    } else if name == "conditions"@ {
        Some("Conditions / prerequisites / exceptions (prerequisite / exception / threshold / temporal / scope). target is a claim or event"@)
    } else if name == "events"@ {
        Some("Dated events. Ambiguous times: TEXT for display + sort_key + precision"@)
    } else if name == "evidence"@ {
        Some("Provenance (most important): which unit and offsets each item came from. No attributes"@)
    } else if name == "canonical_entities"@ {
        Some("Cross-document identity resolution (derived; entity rows are not modified)"@)
    } else if name == "entity_links"@ {
        Some("entity -> canonical links (derived; cascade-deleted with entity / canonical)"@)
    } else if name == "annotation_versions"@ {
        Some("Annotation history (current value lives in each table's annotations column; version / reason / created_by)"@)
    } else if name == "v_documents_current"@ {
        Some("View: current versions only (superseded_by IS NULL)"@)
    } else if name == "v_claims_with_evidence"@ {
        Some("View: claims + evidence + source-unit excerpt in one query (prevents JOIN mistakes)"@)
    } else if name == "units_fts"@ {
        Some("FTS5 trigram full-text search over document_units.text (external content). 3+ chars: MATCH \"phrase\"; 1-2 chars: LIKE fallback"@)
    } else {
        None
    }
}

/// What a table or view is for, in one line.
pub fn table_meta(name: &str) -> (r: Option<&'static str>)
    ensures
        opt_str_view(r) == purpose_of(name@),
{
    if str_eq(name, "analysis_runs") {
        Some("One analysis-process run record (id / status / started_at / finished_at / config / summary)")
    } else if str_eq(name, "documents") {
        Some("Registered files (version chain superseded_by, analysis_status, file_hash, metadata, annotations)")
    } else if str_eq(name, "document_units") {
        Some("Document units (page / paragraph / section, ...). text is immutable; machine extraction leaves analysis_run_id null")
    } else if str_eq(name, "entities") {
        Some("Entities (people, organizations, standards, things). entity_type is loose; name_norm is NFKC-normalized")
    } else if str_eq(name, "claims") {
        Some("Subject-predicate-object statements. modality / polarity; fingerprint auto-generated")
    } else if str_eq(name, "relations") {
        Some("Relation edges (causes / depends_on / contradicts / supports / precedes / qualifies, ...). document_id NULL = cross-document")
    } else if str_eq(name, "conditions") {
        Some("Conditions / prerequisites / exceptions (prerequisite / exception / threshold / temporal / scope). target is a claim or event")
    } else if str_eq(name, "events") {
        Some("Dated events. Ambiguous times: TEXT for display + sort_key + precision")
    } else if str_eq(name, "evidence") {
        Some("Provenance (most important): which unit and offsets each item came from. No attributes")
    } else if str_eq(name, "canonical_entities") {
        Some("Cross-document identity resolution (derived; entity rows are not modified)")
    } else if str_eq(name, "entity_links") {
        Some("entity -> canonical links (derived; cascade-deleted with entity / canonical)")
    } else if str_eq(name, "annotation_versions") {
        Some("Annotation history (current value lives in each table's annotations column; version / reason / created_by)")
    } else if str_eq(name, "v_documents_current") {
        Some("View: current versions only (superseded_by IS NULL)")
    } else if str_eq(name, "v_claims_with_evidence") {
        Some("View: claims + evidence + source-unit excerpt in one query (prevents JOIN mistakes)")
    } else if str_eq(name, "units_fts") {
        Some("FTS5 trigram full-text search over document_units.text (external content). 3+ chars: MATCH \"phrase\"; 1-2 chars: LIKE fallback")
    } else {
        None
    }
}

/// What to know when writing to a table.
pub open spec fn notes_of(name: Seq<char>) -> Option<Seq<char>> {
    if name == "documents"@ {
        Some("Re-registration skips identical content via file_hash (sha256); changed content bumps the version (new row; old row's superseded_by points at it)."@)
    } else if name == "document_units"@ {
        Some("text is immutable; fix extraction errors by adding a new unit and marking the old one obsolete. Machine-extracted units UPSERT on (document_id, unit_type, position, parent_id)."@)
    } else if name == "claims"@ {
        Some("subject/object: subject_id/object_id when an extracted entity is referenced, otherwise subject_value/object_value. Duplicates are detected mechanically via fingerprint (resolution is the analysis run's call)."@)
    } else if name == "relations"@ {
        Some("source_type / target_type allowed: entity / claim / event / document_unit. No FK (polymorphic references); orphan check runs in /kb sync."@)
    } else if name == "conditions"@ {
        Some("target_type allowed: claim / event. expression: {\"op\", \"field\", \"value\", \"unit\"} basic form, or {\"op\": \"raw\", \"text\": ...} when not mechanically comparable. document_id auto-filled on insert."@)
    } else if name == "events"@ {
        Some("subject_id is an entities.id. precision: year / month / day. sort_key example: \"2026-00-00\"."@)
    } else if name == "evidence"@ {
        Some("target_type allowed: entity / claim / relation / event / condition. source_unit_id is a document_units.id (NULL = inferred). start/end_offset are character offsets into unit.text."@)
    } else if name == "entity_links"@ {
        Some("UNIQUE(entity_id, canonical_id). No obsolete flag (derived data; cascade-deleted)."@)
    } else if name == "annotation_versions"@ {
        Some("target_type allowed: documents / document_units / entities / claims / relations / conditions / events / evidence / canonical_entities."@)
    } else {
        None
    }
}

/// What to know when writing to a table.
pub fn table_notes(name: &str) -> (r: Option<&'static str>)
    ensures
        opt_str_view(r) == notes_of(name@),
{
    if str_eq(name, "documents") {
        Some("Re-registration skips identical content via file_hash (sha256); changed content bumps the version (new row; old row's superseded_by points at it).")
    } else if str_eq(name, "document_units") {
        Some("text is immutable; fix extraction errors by adding a new unit and marking the old one obsolete. Machine-extracted units UPSERT on (document_id, unit_type, position, parent_id).")
    } else if str_eq(name, "claims") {
        Some("subject/object: subject_id/object_id when an extracted entity is referenced, otherwise subject_value/object_value. Duplicates are detected mechanically via fingerprint (resolution is the analysis run's call).")
    } else if str_eq(name, "relations") {
        Some("source_type / target_type allowed: entity / claim / event / document_unit. No FK (polymorphic references); orphan check runs in /kb sync.")
    } else if str_eq(name, "conditions") {
        Some("target_type allowed: claim / event. expression: {\"op\", \"field\", \"value\", \"unit\"} basic form, or {\"op\": \"raw\", \"text\": ...} when not mechanically comparable. document_id auto-filled on insert.")
    } else if str_eq(name, "events") {
        Some("subject_id is an entities.id. precision: year / month / day. sort_key example: \"2026-00-00\".")
    } else if str_eq(name, "evidence") {
        Some("target_type allowed: entity / claim / relation / event / condition. source_unit_id is a document_units.id (NULL = inferred). start/end_offset are character offsets into unit.text.")
    } else if str_eq(name, "entity_links") {
        Some("UNIQUE(entity_id, canonical_id). No obsolete flag (derived data; cascade-deleted).")
    } else if str_eq(name, "annotation_versions") {
        Some("target_type allowed: documents / document_units / entities / claims / relations / conditions / events / evidence / canonical_entities.")
    } else {
        None
    }
}

/// Every table and view that is shown, with its type, by name.
pub open spec fn listing() -> Seq<(Seq<char>, Seq<char>)> {
    seq![
        ("analysis_runs"@, "table"@),
        ("annotation_versions"@, "table"@),
        ("canonical_entities"@, "table"@),
        ("claims"@, "table"@),
        ("conditions"@, "table"@),
        ("document_units"@, "table"@),
        ("documents"@, "table"@),
        ("entities"@, "table"@),
        ("entity_links"@, "table"@),
        ("events"@, "table"@),
        ("evidence"@, "table"@),
        ("relations"@, "table"@),
        ("units_fts"@, "table (FTS5 trigram)"@),
        ("v_claims_with_evidence"@, "view"@),
        ("v_documents_current"@, "view"@),
    ]
}

/// Every table and view that is shown, with its type, by name. Shadow tables of
/// the full-text index are not among them.
pub fn listed_tables() -> (r: Vec<(String, String)>)
    ensures
        pairs_view(r@) == listing(),
{
    let mut v: Vec<(String, String)> = Vec::new();
    v.push(("analysis_runs".to_owned(), "table".to_owned()));
    v.push(("annotation_versions".to_owned(), "table".to_owned()));
    v.push(("canonical_entities".to_owned(), "table".to_owned()));
    v.push(("claims".to_owned(), "table".to_owned()));
    v.push(("conditions".to_owned(), "table".to_owned()));
    v.push(("document_units".to_owned(), "table".to_owned()));
    v.push(("documents".to_owned(), "table".to_owned()));
    v.push(("entities".to_owned(), "table".to_owned()));
    v.push(("entity_links".to_owned(), "table".to_owned()));
    v.push(("events".to_owned(), "table".to_owned()));
    v.push(("evidence".to_owned(), "table".to_owned()));
    v.push(("relations".to_owned(), "table".to_owned()));
    v.push(("units_fts".to_owned(), "table (FTS5 trigram)".to_owned()));
    v.push(("v_claims_with_evidence".to_owned(), "view".to_owned()));
    v.push(("v_documents_current".to_owned(), "view".to_owned()));
    proof {
        assert(pairs_view(v@) =~= listing());
    }
    v
}

/// The kinds of row that can be updated.
pub open spec fn update_targets() -> Seq<Seq<char>> {
    seq![
        "documents"@,
        "document_units"@,
        "entities"@,
        "claims"@,
        "relations"@,
        "conditions"@,
        "events"@,
        "evidence"@,
        "canonical_entities"@,
    ]
}

/// The kinds of row that can be updated.
pub fn update_target_types() -> (r: Vec<String>)
    ensures
        views(r@) == update_targets(),
{
    let mut v: Vec<String> = Vec::new();
    v.push("documents".to_owned());
    v.push("document_units".to_owned());
    v.push("entities".to_owned());
    v.push("claims".to_owned());
    v.push("relations".to_owned());
    v.push("conditions".to_owned());
    v.push("events".to_owned());
    v.push("evidence".to_owned());
    v.push("canonical_entities".to_owned());
    proof {
        assert(views(v@) =~= update_targets());
    }
    v
}

/// The listing is in the order of names, without repetition.
pub proof fn listing_is_sorted(i: int, j: int)
    requires
        0 <= i < j < listing().len(),
    ensures
        text_before(listing()[i].0, listing()[j].0, 0),
{
    lemma_chain(i, j);
}

proof fn lemma_neighbours()
    ensures
        text_before("analysis_runs"@, "annotation_versions"@, 0),
        text_before("annotation_versions"@, "canonical_entities"@, 0),
        text_before("canonical_entities"@, "claims"@, 0),
        text_before("claims"@, "conditions"@, 0),
        text_before("conditions"@, "document_units"@, 0),
        text_before("document_units"@, "documents"@, 0),
        text_before("documents"@, "entities"@, 0),
        text_before("entities"@, "entity_links"@, 0),
        text_before("entity_links"@, "events"@, 0),
        text_before("events"@, "evidence"@, 0),
        text_before("evidence"@, "relations"@, 0),
        text_before("relations"@, "units_fts"@, 0),
        text_before("units_fts"@, "v_claims_with_evidence"@, 0),
        text_before("v_claims_with_evidence"@, "v_documents_current"@, 0),
{
    reveal_with_fuel(text_before, 14);
    reveal_strlit("analysis_runs");
    reveal_strlit("annotation_versions");
    reveal_strlit("canonical_entities");
    reveal_strlit("claims");
    reveal_strlit("conditions");
    reveal_strlit("document_units");
    reveal_strlit("documents");
    reveal_strlit("entities");
    reveal_strlit("entity_links");
    reveal_strlit("events");
    reveal_strlit("evidence");
    reveal_strlit("relations");
    reveal_strlit("units_fts");
    reveal_strlit("v_claims_with_evidence");
    reveal_strlit("v_documents_current");
}

proof fn lemma_chain(i: int, j: int)
    requires
        0 <= i < j < listing().len(),
    ensures
        text_before(listing()[i].0, listing()[j].0, 0),
    decreases j - i,
{
    if j > i + 1 {
        lemma_chain(i, j - 1);
        lemma_step(j - 1);
        lemma_before_trans(listing()[i].0, listing()[j - 1].0, listing()[j].0, 0);
    } else {
        lemma_step(i);
    }
}

proof fn lemma_step(i: int)
    requires
        0 <= i < listing().len() - 1,
    ensures
        text_before(listing()[i].0, listing()[i + 1].0, 0),
{
    lemma_neighbours();
}

} // verus!
