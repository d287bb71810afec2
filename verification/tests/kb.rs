//! The knowledge base: queries, schema, insertion, updates and files.

use always_goofy_things::json_model::Json;
use always_goofy_things::kb::{
    approx_row_count, columns_query, describe_table, escape_sql_string, execution_error, hex,
    library_name, library_name_of, list_tables, merge_json_obj, parse_json_obj, quote_ident,
    raw_max_bytes, read_object, requested_table, rows_to_csv, samples_query, sanitize_query,
    search_answer, sha256_bytes, sha256_hex, syntax_error, table_not_found, truncate_body, Cell,
    Column, DbValue, COMMENT_QUERY, EMPTY_QUERY, NO_OBJECT, UNCLOSED_COMMENT, WRITE_QUERY,
};
use always_goofy_things::kb_defs::{
    build_kb_insert_def, build_kb_schema_def, build_kb_search_def, build_kb_update_def,
};
use always_goofy_things::kb_files::{
    backup_destination, backup_name, backup_sql, check_copy, delete_report, delete_source,
    document_type, finish_run, init_error, is_scanned, kb_list, list_documents, mark_missing, mark_stale_runs,
    deleted_endpoints, orphan_checks, orphan_report, page_unit, plan_add, plan_delete, plan_registration,
    record_failure, relative_source, split_paragraphs, start_run, stored_path, sync_action,
    unit_metadata, units_of_text, update_current_meta, AddStep, DocumentRow, ExistingVersion,
    FileFacts, RegisterKind, SyncAction, SyncTally, CURRENT_SQL, DELETE_ALL_SQL, DELETE_ONE_SQL,
    DOCUMENT_ENDPOINTS_SQL, FAILED_SQL, PROMOTE_SQL, SET_METADATA_SQL, SOURCE_ENDPOINTS_SQL, SUPERSEDE_SQL,
};
use always_goofy_things::kb_schema::{
    listed_tables, migration_batches, table_meta, table_notes, update_target_types, PRAGMAS,
};
use always_goofy_things::kb_write::{
    build_claim_fingerprint, insert_item, number_items, plan_row_update, prepare_insert,
    prepare_sized, read_row, read_update, resolve_id_ref, row_query, sql_insert_err,
    target_not_found, update_objects, CurrentRow, InsertContext, InsertStep, ItemKind,
    MISSING_DOCUMENT, NO_TARGET_ID, NO_TARGET_TYPE, NO_UPDATE, QUOTA_EXCEEDED,
};

fn json_of(v: serde_json::Value) -> Json {
    match v {
        serde_json::Value::Null => Json::Null,
        serde_json::Value::Bool(b) => Json::Bool(b),
        serde_json::Value::Number(n) => match (n.as_u64(), n.as_i64()) {
            (Some(u), _) => Json::Unsigned(u),
            (None, Some(i)) => Json::Signed(i),
            (None, None) => Json::Real(n.to_string()),
        },
        serde_json::Value::String(s) => Json::Str(s),
        serde_json::Value::Array(a) => Json::Array(a.into_iter().map(json_of).collect()),
        serde_json::Value::Object(m) => {
            Json::Object(m.into_iter().map(|(k, x)| (k, json_of(x))).collect())
        }
    }
}

fn j(text: &str) -> Json {
    json_of(serde_json::from_str(text).unwrap())
}

fn strings(list: &[&str]) -> Vec<String> {
    list.iter().map(|s| s.to_string()).collect()
}

fn text(s: &str) -> Cell {
    Cell::Text(s.to_string())
}

// --- helpers ---------------------------------------------------------------

#[test]
fn digests_are_those_of_sha_256() {
    let empty = "e3b0c44298fc1c149afbf4c8996fb92427ae41e4649b934ca495991b7852b855";
    assert_eq!(sha256_bytes(&Vec::new()), empty);
    assert_eq!(sha256_hex(""), empty);
    assert_eq!(
        sha256_hex("abc"),
        "ba7816bf8f01cfea414140de5dae2223b00361a396177a9cb410ff61f20015ad"
    );
    assert_eq!(hex(&vec![0, 15, 16, 255], 4), "000f10ff");
}

#[test]
fn a_library_is_named_after_its_directory() {
    assert_eq!(
        library_name("abc"),
        "kb-abc-ba7816bf8f01cfea"
    );
    let digest = vec![1u8; 32];
    assert_eq!(
        library_name_of("/home/me/my work", &digest),
        "kb-_home_me_my_work-0101010101010101"
    );
    let long = "x".repeat(100);
    assert_eq!(
        library_name_of(&long, &digest),
        format!("kb-{}-0101010101010101", "x".repeat(64))
    );
}

#[test]
fn only_objects_are_read_as_objects() {
    assert_eq!(parse_json_obj("{\"b\": 1, \"a\": [2]}"), j("{\"a\": [2], \"b\": 1}"));
    assert_eq!(parse_json_obj("[1]"), j("{}"));
    assert_eq!(parse_json_obj("nonsense"), j("{}"));
    assert_eq!(read_object(Ok(j("{\"a\": 1}"))), j("{\"a\": 1}"));
    assert_eq!(read_object(Err("x".to_string())), j("{}"));
}

#[test]
fn a_patch_sets_removes_and_keeps() {
    assert_eq!(
        merge_json_obj(j("{\"a\": 1, \"b\": 2, \"c\": 3}"), &j("{\"b\": null, \"c\": 4, \"d\": 5, \"e\": null}")),
        Ok(j("{\"a\": 1, \"c\": 4, \"d\": 5}"))
    );
    assert_eq!(merge_json_obj(j("{}"), &j("[]")), Err(NO_OBJECT.to_string()));
}

#[test]
fn quotes_are_doubled() {
    assert_eq!(quote_ident("claims"), "\"claims\"");
    assert_eq!(quote_ident("a\"b"), "\"a\"\"b\"");
    assert_eq!(escape_sql_string("it's"), "it''s");
    assert_eq!(raw_max_bytes(0), 65536);
    assert_eq!(raw_max_bytes(7), 7);
}

// --- queries ---------------------------------------------------------------

#[test]
fn only_reading_queries_are_admitted() {
    for q in [
        "SELECT 1",
        "  select * from t",
        "With x AS (SELECT 1) SELECT * FROM x",
        "EXPLAIN SELECT 1",
        "-- comment\nSELECT 1",
        "/* a */ /* b */\n-- c\n select 1",
    ] {
        assert_eq!(sanitize_query(q), None, "{q}");
    }
    assert_eq!(sanitize_query("   "), Some(EMPTY_QUERY));
    assert_eq!(sanitize_query(""), Some(EMPTY_QUERY));
    assert_eq!(sanitize_query("-- only"), Some(COMMENT_QUERY));
    assert_eq!(sanitize_query("/* open"), Some(UNCLOSED_COMMENT));
    assert_eq!(sanitize_query("DELETE FROM t"), Some(WRITE_QUERY));
    assert_eq!(sanitize_query("-- x\nINSERT INTO t VALUES (1)"), Some(WRITE_QUERY));
    for q in ["SELECT(1)", "SELECT*FROM t", "select'x'", "explain/* c */ select 1"] {
        assert_eq!(sanitize_query(q), None, "{q}");
    }
    assert_eq!(sanitize_query("SELECTION 1"), Some(WRITE_QUERY));
    assert_eq!(sanitize_query("(SELECT 1)"), Some(WRITE_QUERY));
}

#[test]
fn long_results_are_cut_between_characters() {
    assert_eq!(truncate_body("abc", 3), "abc");
    assert_eq!(
        truncate_body("a\u{3042}b", 3),
        "a\n[KB_TRUNCATED] Result truncated at 3 bytes. Use tighter WHERE filters, GROUP BY aggregation, or smaller LIMIT to retrieve complete data."
    );
    let answer = search_answer(&strings(&["n"]), &vec![vec![DbValue::Whole(7)]], 100);
    assert_eq!(answer, j("{\"content\": \"n\\n7\\n\"}"));
    assert_eq!(rows_to_csv(&strings(&["a", "b"]), &Vec::new()), "a,b\n");
}

#[test]
fn query_errors_say_what_to_check() {
    assert_eq!(
        syntax_error("near x"),
        "[KB_SYNTAX_ERROR] Query syntax error: near x. Check your SQL syntax and try again (use data_kb_schema to confirm table/column names)."
    );
    assert_eq!(
        execution_error("no"),
        "[KB_EXEC_ERROR] Execution error: no. Verify table/column names exist (use data_kb_schema to check) and that you are not writing (INSERT/UPDATE/DELETE)."
    );
}

// --- schema ----------------------------------------------------------------

#[test]
fn tables_are_listed_by_name() {
    let names: Vec<String> = listed_tables().into_iter().map(|p| p.0).collect();
    let mut sorted = names.clone();
    sorted.sort();
    assert_eq!(names, sorted);
    assert_eq!(names.len(), 15);
    for n in &names {
        assert!(table_meta(n).is_some(), "{n}");
    }
    assert_eq!(table_meta("sqlite_master"), None);
    assert!(table_notes("claims").unwrap().starts_with("subject/object:"));
    assert_eq!(table_notes("entities"), None);
    assert_eq!(update_target_types().len(), 9);
}

#[test]
fn row_counts_come_from_the_statistics() {
    let stats = vec![
        ("claims".to_string(), "x y".to_string()),
        ("claims".to_string(), "12 3".to_string()),
        ("claims".to_string(), "99".to_string()),
        ("events".to_string(), "".to_string()),
    ];
    assert_eq!(approx_row_count(&stats, "claims"), 12);
    assert_eq!(approx_row_count(&stats, "events"), 0);
    assert_eq!(approx_row_count(&stats, "entities"), 0);
    let list = list_tables(&stats);
    let first = j("{\"name\": \"analysis_runs\", \"type\": \"table\", \"approx_rows\": 0, \"purpose\": \"One analysis-process run record (id / status / started_at / finished_at / config / summary)\"}");
    assert_eq!(list.array_at("tables").unwrap()[0], first);
    assert_eq!(list.array_at("tables").unwrap()[3].i64_at("approx_rows"), Some(12));
    assert_eq!(list.str_at("status"), Some("ok"));
}

#[test]
fn a_table_is_described() {
    assert_eq!(requested_table(Some(" claims ")), Some("claims"));
    assert_eq!(requested_table(Some("  ")), None);
    assert_eq!(requested_table(None), None);
    assert_eq!(columns_query("a\"b"), "PRAGMA table_info(\"a\"\"b\")");
    assert_eq!(samples_query("events"), "SELECT * FROM \"events\" LIMIT 3");
    assert!(table_not_found("x").starts_with("[KB_EXEC_ERROR] Table or view not found: 'x'."));
    let columns = vec![
        Column { name: "id".to_string(), kind: "TEXT".to_string(), pk: 1 },
        Column { name: "n".to_string(), kind: "INTEGER".to_string(), pk: 0 },
    ];
    let samples = vec![
        vec![DbValue::Text("a".to_string()), DbValue::Whole(3)],
        vec![DbValue::Blob(2), DbValue::Null],
        vec![DbValue::Real { shown: "2".to_string(), json: Some("2.0".to_string()) }, DbValue::Real { shown: "inf".to_string(), json: None }],
    ];
    let d = describe_table("events", &columns, &strings(&["id", "n"]), &samples);
    assert_eq!(d.get("columns"), Some(&j("[{\"name\": \"id\", \"type\": \"TEXT\", \"pk\": true}, {\"name\": \"n\", \"type\": \"INTEGER\", \"pk\": false}]")));
    assert_eq!(d.get("samples"), Some(&j("[{\"id\": \"a\", \"n\": 3}, {\"id\": \"<blob 2 bytes>\", \"n\": null}, {\"id\": 2.0, \"n\": null}]")));
    assert_eq!(d.str_at("table"), Some("events"));
    assert!(d.str_at("purpose").unwrap().starts_with("Dated events."));
    assert!(d.str_at("notes").unwrap().starts_with("subject_id is an entities.id."));
    assert_eq!(describe_table("x", &Vec::new(), &Vec::new(), &Vec::new()).str_at("notes"), Some(""));
}

#[test]
fn databases_are_migrated_once() {
    assert_eq!(migration_batches(0).len(), 2);
    assert!(migration_batches(0)[0].contains("CREATE VIRTUAL TABLE IF NOT EXISTS units_fts"));
    assert_eq!(migration_batches(0)[1], "PRAGMA user_version = 1;");
    assert!(migration_batches(1).is_empty());
    assert!(PRAGMAS.contains("foreign_keys = ON"));
}

#[test]
fn the_schema_and_the_statements_fit_a_database() {
    let conn = rusqlite::Connection::open_in_memory().unwrap();
    for batch in migration_batches(0) {
        conn.execute_batch(&batch).unwrap();
    }
    for t in listed_tables() {
        conn.prepare(&samples_query(&t.0)).unwrap();
        conn.prepare(&columns_query(&t.0)).unwrap();
    }
    for (_, sql) in orphan_checks() {
        let n: i64 = conn.query_row(&sql, [], |r| r.get(0)).unwrap();
        assert_eq!(n, 0);
    }
    for t in update_target_types() {
        conn.prepare(&row_query(&t)).unwrap();
    }
    conn.prepare(SOURCE_ENDPOINTS_SQL).unwrap();
    conn.prepare(DOCUMENT_ENDPOINTS_SQL).unwrap();
    conn.prepare(CURRENT_SQL).unwrap();
    conn.prepare(FAILED_SQL).unwrap();
    let cx = context(&[]);
    let items = [
        (ItemKind::Entity, "{\"name\": \"n\"}"),
        (ItemKind::Claim, "{\"predicate\": \"p\", \"subject_value\": {\"v\": 1}}"),
        (ItemKind::Relation, "{\"relation_type\": \"r\", \"source_type\": \"s\", \"source_id\": \"1\", \"target_type\": \"t\", \"target_id\": \"2\"}"),
        (ItemKind::Condition, "{\"target_type\": \"claim\", \"target_id\": \"1\", \"condition_type\": \"c\", \"expression\": {}}"),
        (ItemKind::Event, "{}"),
        (ItemKind::Evidence, "{\"target_type\": \"claim\", \"target_id\": \"1\"}"),
    ];
    for (kind, item) in items {
        let step = insert_item(kind, "id", &j(item), &cx).unwrap();
        let s = step.complete(None);
        let stmt = conn.prepare(&s.sql).unwrap();
        assert_eq!(stmt.parameter_count(), s.params.len());
    }
}

#[test]
fn the_tools_are_defined() {
    assert_eq!(
        build_kb_schema_def().get("function").unwrap().str_at("name"),
        Some("data_kb_schema")
    );
    let def = build_kb_search_def();
    assert_eq!(def.str_at("type"), Some("function"));
    let params = def.get("function").unwrap().get("parameters").unwrap();
    assert_eq!(params.get("required"), Some(&j("[\"query\"]")));
    assert_eq!(
        params.get("properties").unwrap().get("query").unwrap().str_at("type"),
        Some("string")
    );
    let insert = build_kb_insert_def();
    let props = insert.get("function").unwrap().get("parameters").unwrap().get("properties").unwrap();
    assert_eq!(props.get("claims").unwrap().get("items"), Some(&j("{\"type\": \"object\"}")));
    let update = build_kb_update_def();
    assert_eq!(
        update.get("function").unwrap().get("parameters").unwrap().get("required"),
        Some(&j("[\"target_type\", \"target_id\"]"))
    );
}

// --- insertion -------------------------------------------------------------

fn context(refs: &[(&str, &str)]) -> InsertContext {
    InsertContext {
        doc_id: "doc".to_string(),
        run_id: "run".to_string(),
        refs: refs.iter().map(|p| (p.0.to_string(), p.1.to_string())).collect(),
    }
}

fn planned(kind: ItemKind, item: &str, refs: &[(&str, &str)]) -> Result<Vec<Cell>, String> {
    match insert_item(kind, "id", &j(item), &context(refs)) {
        Ok(InsertStep::Direct(s)) => Ok(s.params),
        Ok(InsertStep::WithDocument { target_id: _, statement }) => Ok(statement.params),
        Err(e) => Err(e),
    }
}

#[test]
fn references_are_resolved() {
    let refs = vec![("e1".to_string(), "id-1".to_string())];
    let resolve = |item: &str| resolve_id_ref(&j(item), "subject_id", "subject_ref", &refs);
    assert_eq!(resolve("{\"subject_id\": \"x\"}"), Ok(Some("x".to_string())));
    assert_eq!(resolve("{\"subject_ref\": \"e1\"}"), Ok(Some("id-1".to_string())));
    assert_eq!(resolve("{}"), Ok(None));
    assert_eq!(
        resolve("{\"subject_id\": \"x\", \"subject_ref\": \"e1\"}"),
        Err("[KB_CONFLICT] Conflicting reference: specify either 'subject_id' or 'subject_ref', not both.".to_string())
    );
    assert_eq!(
        resolve("{\"subject_ref\": \"e9\"}"),
        Err("[KB_REF_NOT_FOUND] Reference not found: 'e9'. Insert the referenced item first or fix the id (query data_kb_search to find existing ids).".to_string())
    );
}

#[test]
fn entities_are_inserted_with_their_normal_name() {
    assert_eq!(
        planned(ItemKind::Entity, "{\"name\": \"\u{ff21}\u{ff22}\", \"attributes\": {\"k\": [1]}}", &[]),
        Ok(vec![
            text("id"),
            text("doc"),
            Cell::Null,
            text("\u{ff21}\u{ff22}"),
            text("AB"),
            text("{\"k\":[1]}"),
            text("run"),
        ])
    );
    assert_eq!(
        planned(ItemKind::Entity, "{}", &[]),
        Err("[KB_MISSING_FIELDS] entity.name is required.".to_string())
    );
}

#[test]
fn claims_have_a_subject_and_a_fingerprint() {
    let p = planned(
        ItemKind::Claim,
        "{\"predicate\": \"is\", \"subject_ref\": \"e1\", \"object_value\": \"red\", \"confidence\": 0.5}",
        &[("e1", "id-1")],
    )
    .unwrap();
    assert_eq!(p[2], text("id-1"));
    assert_eq!(p[3], Cell::Null);
    assert_eq!(p[5], Cell::Null);
    assert_eq!(p[6], text("\"red\""));
    assert_eq!(p[7], text("assertion"));
    assert_eq!(p[8], text("positive"));
    assert_eq!(
        p[9],
        Cell::Text(build_claim_fingerprint("id-1", "", "is", "", "\"red\"", "assertion"))
    );
    assert_eq!(p[10], Cell::Number(Json::Real("0.5".to_string())));
    assert_eq!(p[11], text("{}"));
    assert_eq!(
        planned(ItemKind::Claim, "{\"predicate\": \"is\"}", &[]),
        Err("[KB_MISSING_FIELDS] claim.subject is required: subject_id, subject_ref, or subject_value.".to_string())
    );
    assert_eq!(
        planned(ItemKind::Claim, "{}", &[]),
        Err("[KB_MISSING_FIELDS] claim.predicate is required.".to_string())
    );
}

#[test]
fn fingerprints_ignore_blanks_and_widths() {
    let a = build_claim_fingerprint("", "the  sky", "is", "", "blue", "fact");
    let b = build_claim_fingerprint("", " the sky ", "\u{ff49}\u{ff53}", "", "blue", "fact");
    assert_eq!(a, b);
    assert_eq!(a.len(), 16);
    assert_eq!(a, sha256_hex("the sky|is|blue|fact")[..16]);
    assert_ne!(a, build_claim_fingerprint("", "the sky", "is", "", "red", "fact"));
}

#[test]
fn relations_across_documents_belong_to_none() {
    let item = "{\"relation_type\": \"causes\", \"source_type\": \"claim\", \"source_id\": \"1\", \"target_type\": \"claim\", \"target_ref\": \"c\"}";
    assert_eq!(planned(ItemKind::Relation, item, &[("c", "2")]).unwrap()[1], text("doc"));
    let mut cx = context(&[("c", "2")]);
    cx.doc_id = "null".to_string();
    match insert_item(ItemKind::Relation, "id", &j(item), &cx) {
        Ok(InsertStep::Direct(s)) => {
            assert_eq!(s.params[1], Cell::Null);
            assert_eq!(s.params[6], text("2"));
        }
        other => panic!("{other:?}"),
    }
    for (item, error) in [
        ("{}", "relation.relation_type is required."),
        ("{\"relation_type\": \"r\"}", "relation.source_type is required."),
        ("{\"relation_type\": \"r\", \"source_type\": \"s\"}", "relation.source_id / source_ref is required."),
        ("{\"relation_type\": \"r\", \"source_type\": \"s\", \"source_id\": \"1\"}", "relation.target_type is required."),
        ("{\"relation_type\": \"r\", \"source_type\": \"s\", \"source_id\": \"1\", \"target_type\": \"t\"}", "relation.target_id / target_ref is required."),
    ] {
        assert_eq!(planned(ItemKind::Relation, item, &[]), Err(format!("[KB_MISSING_FIELDS] {error}")));
    }
}

#[test]
fn conditions_take_the_document_of_their_target() {
    let item = j("{\"target_type\": \"claim\", \"target_id\": \"c\", \"condition_type\": \"scope\", \"expression\": {\"op\": \"raw\"}}");
    let step = || insert_item(ItemKind::Condition, "id", &item, &context(&[])).unwrap();
    assert_eq!(step().awaited_target(), Some("c"));
    assert_eq!(step().complete(Some("d7".to_string())).params[1], text("d7"));
    assert_eq!(step().complete(Some("".to_string())).params[1], Cell::Null);
    assert_eq!(step().complete(None).params[1], Cell::Null);
    assert_eq!(
        planned(ItemKind::Condition, "{\"target_type\": \"entity\"}", &[]),
        Err("[KB_EXEC_ERROR] condition.target_type must be 'claim' or 'event'.".to_string())
    );
    for (item, error) in [
        ("{}", "condition.target_type is required (claim/event)."),
        ("{\"target_type\": \"event\"}", "condition.target_id / target_ref is required."),
        ("{\"target_type\": \"event\", \"target_id\": \"1\"}", "condition.condition_type is required."),
        ("{\"target_type\": \"event\", \"target_id\": \"1\", \"condition_type\": \"c\"}", "condition.expression is required."),
    ] {
        assert_eq!(planned(ItemKind::Condition, item, &[]), Err(format!("[KB_MISSING_FIELDS] {error}")));
    }
}

#[test]
fn events_and_evidence_are_inserted() {
    assert_eq!(
        planned(ItemKind::Event, "{\"start_time\": \"around 2026\"}", &[]).unwrap()[3..8],
        [Cell::Null, text("around 2026"), Cell::Null, Cell::Null, text("day")]
    );
    assert_eq!(
        planned(ItemKind::Evidence, "{\"target_type\": \"claim\", \"target_ref\": \"c\", \"start_offset\": 3, \"end_offset\": -1, \"matched_text\": \"m\"}", &[("c", "9")]),
        Ok(vec![
            text("id"),
            text("doc"),
            Cell::Null,
            text("claim"),
            text("9"),
            Cell::Whole(3),
            Cell::Whole(-1),
            text("m"),
            Cell::Null,
            text("run"),
        ])
    );
    assert_eq!(
        planned(ItemKind::Evidence, "{}", &[]),
        Err("[KB_MISSING_FIELDS] evidence.target_type is required.".to_string())
    );
    assert_eq!(
        planned(ItemKind::Evidence, "{\"target_type\": \"claim\"}", &[]),
        Err("[KB_MISSING_FIELDS] evidence.target_id / target_ref is required.".to_string())
    );
}

#[test]
fn database_errors_are_told_apart() {
    assert_eq!(
        sql_insert_err("FOREIGN KEY constraint failed"),
        "[KB_REF_NOT_FOUND] Insert failed (constraint): FOREIGN KEY constraint failed. Verify referenced ids exist (query data_kb_search to find existing ids)."
    );
    assert_eq!(sql_insert_err("disk full"), "[KB_EXEC_ERROR] Insert failed: disk full");
}

#[test]
fn items_are_numbered_in_order() {
    let args = j("{\"document_id\": \"d\", \"claims\": [{\"ref\": \"c\"}], \"entities\": [{\"ref\": \"e\"}, {}]}");
    let b = number_items(&args, "d", "run", strings(&["1", "2", "3"])).ok().unwrap();
    let kinds: Vec<ItemKind> = b.items.iter().map(|i| i.kind).collect();
    assert_eq!(kinds, vec![ItemKind::Entity, ItemKind::Entity, ItemKind::Claim]);
    assert_eq!(
        b.context.refs,
        vec![("e".to_string(), "1".to_string()), ("c".to_string(), "3".to_string())]
    );
    assert_eq!(
        b.report(),
        j("{\"status\": \"ok\", \"total\": 3, \"inserted\": {\"entities\": [{\"ref\": \"e\", \"id\": \"1\"}, {\"ref\": null, \"id\": \"2\"}], \"claims\": [{\"ref\": \"c\", \"id\": \"3\"}]}}")
    );
}

#[test]
fn insertions_are_refused_before_anything_is_written() {
    let refusal = |args: &str| prepare_insert(&j(args), "run").err().unwrap();
    assert_eq!(refusal("{}"), MISSING_DOCUMENT);
    assert_eq!(
        refusal("{\"document_id\": \"d\", \"entities\": [{\"ref\": \"a\"}], \"claims\": [{\"ref\": \"a\"}]}"),
        "[KB_CONFLICT] Conflicting reference: duplicate ref 'a'."
    );
    let many = format!("{{\"document_id\": \"d\", \"events\": [{}]}}", vec!["{}"; 501].join(","));
    assert_eq!(refusal(&many), QUOTA_EXCEEDED);
    let large = format!("{{\"document_id\": \"d\", \"x\": \"{}\"}}", "y".repeat(1_000_000));
    assert_eq!(refusal(&large), QUOTA_EXCEEDED);
    assert_eq!(prepare_sized(&j("{\"document_id\": \"d\"}"), "r", 1_000_001).err().unwrap(), QUOTA_EXCEEDED);
    let ok = prepare_insert(&j("{\"document_id\": \"d\", \"events\": [{}, {}]}"), "run").ok().unwrap();
    assert_eq!(ok.items.len(), 2);
    assert_eq!(ok.items[0].id.len(), 36);
    assert_ne!(ok.items[0].id, ok.items[1].id);
}

// --- updates ---------------------------------------------------------------

#[test]
fn updates_are_read_or_refused() {
    let refusal = |args: &str| read_update(&j(args)).err().unwrap();
    assert_eq!(refusal("{}"), NO_TARGET_TYPE);
    assert_eq!(refusal("{\"target_type\": \"claims\"}"), NO_TARGET_ID);
    assert_eq!(
        refusal("{\"target_type\": \"x\"}"),
        "[KB_EXEC_ERROR] Invalid target_type 'x'. Allowed: documents / document_units / entities / claims / relations / conditions / events / evidence / canonical_entities."
    );
    assert_eq!(
        refusal("{\"target_type\": \"claims\", \"target_id\": \"1\", \"attributes\": null, \"obsolete\": false}"),
        NO_UPDATE
    );
    let u = read_update(&j("{\"target_type\": \"claims\", \"target_id\": \"1\", \"obsolete\": true, \"reason\": \"r\"}")).ok().unwrap();
    assert!(u.obsolete);
    assert_eq!(u.reason, Some("r".to_string()));
    assert_eq!(
        target_not_found("claims", "1"),
        "[KB_NOT_FOUND] Target not found: claims '1'. Verify the id via data_kb_search."
    );
}

#[test]
fn rows_are_read_by_column() {
    let row = read_row(
        &strings(&["id", "annotations", "document_id", "attributes"]),
        &vec![
            DbValue::Text("1".to_string()),
            DbValue::Text("{\"a\":1}".to_string()),
            DbValue::Text("d".to_string()),
            DbValue::Null,
        ],
    );
    assert_eq!(
        row,
        CurrentRow {
            attributes: "{}".to_string(),
            annotations: "{\"a\":1}".to_string(),
            document_id: Some("d".to_string()),
        }
    );
}

fn plan(args: &str, row: &CurrentRow) -> Result<always_goofy_things::kb_write::UpdatePlan, String> {
    let u = read_update(&j(args)).ok().unwrap();
    plan_row_update(&u, row, Some(2), "vid", "run", "NOW")
}

#[test]
fn evidence_can_be_marked_obsolete() {
    let row = CurrentRow {
        attributes: "{}".to_string(),
        annotations: "{}".to_string(),
        document_id: None,
    };
    let p = plan("{\"target_type\": \"evidence\", \"target_id\": \"1\", \"obsolete\": true}", &row)
        .ok()
        .unwrap();
    let update = p.update.unwrap();
    assert_eq!(update.sql, "UPDATE \"evidence\" SET obsolete = 1 WHERE id = ?1");
    assert_eq!(update.params, vec![text("1")]);
    let conn = rusqlite::Connection::open_in_memory().unwrap();
    for batch in migration_batches(0) {
        conn.execute_batch(&batch).unwrap();
    }
    conn.prepare(&update.sql).unwrap();
    let nothing = plan(
        "{\"target_type\": \"evidence\", \"target_id\": \"1\", \"annotations\": {\"n\": 1}}",
        &row,
    )
    .ok()
    .unwrap();
    assert_eq!(nothing.update.err(), Some(NO_UPDATE.to_string()));
}

#[test]
fn versions_start_at_one() {
    let u = read_update(&j("{\"target_type\": \"claims\", \"target_id\": \"1\", \"obsolete\": true}"))
        .ok()
        .unwrap();
    let row = CurrentRow {
        attributes: "{}".to_string(),
        annotations: "{}".to_string(),
        document_id: None,
    };
    let first = plan_row_update(&u, &row, None, "vid", "run", "NOW").ok().unwrap();
    assert_eq!(first.report.u64_at("version"), Some(1));
    let later = plan_row_update(&u, &row, Some(7), "vid", "run", "NOW").ok().unwrap();
    assert_eq!(later.report.u64_at("version"), Some(8));
}

#[test]
fn an_update_is_versioned() {
    let row = CurrentRow {
        attributes: "{\"k\":1}".to_string(),
        annotations: "{\"old\":true}".to_string(),
        document_id: Some("d".to_string()),
    };
    let p = plan(
        "{\"target_type\": \"claims\", \"target_id\": \"1\", \"attributes\": {\"k\": null, \"m\": 2}, \"annotations\": {\"n\": 3}, \"obsolete\": true}",
        &row,
    )
    .ok()
    .unwrap();
    assert_eq!(
        p.history.params,
        vec![
            text("vid"),
            text("claims"),
            text("1"),
            Cell::Whole(3),
            text("{\"n\":3,\"obsolete\":true,\"old\":true}"),
            text("run"),
            text("data_kb_update"),
            Cell::Null,
        ]
    );
    let update = p.update.ok().unwrap();
    assert_eq!(
        update.sql,
        "UPDATE \"claims\" SET attributes = ?, annotations = ?, obsolete = 1 WHERE id = ?3"
    );
    assert_eq!(update.params[0], text("{\"m\":2}"));
    assert_eq!(update.params[1], p.history.params[4]);
    assert_eq!(update.params[2], text("1"));
    let touch = p.touch.unwrap();
    assert_eq!(touch.params, vec![text("NOW"), text("d")]);
    assert_eq!(p.report, j("{\"status\": \"ok\", \"version\": 3, \"document_updated_at\": \"NOW\"}"));
}

#[test]
fn a_document_changes_its_status() {
    let row = CurrentRow {
        attributes: "{}".to_string(),
        annotations: "{}".to_string(),
        document_id: None,
    };
    let args = |s: &str| format!("{{\"target_type\": \"documents\", \"target_id\": \"d\", \"annotations\": {{\"analysis_status\": \"{s}\"}}}}");
    let p = plan(&args("analyzed"), &row).ok().unwrap();
    let update = p.update.ok().unwrap();
    assert_eq!(
        update.sql,
        "UPDATE \"documents\" SET annotations = ?, analysis_status = ?, analyzed_at = ? WHERE id = ?4"
    );
    assert_eq!(update.params[1..], [text("analyzed"), text("NOW"), text("d")]);
    assert_eq!(p.touch.unwrap().params[1], text("d"));
    let failed = plan(&args("failed"), &row).ok().unwrap().update.ok().unwrap();
    assert_eq!(
        failed.sql,
        "UPDATE \"documents\" SET annotations = ?, analysis_status = ? WHERE id = ?3"
    );
    assert_eq!(
        plan(&args("done"), &row).ok().unwrap().update,
        Err("[KB_EXEC_ERROR] Invalid analysis_status 'done': allowed values are pending / analyzing / analyzed / failed.".to_string())
    );
}

#[test]
fn conditions_leave_their_document_alone() {
    let row = CurrentRow {
        attributes: "{}".to_string(),
        annotations: "{}".to_string(),
        document_id: Some("d".to_string()),
    };
    let p = plan("{\"target_type\": \"conditions\", \"target_id\": \"1\", \"obsolete\": true}", &row).ok().unwrap();
    assert!(p.touch.is_none());
    assert_eq!(p.report.str_at("document_updated_at"), Some(""));
    let u = read_update(&j("{\"target_type\": \"claims\", \"target_id\": \"1\", \"attributes\": [1]}")).ok().unwrap();
    assert_eq!(update_objects(&u, j("{}"), j("{}")).err(), Some(NO_OBJECT.to_string()));
}

// --- files -----------------------------------------------------------------

#[test]
fn additions_look_in_the_data_directory_first() {
    assert_eq!(plan_add("/a", true, true, true, None), AddStep::Copy);
    assert_eq!(plan_add("a", false, true, true, None), AddStep::UnderData);
    assert_eq!(plan_add("a", false, false, true, None), AddStep::Copy);
    assert_eq!(plan_add("x/a", false, false, false, Some(true)), AddStep::ByName);
    assert_eq!(
        plan_add("x/a", false, false, false, Some(false)),
        AddStep::Refused("[KB_FILE_ERROR] File not found in KB data/ or workspace: 'x/a'.".to_string())
    );
    assert_eq!(
        plan_add("..", false, false, false, None),
        AddStep::Refused("[KB_FILE_ERROR] Invalid path: '..'".to_string())
    );
    assert_eq!(check_copy("a", true, Some("a"), false, "data"), None);
    assert_eq!(check_copy("a", false, Some("a"), false, "data"), Some("[KB_FILE_ERROR] File not found: 'a'.".to_string()));
    assert_eq!(check_copy("..", true, None, false, "data"), Some("[KB_FILE_ERROR] Invalid path: '..'".to_string()));
    assert_eq!(
        check_copy("a", true, Some("a"), true, "kb/data"),
        Some("[KB_FILE_ERROR] File 'a' already exists in kb/data. Register it or use a different name.".to_string())
    );
    assert_eq!(relative_source("data\\a\\b"), "data/a/b");
}

fn row(source: &str, version: &str, old: bool, status: &str, meta: &str) -> DocumentRow {
    DocumentRow {
        source: Some(source.to_string()),
        version: version.to_string(),
        superseded_by: if old { Some("x".to_string()) } else { None },
        status: status.to_string(),
        created_at: "C".to_string(),
        updated_at: "U".to_string(),
        metadata: meta.to_string(),
    }
}

#[test]
fn documents_are_listed() {
    let empty = kb_list(&Vec::new());
    assert!(empty.ends_with("missing\n(no documents registered)"));
    let rows = vec![
        row("data/a", "1", true, "analyzed", "{}"),
        row("data/a", "2", false, "pending", "{\"file_missing\": true}"),
    ];
    let text = kb_list(&rows);
    let lines: Vec<&str> = text.lines().collect();
    assert_eq!(
        lines[0],
        format!("{:<32} {:<12} {:<10} {:<12} {:<28} {:<28} missing", "source", "version", "status", "analysis", "created_at", "updated_at")
    );
    assert_eq!(
        lines[1],
        format!("{:<32} {:<12} {:<10} {:<12} {:<28} {:<28} ", "data/a", "v1(old)", "superseded", "analyzed", "C", "U")
    );
    assert_eq!(
        lines[2],
        format!("{:<32} {:<12} {:<10} {:<12} {:<28} {:<28} [missing]", "data/a", "v2", "current", "pending", "C", "U")
    );
    assert!(lines[3].starts_with("Hint: 1 document(s) are pending analysis."));
    assert_eq!(list_documents(&rows, &vec![false, true]), text);
}

#[test]
fn deletions_name_a_source() {
    assert_eq!(delete_source("/kb/data/x", Some("data\\x"), None), Ok("data/x".to_string()));
    assert_eq!(delete_source("x.txt", None, Some("x.txt")), Ok("data/x.txt".to_string()));
    assert_eq!(delete_source("data/s/x", None, Some("x")), Ok("data/s/x".to_string()));
    assert_eq!(delete_source("..", None, None), Err("[KB_FILE_ERROR] Invalid path: '..'".to_string()));
    assert_eq!(stored_path("data/s/x"), Some("s/x"));
    assert_eq!(stored_path("data"), None);
}

#[test]
fn a_deletion_asks_for_the_rows_it_takes() {
    let one = deleted_endpoints("data/x", false, Some("cur")).unwrap();
    assert_eq!(one.sql, DOCUMENT_ENDPOINTS_SQL);
    assert_eq!(one.params, vec![text("cur")]);
    let all = deleted_endpoints("data/x", true, Some("cur")).unwrap();
    assert_eq!(all.sql, SOURCE_ENDPOINTS_SQL);
    assert_eq!(all.params, vec![text("data/x")]);
    assert_eq!(deleted_endpoints("data/x", false, None), None);
}

#[test]
fn deletions_promote_and_clean_up() {
    let p = plan_delete("data/x", false, 2, Some("cur"), &strings(&["e1", "e2"])).ok().unwrap();
    let promote = p.promote.unwrap();
    assert_eq!(promote.sql, PROMOTE_SQL);
    assert_eq!(promote.params, vec![text("cur")]);
    assert_eq!(p.delete.sql, DELETE_ONE_SQL);
    assert_eq!(p.delete.params, vec![text("cur")]);
    let cleanup = p.cleanup.unwrap();
    assert_eq!(
        cleanup.sql,
        "DELETE FROM relations WHERE document_id IS NULL AND (source_id IN (?,?) OR target_id IN (?,?))"
    );
    assert_eq!(cleanup.params, vec![text("e1"), text("e2"), text("e1"), text("e2")]);
    let all = plan_delete("data/x", true, 2, None, &Vec::new()).ok().unwrap();
    assert!(all.promote.is_none() && all.cleanup.is_none());
    assert_eq!(all.delete.sql, DELETE_ALL_SQL);
    assert_eq!(
        plan_delete("data/x", true, 0, None, &Vec::new()).err(),
        Some("[KB_FILE_ERROR] No registered document for 'data/x'. Use /kb list to see sources.".to_string())
    );
    assert_eq!(
        plan_delete("data/x", false, 1, None, &Vec::new()).err(),
        Some("[KB_FILE_ERROR] No current version for 'data/x'. Use --all-versions to delete old versions.".to_string())
    );
    assert_eq!(delete_report(2, "data/x", true), "Deleted 2 version(s) of 'data/x' (all versions) and its data file.");
    assert_eq!(delete_report(1, "data/x", false), "Deleted 1 version(s) of 'data/x' (current) and its data file.");
}

#[test]
fn metadata_are_edited() {
    let s = update_current_meta("d", "{\"x\":1,\"size\":2}", 10, 20);
    assert_eq!(s.sql, SET_METADATA_SQL);
    assert_eq!(s.params, vec![text("{\"mtime\":20,\"size\":10,\"x\":1}"), text("d")]);
    assert_eq!(
        mark_missing("d", "{}", true, "T").params[0],
        text("{\"file_missing\":true,\"missing_at\":\"T\"}")
    );
    assert_eq!(
        mark_missing("d", "{\"file_missing\":true,\"missing_at\":\"T\",\"k\":1}", false, "T").params[0],
        text("{\"k\":1}")
    );
    assert_eq!(record_failure("d", "", "why").params[0], text("{\"extraction_error\":\"why\"}"));
}

#[test]
fn files_are_synchronised() {
    assert_eq!(sync_action(None, 1, 2), SyncAction::New);
    assert_eq!(sync_action(Some("{\"size\":1,\"mtime\":2}"), 1, 2), SyncAction::Unchanged);
    assert_eq!(sync_action(Some("{\"size\":1,\"mtime\":2}"), 1, 3), SyncAction::Changed);
    assert_eq!(sync_action(Some("broken"), 0, 0), SyncAction::Unchanged);
    let mut t = SyncTally::new();
    assert!(!t.count(SyncAction::New, "registered: a"));
    assert!(!t.count(SyncAction::Changed, "updated: b"));
    assert!(t.count(SyncAction::Changed, "skipped: data/updated.md (v1, unchanged content)"));
    assert!(t.count(SyncAction::Unchanged, ""));
    assert!(!t.count(SyncAction::New, "skipped: registered: d"));
    assert_eq!(t.report("!"), "KB sync done: added 1, updated 1, unchanged 2.!");
}

#[test]
fn hidden_directories_are_passed_over() {
    assert!(!is_scanned(Some(".git")));
    assert!(is_scanned(Some("notes")));
    assert!(is_scanned(Some("a.b")));
    assert!(is_scanned(Some("")));
    assert!(is_scanned(None));
}

#[test]
fn orphans_are_reported() {
    let mut counts = vec![None; 8];
    counts[0] = Some(0);
    counts[2] = Some(3);
    counts[7] = Some(1);
    assert_eq!(
        orphan_report(&counts),
        "\n  orphan conditions.target_id orphan: 3\n  orphan events.subject_id orphan: 1"
    );
}

#[test]
fn backups_have_a_destination() {
    assert_eq!(backup_destination(Some("b.sqlite")), Some("b.sqlite"));
    assert_eq!(backup_destination(Some("  ")), None);
    assert_eq!(backup_destination(None), None);
    assert_eq!(backup_name("20260101-000000"), "library-20260101-000000.sqlite");
    assert_eq!(backup_sql("it's"), "VACUUM INTO 'it''s'");
}

fn facts(hash: &str) -> FileFacts {
    FileFacts {
        source: "data/a.MD".to_string(),
        stem: Some("a".to_string()),
        extension: Some("MD".to_string()),
        hash: hash.to_string(),
        size: 5,
        mtime: 6,
    }
}

fn existing(version: &str) -> Option<ExistingVersion> {
    Some(ExistingVersion {
        id: "old".to_string(),
        version: version.to_string(),
        hash: "h1".to_string(),
    })
}

#[test]
fn files_are_registered_in_versions() {
    let new = plan_registration(&facts("h1"), &None, "n");
    assert_eq!(new.kind, RegisterKind::Registered);
    assert_eq!(new.version, "1");
    assert_eq!(
        new.statements[0].params,
        vec![
            text("n"),
            text("a"),
            text("data/a.MD"),
            text("md"),
            text("1"),
            text("h1"),
            text("{\"mtime\":6,\"size\":5}"),
        ]
    );
    assert_eq!(new.report("data/a.MD", "pending"), "registered: data/a.MD (id n, v1, status pending)");
    let same = plan_registration(&facts("h1"), &existing("4"), "n");
    assert_eq!(same.kind, RegisterKind::Skipped);
    assert!(same.statements.is_empty());
    assert_eq!(same.report("s", ""), "skipped: s (v4, unchanged content)");
    let next = plan_registration(&facts("h2"), &existing("4"), "n");
    assert_eq!(next.kind, RegisterKind::Updated);
    assert_eq!(next.version, "5");
    assert_eq!(next.statements[1].sql, SUPERSEDE_SQL);
    assert_eq!(next.statements[1].params, vec![text("n"), text("old")]);
    assert_eq!(next.report("s", "failed"), "updated: s (id n, v5, status failed)");
    assert_eq!(plan_registration(&facts("h2"), &existing("draft"), "n").version, "1");
    assert_eq!(document_type(None), "txt");
}

#[test]
fn paragraphs_stand_between_blank_lines() {
    assert_eq!(
        split_paragraphs("one\r\nline\r\n\r\n  two  \n\n\n\n \n\nthree"),
        strings(&["one\nline", "two", "three"])
    );
    assert!(split_paragraphs(" \n\n ").is_empty());
    let units = units_of_text("a\n\nb", &Some("p1".to_string()), "{}");
    assert_eq!(units.len(), 2);
    assert_eq!(units[1].position, 1);
    let lookup = units[1].lookup("d");
    assert_eq!(lookup.params, vec![text("d"), text("paragraph"), Cell::Whole(1), text("p1")]);
    let insertion = units[0].insertion("u", "d");
    assert_eq!(
        insertion.params,
        vec![text("u"), text("d"), text("p1"), text("paragraph"), text("a"), Cell::Whole(0), text("{}")]
    );
    assert_eq!(page_unit(3, "t", "{}").unit_type, "page");
}

#[test]
fn units_say_where_they_come_from() {
    assert_eq!(
        unit_metadata("d", Some(2), "T"),
        "{\"extraction\":{\"created_at\":\"T\",\"method\":\"machine\",\"parser\":\"pdf-text\",\"version\":\"0.1.0\"},\"source\":{\"document_id\":\"d\",\"page\":2}}"
    );
    assert_eq!(
        unit_metadata("d", None, "T"),
        "{\"extraction\":{\"created_at\":\"T\",\"method\":\"machine\",\"parser\":\"text-paragraph\",\"version\":\"0.1.0\"},\"source\":{\"document_id\":\"d\"}}"
    );
}

#[test]
fn runs_are_recorded() {
    assert_eq!(start_run("r", "0.1", "T").params, vec![text("r"), text("auto 0.1 T"), text("{}")]);
    assert_eq!(finish_run("r", "T").params, vec![text("T"), text("r")]);
    assert_eq!(mark_stale_runs("T").params, vec![text("T"), text("stale run (previous crash)")]);
    assert_eq!(
        init_error("kb", "no"),
        "[KB_CONFIG_ERROR] Knowledge base initialization failed at 'kb': no. Check the directory permissions and that library.sqlite is not corrupted."
    );
}
