//! Definitions of the knowledge base tools, as they are offered to a model.

use vstd::prelude::*;
use vstd::string::*;

use crate::json_model::{empty_object, group_json, json_seq, Json, JsonView};
use crate::text::views;

verus! {

broadcast use group_json;

/// A parameter of a type.
pub open spec fn plain_param(kind: Seq<char>, description: Seq<char>) -> JsonView {
    empty_object().with("type"@, JsonView::Str(kind)).with(
        "description"@,
        JsonView::Str(description),
    )
}

/// A parameter that is a list of objects.
pub open spec fn list_param(description: Seq<char>) -> JsonView {
    plain_param("array"@, description).with(
        "items"@,
        empty_object().with("type"@, JsonView::Str("object"@)),
    )
}

/// The texts of a list as JSON values.
pub open spec fn text_values(texts: Seq<Seq<char>>) -> Seq<JsonView> {
    texts.map_values(|t: Seq<char>| JsonView::Str(t))
}

/// The definition of a tool.
pub open spec fn tool_definition(
    name: Seq<char>,
    description: Seq<char>,
    properties: JsonView,
    required: Seq<Seq<char>>,
) -> JsonView {
    empty_object().with("type"@, JsonView::Str("function"@)).with(
        "function"@,
        empty_object().with("name"@, JsonView::Str(name)).with(
            "description"@,
            JsonView::Str(description),
        ).with(
            "parameters"@,
            empty_object().with("type"@, JsonView::Str("object"@)).with(
                "properties"@,
                properties,
            ).with("required"@, JsonView::Array(text_values(required))),
        ),
    )
}

fn param(kind: &str, description: &str) -> (r: Json)
    ensures
        r@ == plain_param(kind@, description@),
{
    Json::object().with("type", Json::text(kind)).with("description", Json::text(description))
}

fn param_list(description: &str) -> (r: Json)
    ensures
        r@ == list_param(description@),
{
    param("array", description).with("items", Json::object().with("type", Json::text("object")))
}

fn define_tool(name: &str, description: &str, properties: Json, required: &Vec<String>) -> (r: Json)
    ensures
        r@ == tool_definition(name@, description@, properties@, views(required@)),
{
    let mut list: Vec<Json> = Vec::new();
    let mut i: usize = 0;
    while i < required.len()
        invariant
            i <= required@.len(),
            list@.len() == i,
            forall|k: int|
                0 <= k < i ==> (#[trigger] list@[k])@ == JsonView::Str(required@[k]@),
        decreases required@.len() - i,
    {
        list.push(Json::text(required[i].as_str()));
        i = i + 1;
    }
    proof {
        assert(json_seq(list@) =~= text_values(views(required@)));
    }
    let params = Json::object().with("type", Json::text("object")).with(
        "properties",
        properties,
    ).with("required", Json::Array(list));
    let function = Json::object().with("name", Json::text(name)).with(
        "description",
        Json::text(description),
    ).with("parameters", params);
    Json::object().with("type", Json::text("function")).with("function", function)
}

/// The parameters of the read-only query tool.
pub open spec fn search_params() -> JsonView {
    empty_object().with("query"@, plain_param("string"@, "The SQL query to execute. Only SELECT / WITH / EXPLAIN statements are allowed. Always include LIMIT to prevent excessive data retrieval."@))
}

/// The definition of the read-only query tool.
pub fn build_kb_search_def() -> (r: Json)
    ensures
        r@ == tool_definition("data_kb_search"@, "Execute read-only SQL queries against the Knowledge Base (entities, claims, relations, conditions, events, and evidence with provenance). Use data_kb_schema first if you need to discover table structures. Only the single <kb>/db/library.sqlite file is reachable. Always include LIMIT to control the result size. Results are returned as CSV with a header row."@, search_params(), seq!["query"@]),
{
    let params = Json::object()
        .with("query", param("string", "The SQL query to execute. Only SELECT / WITH / EXPLAIN statements are allowed. Always include LIMIT to prevent excessive data retrieval."));
    let mut required: Vec<String> = Vec::new();
    required.push("query".to_owned());
    proof {
        assert(views(required@) =~= seq!["query"@]);
    }
    define_tool("data_kb_search", "Execute read-only SQL queries against the Knowledge Base (entities, claims, relations, conditions, events, and evidence with provenance). Use data_kb_schema first if you need to discover table structures. Only the single <kb>/db/library.sqlite file is reachable. Always include LIMIT to control the result size. Results are returned as CSV with a header row.", params, &required)
}

/// The parameters of the schema tool.
pub open spec fn schema_params() -> JsonView {
    empty_object().with("table"@, plain_param("string"@, "Optional table or view name to describe. If omitted, lists all tables and views with their purpose and approximate row counts."@))
}

/// The definition of the schema tool.
pub fn build_kb_schema_def() -> (r: Json)
    ensures
        r@ == tool_definition("data_kb_schema"@, "Discover the schema of the Knowledge Base. List all tables, or describe a specific table's columns, types, purpose, sample values, and related tables. Call this BEFORE writing data_kb_search queries to understand the data structure. Also lists the provided views (e.g. v_claims_with_evidence) and the FTS table units_fts with the Japanese search rules (>=3 chars: MATCH phrase, 1-2 chars: LIKE)."@, schema_params(), Seq::<Seq<char>>::empty()),
{
    let params = Json::object()
        .with("table", param("string", "Optional table or view name to describe. If omitted, lists all tables and views with their purpose and approximate row counts."));
    let mut required: Vec<String> = Vec::new();
    proof {
        assert(views(required@) =~= Seq::<Seq<char>>::empty());
    }
    define_tool("data_kb_schema", "Discover the schema of the Knowledge Base. List all tables, or describe a specific table's columns, types, purpose, sample values, and related tables. Call this BEFORE writing data_kb_search queries to understand the data structure. Also lists the provided views (e.g. v_claims_with_evidence) and the FTS table units_fts with the Japanese search rules (>=3 chars: MATCH phrase, 1-2 chars: LIKE).", params, &required)
}

/// The parameters of the insertion tool.
pub open spec fn insert_params() -> JsonView {
    empty_object().with("document_id"@, plain_param("string"@, "UUID of the registered document (documents.id). Get it from the /kb add result or by querying documents via data_kb_search. Required. For cross-document relations pass \"null\"."@)).with("entities"@, list_param("Entities to insert. Item fields: name (required), entity_type (optional, e.g. organization/person/product/regulation), attributes (optional object), ref (optional local reference, e.g. \"e1\")."@)).with("claims"@, list_param("Claims/facts to insert. Item fields: predicate (required), subject (required: subject_id UUID, subject_ref local ref, or subject_value object for unextracted subjects), object (optional, same three forms), modality (optional, default assertion: fact/assertion/hypothesis/prediction/possibility/requirement/recommendation/opinion), confidence (optional 0..1), attributes (optional object), ref (optional)."@)).with("relations"@, list_param("Relations between knowledge items. Item fields: relation_type (required, e.g. causes/depends_on/contradicts/supports/precedes/qualifies), source_type + source_id (or source_ref), target_type + target_id (or target_ref), confidence (optional), attributes (optional). source_type/target_type: entity/claim/event/document_unit."@)).with("conditions"@, list_param("Conditions attached to a claim (or rarely an event). Item fields: target_type (required, claim/event) + target_id (or target_ref), condition_type (required: prerequisite/exception/threshold/temporal/scope), expression (required object, e.g. {\"op\": \">=\", \"field\": \"amount\", \"value\": 1000000})."@)).with("events"@, list_param("Events/timeline items. Item fields: event_type (optional), subject_id (or subject_ref, optional), start_time (optional text, ambiguous allowed e.g. \"around 2026\"), end_time (optional), sort_key (optional normalized key for sorting, e.g. \"2026-00-00\"), precision (optional: year/month/day)."@)).with("evidence"@, list_param("Provenance: which source passage supports a target item. Item fields: target_type (required: entity/claim/relation/event/condition) + target_id (or target_ref), source_unit_id (or source_unit_ref, optional - the document_units.id backing this item), start_offset/end_offset (optional character offsets into the unit text), matched_text (optional excerpt snapshot), evidence_type (optional)."@))
}

/// The definition of the insertion tool.
pub fn build_kb_insert_def() -> (r: Json)
    ensures
        r@ == tool_definition("data_kb_insert"@, "Insert extracted knowledge into the Knowledge Base. All items in one call are inserted atomically in a single transaction. Each item needs no id: new UUIDs are generated and returned. Use \"ref\"/\"*_ref\" local references to link items created in the same call. Every item belongs to the document given by document_id (for cross-document relations, pass \"null\" as document_id). Corrections follow the obsolete model: insert the replacement row, then mark the old row obsolete via data_kb_update."@, insert_params(), seq!["document_id"@]),
{
    let params = Json::object()
        .with("document_id", param("string", "UUID of the registered document (documents.id). Get it from the /kb add result or by querying documents via data_kb_search. Required. For cross-document relations pass \"null\"."))
        .with("entities", param_list("Entities to insert. Item fields: name (required), entity_type (optional, e.g. organization/person/product/regulation), attributes (optional object), ref (optional local reference, e.g. \"e1\")."))
        .with("claims", param_list("Claims/facts to insert. Item fields: predicate (required), subject (required: subject_id UUID, subject_ref local ref, or subject_value object for unextracted subjects), object (optional, same three forms), modality (optional, default assertion: fact/assertion/hypothesis/prediction/possibility/requirement/recommendation/opinion), confidence (optional 0..1), attributes (optional object), ref (optional)."))
        .with("relations", param_list("Relations between knowledge items. Item fields: relation_type (required, e.g. causes/depends_on/contradicts/supports/precedes/qualifies), source_type + source_id (or source_ref), target_type + target_id (or target_ref), confidence (optional), attributes (optional). source_type/target_type: entity/claim/event/document_unit."))
        .with("conditions", param_list("Conditions attached to a claim (or rarely an event). Item fields: target_type (required, claim/event) + target_id (or target_ref), condition_type (required: prerequisite/exception/threshold/temporal/scope), expression (required object, e.g. {\"op\": \">=\", \"field\": \"amount\", \"value\": 1000000})."))
        .with("events", param_list("Events/timeline items. Item fields: event_type (optional), subject_id (or subject_ref, optional), start_time (optional text, ambiguous allowed e.g. \"around 2026\"), end_time (optional), sort_key (optional normalized key for sorting, e.g. \"2026-00-00\"), precision (optional: year/month/day)."))
        .with("evidence", param_list("Provenance: which source passage supports a target item. Item fields: target_type (required: entity/claim/relation/event/condition) + target_id (or target_ref), source_unit_id (or source_unit_ref, optional - the document_units.id backing this item), start_offset/end_offset (optional character offsets into the unit text), matched_text (optional excerpt snapshot), evidence_type (optional)."));
    let mut required: Vec<String> = Vec::new();
    required.push("document_id".to_owned());
    proof {
        assert(views(required@) =~= seq!["document_id"@]);
    }
    define_tool("data_kb_insert", "Insert extracted knowledge into the Knowledge Base. All items in one call are inserted atomically in a single transaction. Each item needs no id: new UUIDs are generated and returned. Use \"ref\"/\"*_ref\" local references to link items created in the same call. Every item belongs to the document given by document_id (for cross-document relations, pass \"null\" as document_id). Corrections follow the obsolete model: insert the replacement row, then mark the old row obsolete via data_kb_update.", params, &required)
}

/// The parameters of the update tool.
pub open spec fn update_params() -> JsonView {
    empty_object().with("target_type"@, plain_param("string"@, "Row kind to update: documents / document_units / entities / claims / relations / conditions / events / evidence / canonical_entities."@)).with("target_id"@, plain_param("string"@, "UUID of the row to update."@)).with("attributes"@, plain_param("object"@, "Optional. Merged into the knowledge model attributes (existing keys overwritten; a key with null removes it)."@)).with("annotations"@, plain_param("object"@, "Optional. Merged into the analysis annotations; the previous value is kept in annotation_versions and the current value is the latest version. Reserved key on documents: \"analysis_status\" (pending/analyzing/analyzed/failed) transitions the document status; transitioning to analyzed also stamps analyzed_at."@)).with("obsolete"@, plain_param("boolean"@, "Optional. Set true to mark the row superseded on any knowledge table (replaced by a newer extraction). All knowledge tables support it: document_units / entities / claims / relations / conditions / events / evidence / canonical_entities."@)).with("reason"@, plain_param("string"@, "Optional short reason for the change; recorded in annotation_versions.reason."@))
}

/// The definition of the update tool.
pub fn build_kb_update_def() -> (r: Json)
    ensures
        r@ == tool_definition("data_kb_update"@, "Update existing Knowledge Base rows: merge attributes, or append annotations (versioned history is recorded automatically). Use this for analysis results: evaluations, classifications, uncertainty, missing-information findings. Never erase a row; correct by updating annotations (or adding a new row and marking the old one obsolete)."@, update_params(), seq!["target_type"@, "target_id"@]),
{
    let params = Json::object()
        .with("target_type", param("string", "Row kind to update: documents / document_units / entities / claims / relations / conditions / events / evidence / canonical_entities."))
        .with("target_id", param("string", "UUID of the row to update."))
        .with("attributes", param("object", "Optional. Merged into the knowledge model attributes (existing keys overwritten; a key with null removes it)."))
        .with("annotations", param("object", "Optional. Merged into the analysis annotations; the previous value is kept in annotation_versions and the current value is the latest version. Reserved key on documents: \"analysis_status\" (pending/analyzing/analyzed/failed) transitions the document status; transitioning to analyzed also stamps analyzed_at."))
        .with("obsolete", param("boolean", "Optional. Set true to mark the row superseded on any knowledge table (replaced by a newer extraction). All knowledge tables support it: document_units / entities / claims / relations / conditions / events / evidence / canonical_entities."))
        .with("reason", param("string", "Optional short reason for the change; recorded in annotation_versions.reason."));
    let mut required: Vec<String> = Vec::new();
    required.push("target_type".to_owned());
    required.push("target_id".to_owned());
    proof {
        assert(views(required@) =~= seq!["target_type"@, "target_id"@]);
    }
    define_tool("data_kb_update", "Update existing Knowledge Base rows: merge attributes, or append annotations (versioned history is recorded automatically). Use this for analysis results: evaluations, classifications, uncertainty, missing-information findings. Never erase a row; correct by updating annotations (or adding a new row and marking the old one obsolete).", params, &required)
}
} // verus!
