//! Writing to the knowledge base: insertion of extracted items and versioned
//! updates of rows.
//!
//! One call is one transaction. This module checks the arguments, resolves
//! local references and says which statements the transaction runs.

use vstd::prelude::*;
use vstd::string::*;

use crate::json_model::{empty_object, group_json, json_seq, lemma_with, Json, JsonView};
use crate::json_text::{json_read, json_written, print_json};
use crate::kb::{
    cells_view, json_to_text, merge_json_obj, merged, nfkc, nfkc_of, number_cell, object_read,
    parse_json_obj, quote_ident, quoted, sha256_hex, text_cell, text_hash, value_text, whole_cell,
    Cell, CellView, DbValue, Statement, StatementView,
};
use crate::kb_schema::{update_target_types, update_targets};
use crate::model::{is_uuid, new_uuid};
use crate::text::{
    byte_len, contains, decimal, first_chars, join, join_of, list_has, opt_str_view, opt_view,
    pairs_view, squeeze, squeezed, str_eq, str_or, take_chars, text_contains, text_or, usize_text,
    utf8_len, views,
};

verus! {

broadcast use group_json;

/// Items that one insertion holds at most.
pub const INSERT_MAX_ITEMS: usize = 500;

/// Bytes of arguments that one insertion holds at most.
pub const INSERT_MAX_BYTES: usize = 1_000_000;

// ---------------------------------------------------------------------------
// References
// ---------------------------------------------------------------------------

/// The identifier that a local reference at or after `i` stands for.
pub open spec fn ref_id(refs: Seq<(Seq<char>, Seq<char>)>, name: Seq<char>, i: int) -> Option<
    Seq<char>,
>
    decreases refs.len() - i,
{
    if i < 0 || i >= refs.len() {
        None
    } else if refs[i].0 == name {
        Some(refs[i].1)
    } else {
        ref_id(refs, name, i + 1)
    }
}

/// The identifier that a local reference stands for.
pub fn find_ref<'a>(refs: &'a Vec<(String, String)>, name: &str) -> (r: Option<&'a str>)
    ensures
        opt_str_view(r) == ref_id(pairs_view(refs@), name@, 0),
{
    let ghost pairs = pairs_view(refs@);
    let mut i: usize = 0;
    while i < refs.len()
        invariant
            i <= refs@.len(),
            pairs == pairs_view(refs@),
            ref_id(pairs, name@, i as int) == ref_id(pairs, name@, 0),
        decreases refs@.len() - i,
    {
        if str_eq(refs[i].0.as_str(), name) {
            return Some(refs[i].1.as_str());
        }
        i = i + 1;
    }
    None
}

/// What an item refers to, by identifier or by local reference.
pub open spec fn resolved(
    item: JsonView,
    id_field: Seq<char>,
    ref_field: Seq<char>,
    refs: Seq<(Seq<char>, Seq<char>)>,
) -> Result<Option<Seq<char>>, Seq<char>> {
    match (item.str_at(id_field), item.str_at(ref_field)) {
        (Some(_), Some(_)) => Err(
            "[KB_CONFLICT] Conflicting reference: specify either '"@ + id_field + "' or '"@
                + ref_field + "', not both."@,
        ),
        (Some(id), None) => Ok(Some(id)),
        (None, Some(name)) => match ref_id(refs, name, 0) {
            Some(id) => Ok(Some(id)),
            None => Err(
                "[KB_REF_NOT_FOUND] Reference not found: '"@ + name
                    + "'. Insert the referenced item first or fix the id (query data_kb_search to find existing ids)."@,
            ),
        },
        (None, None) => Ok(None),
    }
}

/// The outcome of a step that gives an optional text.
pub open spec fn text_outcome(r: Result<Option<String>, String>) -> Result<
    Option<Seq<char>>,
    Seq<char>,
> {
    match r {
        Ok(o) => Ok(opt_view(o)),
        Err(e) => Err(e@),
    }
}

/// Resolves what an item refers to: an identifier or a local reference, not
/// both.
pub fn resolve_id_ref(
    item: &Json,
    id_field: &str,
    ref_field: &str,
    refs: &Vec<(String, String)>,
) -> (r: Result<Option<String>, String>)
    ensures
        text_outcome(r) == resolved(item@, id_field@, ref_field@, pairs_view(refs@)),
{
    match (item.str_at(id_field), item.str_at(ref_field)) {
        (Some(_), Some(_)) => {
            let mut s = String::from_str("[KB_CONFLICT] Conflicting reference: specify either '");
            s.append(id_field);
            s.append("' or '");
            s.append(ref_field);
            s.append("', not both.");
            Err(s)
        },
        (Some(id), None) => Ok(Some(id.to_owned())),
        (None, Some(name)) => match find_ref(refs, name) {
            Some(id) => Ok(Some(id.to_owned())),
            None => {
                let mut s = String::from_str("[KB_REF_NOT_FOUND] Reference not found: '");
                s.append(name);
                s.append(
                    "'. Insert the referenced item first or fix the id (query data_kb_search to find existing ids).",
                );
                Err(s)
            },
        },
        (None, None) => Ok(None),
    }
}

/// What an item must refer to; `missing` is the error where it does not.
pub open spec fn required_ref(
    item: JsonView,
    id_field: Seq<char>,
    ref_field: Seq<char>,
    refs: Seq<(Seq<char>, Seq<char>)>,
    missing: Seq<char>,
) -> Result<Seq<char>, Seq<char>> {
    match resolved(item, id_field, ref_field, refs) {
        Err(e) => Err(e),
        Ok(Some(id)) => Ok(id),
        Ok(None) => Err(missing),
    }
}

fn resolve_required(
    item: &Json,
    id_field: &str,
    ref_field: &str,
    refs: &Vec<(String, String)>,
    missing: &str,
) -> (r: Result<String, String>)
    ensures
        match r {
            Ok(id) => required_ref(item@, id_field@, ref_field@, pairs_view(refs@), missing@)
                == Ok::<Seq<char>, Seq<char>>(id@),
            Err(e) => required_ref(item@, id_field@, ref_field@, pairs_view(refs@), missing@)
                == Err::<Seq<char>, Seq<char>>(e@),
        },
{
    match resolve_id_ref(item, id_field, ref_field, refs) {
        Err(e) => Err(e),
        Ok(o) => match o {
            Some(id) => Ok(id),
            None => Err(missing.to_owned()),
        },
    }
}

// ---------------------------------------------------------------------------
// Items
// ---------------------------------------------------------------------------

/// The kinds of item that can be inserted.
#[derive(Debug, Clone, Copy, PartialEq, Eq, Structural)]
pub enum ItemKind {
    Entity,
    Claim,
    Relation,
    Condition,
    Event,
    Evidence,
}

/// The argument that lists the items of a kind.
pub open spec fn kind_name(k: ItemKind) -> Seq<char> {
    match k {
        ItemKind::Entity => "entities"@,
        ItemKind::Claim => "claims"@,
        ItemKind::Relation => "relations"@,
        ItemKind::Condition => "conditions"@,
        ItemKind::Event => "events"@,
        ItemKind::Evidence => "evidence"@,
    }
}

/// The kinds in the order in which they are inserted.
pub open spec fn all_kinds() -> Seq<ItemKind> {
    seq![
        ItemKind::Entity,
        ItemKind::Claim,
        ItemKind::Relation,
        ItemKind::Condition,
        ItemKind::Event,
        ItemKind::Evidence,
    ]
}

/// The kind at a place of the order.
pub fn kind_at(i: usize) -> (r: ItemKind)
    requires
        i < 6,
    ensures
        r == all_kinds()[i as int],
{
    if i == 0 {
        ItemKind::Entity
    } else if i == 1 {
        ItemKind::Claim
    } else if i == 2 {
        ItemKind::Relation
    } else if i == 3 {
        ItemKind::Condition
    } else if i == 4 {
        ItemKind::Event
    } else {
        ItemKind::Evidence
    }
}

impl ItemKind {
    /// The argument that lists the items of this kind.
    pub fn name(self) -> (r: &'static str)
        ensures
            r@ == kind_name(self),
    {
        match self {
            ItemKind::Entity => "entities",
            ItemKind::Claim => "claims",
            ItemKind::Relation => "relations",
            ItemKind::Condition => "conditions",
            ItemKind::Event => "events",
            ItemKind::Evidence => "evidence",
        }
    }
}

pub const ENTITY_SQL: &'static str = "INSERT INTO entities (id, document_id, entity_type, name, name_norm, attributes, annotations, analysis_run_id, obsolete) VALUES (?1, ?2, ?3, ?4, ?5, ?6, '{}', ?7, 0)";

pub const CLAIM_SQL: &'static str = "INSERT INTO claims (id, document_id, subject_id, subject_value, predicate, object_id, object_value, modality, polarity, fingerprint, confidence, attributes, annotations, analysis_run_id, obsolete) VALUES (?1, ?2, ?3, ?4, ?5, ?6, ?7, ?8, ?9, ?10, ?11, ?12, '{}', ?13, 0)";

pub const RELATION_SQL: &'static str = "INSERT INTO relations (id, document_id, source_type, source_id, relation_type, target_type, target_id, confidence, attributes, annotations, analysis_run_id, obsolete) VALUES (?1, ?2, ?3, ?4, ?5, ?6, ?7, ?8, ?9, '{}', ?10, 0)";

pub const CONDITION_SQL: &'static str = "INSERT INTO conditions (id, document_id, target_type, target_id, condition_type, expression, annotations, analysis_run_id, obsolete) VALUES (?1, ?2, ?3, ?4, ?5, ?6, '{}', ?7, 0)";

pub const EVENT_SQL: &'static str = "INSERT INTO events (id, document_id, event_type, subject_id, start_time, end_time, sort_key, precision, attributes, annotations, analysis_run_id, obsolete) VALUES (?1, ?2, ?3, ?4, ?5, ?6, ?7, ?8, ?9, '{}', ?10, 0)";

pub const EVIDENCE_SQL: &'static str = "INSERT INTO evidence (id, document_id, source_unit_id, target_type, target_id, start_offset, end_offset, matched_text, evidence_type, analysis_run_id, obsolete) VALUES (?1, ?2, ?3, ?4, ?5, ?6, ?7, ?8, ?9, ?10, 0)";

/// Asks for the document that a condition's target belongs to.
pub const TARGET_DOCUMENT_SQL: &'static str = "SELECT document_id FROM claims WHERE id = ?1 UNION SELECT document_id FROM events WHERE id = ?1";

/// How an item is inserted.
#[derive(Debug, PartialEq, Eq)]
pub enum InsertStep {
    /// By one statement.
    Direct(Statement),
    /// By a statement whose second value is the document of a target, which
    /// the database holds.
    WithDocument { target_id: String, statement: Statement },
}

/// What a step is.
pub enum InsertStepView {
    Direct(StatementView),
    WithDocument { target_id: Seq<char>, statement: StatementView },
}

impl View for InsertStep {
    type V = InsertStepView;

    open spec fn view(&self) -> InsertStepView {
        match *self {
            InsertStep::Direct(s) => InsertStepView::Direct(s@),
            InsertStep::WithDocument { target_id, statement } => InsertStepView::WithDocument {
                target_id: target_id@,
                statement: statement@,
            },
        }
    }
}

/// The outcome of planning an item.
pub open spec fn step_outcome(r: Result<InsertStep, String>) -> Result<
    InsertStepView,
    Seq<char>,
> {
    match r {
        Ok(s) => Ok(s@),
        Err(e) => Err(e@),
    }
}

/// What every item of one insertion shares.
pub struct InsertContext {
    pub doc_id: String,
    pub run_id: String,
    pub refs: Vec<(String, String)>,
}

/// What every item of one insertion shares.
pub struct ContextView {
    pub doc_id: Seq<char>,
    pub run_id: Seq<char>,
    pub refs: Seq<(Seq<char>, Seq<char>)>,
}

impl View for InsertContext {
    type V = ContextView;

    open spec fn view(&self) -> ContextView {
        ContextView { doc_id: self.doc_id@, run_id: self.run_id@, refs: pairs_view(self.refs@) }
    }
}

/// A direct step.
pub open spec fn direct(sql: Seq<char>, params: Seq<CellView>) -> Result<
    InsertStepView,
    Seq<char>,
> {
    Ok(InsertStepView::Direct(StatementView { sql, params }))
}

/// The text of an item's attributes.
pub open spec fn attributes_text(item: JsonView) -> Seq<char> {
    text_or(value_text(item.get("attributes"@)), "{}"@)
}

fn attributes_of(item: &Json) -> (r: String)
    ensures
        r@ == attributes_text(item@),
{
    match json_to_text(item.get("attributes")) {
        Some(s) => s,
        None => "{}".to_owned(),
    }
}

/// The plan of an entity.
pub open spec fn entity_plan(id: Seq<char>, item: JsonView, cx: ContextView) -> Result<
    InsertStepView,
    Seq<char>,
> {
    match item.str_at("name"@) {
        None => Err("[KB_MISSING_FIELDS] entity.name is required."@),
        Some(name) => direct(
            ENTITY_SQL@,
            seq![
                CellView::Text(id),
                CellView::Text(cx.doc_id),
                text_cell(item.str_at("entity_type"@)),
                CellView::Text(name),
                CellView::Text(nfkc_of(name)),
                CellView::Text(attributes_text(item)),
                CellView::Text(cx.run_id),
            ],
        ),
    }
}

fn plan_entity(id: &str, item: &Json, cx: &InsertContext) -> (r: Result<InsertStep, String>)
    ensures
        step_outcome(r) == entity_plan(id@, item@, cx@),
{
    let name = match item.str_at("name") {
        Some(n) => n,
        None => {
            return Err("[KB_MISSING_FIELDS] entity.name is required.".to_owned());
        },
    };
    let mut p: Vec<Cell> = Vec::new();
    p.push(Cell::text(id));
    p.push(Cell::text(cx.doc_id.as_str()));
    p.push(Cell::opt_text(item.str_at("entity_type")));
    p.push(Cell::text(name));
    p.push(Cell::Text(nfkc(name)));
    p.push(Cell::Text(attributes_of(item)));
    p.push(Cell::text(cx.run_id.as_str()));
    proof {
        assert(cells_view(p@) =~= entity_plan(id@, item@, cx@)->Ok_0->Direct_0.params);
    }
    Ok(InsertStep::Direct(Statement { sql: ENTITY_SQL.to_owned(), params: p }))
}

/// A field of a fingerprint: normalised, with its blanks squeezed.
pub open spec fn normal_field(s: Seq<char>) -> Seq<char> {
    squeezed(nfkc_of(s))
}

/// What a claim's fingerprint is taken of.
pub open spec fn claim_key(
    subject: Seq<char>,
    predicate: Seq<char>,
    object: Seq<char>,
    modality: Seq<char>,
) -> Seq<char> {
    normal_field(subject) + "|"@ + normal_field(predicate) + "|"@ + normal_field(object) + "|"@
        + normal_field(modality)
}

/// The first text where it is not empty, else the second.
pub open spec fn either(a: Seq<char>, b: Seq<char>) -> Seq<char> {
    if a.len() == 0 {
        b
    } else {
        a
    }
}

/// A claim's fingerprint: the first 16 hexadecimal digits of the digest of its
/// normalised subject, predicate, object and modality.
pub open spec fn claim_fingerprint(
    subject_id: Seq<char>,
    subject_value: Seq<char>,
    predicate: Seq<char>,
    object_id: Seq<char>,
    object_value: Seq<char>,
    modality: Seq<char>,
) -> Seq<char> {
    first_chars(
        text_hash(
            claim_key(
                either(subject_id, subject_value),
                predicate,
                either(object_id, object_value),
                modality,
            ),
        ),
        16,
    )
}

fn normalize(s: &str) -> (r: String)
    ensures
        r@ == normal_field(s@),
{
    let n = nfkc(s);
    squeeze(n.as_str())
}

/// The fingerprint by which duplicate claims are found.
pub fn build_claim_fingerprint(
    subject_id: &str,
    subject_value: &str,
    predicate: &str,
    object_id: &str,
    object_value: &str,
    modality: &str,
) -> (r: String)
    ensures
        r@ == claim_fingerprint(
            subject_id@,
            subject_value@,
            predicate@,
            object_id@,
            object_value@,
            modality@,
        ),
        r@.len() == 16,
{
    let subject = if subject_id.is_empty() {
        subject_value
    } else {
        subject_id
    };
    let object = if object_id.is_empty() {
        object_value
    } else {
        object_id
    };
    let a = normalize(subject);
    let b = normalize(predicate);
    let c = normalize(object);
    let d = normalize(modality);
    let mut s = a;
    s.append("|");
    s.append(b.as_str());
    s.append("|");
    s.append(c.as_str());
    s.append("|");
    s.append(d.as_str());
    let h = sha256_hex(s.as_str());
    take_chars(h.as_str(), 16).to_owned()
}

/// The value of a claim's end that is not referred to by identifier.
pub open spec fn end_value(item: JsonView, id: Option<Seq<char>>, k: Seq<char>) -> Option<
    Seq<char>,
> {
    if id is None {
        value_text(item.get(k))
    } else {
        None
    }
}

fn value_of_end(item: &Json, id: &Option<String>, k: &str) -> (r: Option<String>)
    ensures
        opt_view(r) == end_value(item@, opt_view(*id), k@),
{
    match id {
        Some(_) => None,
        None => json_to_text(item.get(k)),
    }
}

/// The plan of a claim.
pub open spec fn claim_plan(id: Seq<char>, item: JsonView, cx: ContextView) -> Result<
    InsertStepView,
    Seq<char>,
> {
    match item.str_at("predicate"@) {
        None => Err("[KB_MISSING_FIELDS] claim.predicate is required."@),
        Some(predicate) => match resolved(item, "subject_id"@, "subject_ref"@, cx.refs) {
            Err(e) => Err(e),
            Ok(subject_id) => {
                let subject_value = end_value(item, subject_id, "subject_value"@);
                if subject_id is None && subject_value is None {
                    Err(
                        "[KB_MISSING_FIELDS] claim.subject is required: subject_id, subject_ref, or subject_value."@,
                    )
                } else {
                    match resolved(item, "object_id"@, "object_ref"@, cx.refs) {
                        Err(e) => Err(e),
                        Ok(object_id) => {
                            let object_value = end_value(item, object_id, "object_value"@);
                            let modality = text_or(item.str_at("modality"@), "assertion"@);
                            direct(
                                CLAIM_SQL@,
                                seq![
                                    CellView::Text(id),
                                    CellView::Text(cx.doc_id),
                                    text_cell(subject_id),
                                    text_cell(subject_value),
                                    CellView::Text(predicate),
                                    text_cell(object_id),
                                    text_cell(object_value),
                                    CellView::Text(modality),
                                    CellView::Text(
                                        text_or(item.str_at("polarity"@), "positive"@),
                                    ),
                                    CellView::Text(
                                        claim_fingerprint(
                                            text_or(subject_id, ""@),
                                            text_or(subject_value, ""@),
                                            predicate,
                                            text_or(object_id, ""@),
                                            text_or(object_value, ""@),
                                            modality,
                                        ),
                                    ),
                                    number_cell(item, "confidence"@),
                                    CellView::Text(attributes_text(item)),
                                    CellView::Text(cx.run_id),
                                ],
                            )
                        },
                    }
                }
            },
        },
    }
}

fn text_of_opt<'a>(o: &'a Option<String>) -> (r: &'a str)
    ensures
        r@ == text_or(opt_view(*o), ""@),
{
    match o {
        Some(s) => s.as_str(),
        None => "",
    }
}

fn plan_claim(id: &str, item: &Json, cx: &InsertContext) -> (r: Result<InsertStep, String>)
    ensures
        step_outcome(r) == claim_plan(id@, item@, cx@),
{
    let predicate = match item.str_at("predicate") {
        Some(p) => p,
        None => {
            return Err("[KB_MISSING_FIELDS] claim.predicate is required.".to_owned());
        },
    };
    let subject_id = match resolve_id_ref(item, "subject_id", "subject_ref", &cx.refs) {
        Ok(o) => o,
        Err(e) => {
            return Err(e);
        },
    };
    let subject_value = value_of_end(item, &subject_id, "subject_value");
    if subject_id.is_none() && subject_value.is_none() {
        return Err(
            "[KB_MISSING_FIELDS] claim.subject is required: subject_id, subject_ref, or subject_value.".to_owned(),
        );
    }
    let object_id = match resolve_id_ref(item, "object_id", "object_ref", &cx.refs) {
        Ok(o) => o,
        Err(e) => {
            return Err(e);
        },
    };
    let object_value = value_of_end(item, &object_id, "object_value");
    let modality = str_or(item.str_at("modality"), "assertion");
    let fingerprint = build_claim_fingerprint(
        text_of_opt(&subject_id),
        text_of_opt(&subject_value),
        predicate,
        text_of_opt(&object_id),
        text_of_opt(&object_value),
        modality,
    );
    let mut p: Vec<Cell> = Vec::new();
    p.push(Cell::text(id));
    p.push(Cell::text(cx.doc_id.as_str()));
    p.push(Cell::owned_text(&subject_id));
    p.push(Cell::owned_text(&subject_value));
    p.push(Cell::text(predicate));
    p.push(Cell::owned_text(&object_id));
    p.push(Cell::owned_text(&object_value));
    p.push(Cell::text(modality));
    p.push(Cell::text(str_or(item.str_at("polarity"), "positive")));
    p.push(Cell::Text(fingerprint));
    p.push(Cell::number_at(item, "confidence"));
    p.push(Cell::Text(attributes_of(item)));
    p.push(Cell::text(cx.run_id.as_str()));
    proof {
        assert(cells_view(p@) =~= claim_plan(id@, item@, cx@)->Ok_0->Direct_0.params);
    }
    Ok(InsertStep::Direct(Statement { sql: CLAIM_SQL.to_owned(), params: p }))
}

/// The plan of a relation; a cross-document relation belongs to no document.
pub open spec fn relation_plan(id: Seq<char>, item: JsonView, cx: ContextView) -> Result<
    InsertStepView,
    Seq<char>,
> {
    match item.str_at("relation_type"@) {
        None => Err("[KB_MISSING_FIELDS] relation.relation_type is required."@),
        Some(relation_type) => match item.str_at("source_type"@) {
            None => Err("[KB_MISSING_FIELDS] relation.source_type is required."@),
            Some(source_type) => match required_ref(
                item,
                "source_id"@,
                "source_ref"@,
                cx.refs,
                "[KB_MISSING_FIELDS] relation.source_id / source_ref is required."@,
            ) {
                Err(e) => Err(e),
                Ok(source_id) => match item.str_at("target_type"@) {
                    None => Err("[KB_MISSING_FIELDS] relation.target_type is required."@),
                    Some(target_type) => match required_ref(
                        item,
                        "target_id"@,
                        "target_ref"@,
                        cx.refs,
                        "[KB_MISSING_FIELDS] relation.target_id / target_ref is required."@,
                    ) {
                        Err(e) => Err(e),
                        Ok(target_id) => direct(
                            RELATION_SQL@,
                            seq![
                                CellView::Text(id),
                                if cx.doc_id == "null"@ {
                                    CellView::Null
                                } else {
                                    CellView::Text(cx.doc_id)
                                },
                                CellView::Text(source_type),
                                CellView::Text(source_id),
                                CellView::Text(relation_type),
                                CellView::Text(target_type),
                                CellView::Text(target_id),
                                number_cell(item, "confidence"@),
                                CellView::Text(attributes_text(item)),
                                CellView::Text(cx.run_id),
                            ],
                        ),
                    },
                },
            },
        },
    }
}

fn plan_relation(id: &str, item: &Json, cx: &InsertContext) -> (r: Result<InsertStep, String>)
    ensures
        step_outcome(r) == relation_plan(id@, item@, cx@),
{
    let relation_type = match item.str_at("relation_type") {
        Some(t) => t,
        None => {
            return Err("[KB_MISSING_FIELDS] relation.relation_type is required.".to_owned());
        },
    };
    let source_type = match item.str_at("source_type") {
        Some(t) => t,
        None => {
            return Err("[KB_MISSING_FIELDS] relation.source_type is required.".to_owned());
        },
    };
    let source_id = match resolve_required(
        item,
        "source_id",
        "source_ref",
        &cx.refs,
        "[KB_MISSING_FIELDS] relation.source_id / source_ref is required.",
    ) {
        Ok(s) => s,
        Err(e) => {
            return Err(e);
        },
    };
    let target_type = match item.str_at("target_type") {
        Some(t) => t,
        None => {
            return Err("[KB_MISSING_FIELDS] relation.target_type is required.".to_owned());
        },
    };
    let target_id = match resolve_required(
        item,
        "target_id",
        "target_ref",
        &cx.refs,
        "[KB_MISSING_FIELDS] relation.target_id / target_ref is required.",
    ) {
        Ok(s) => s,
        Err(e) => {
            return Err(e);
        },
    };
    let mut p: Vec<Cell> = Vec::new();
    p.push(Cell::text(id));
    if str_eq(cx.doc_id.as_str(), "null") {
        p.push(Cell::Null);
    } else {
        p.push(Cell::text(cx.doc_id.as_str()));
    }
    p.push(Cell::text(source_type));
    p.push(Cell::Text(source_id));
    p.push(Cell::text(relation_type));
    p.push(Cell::text(target_type));
    p.push(Cell::Text(target_id));
    p.push(Cell::number_at(item, "confidence"));
    p.push(Cell::Text(attributes_of(item)));
    p.push(Cell::text(cx.run_id.as_str()));
    proof {
        assert(cells_view(p@) =~= relation_plan(id@, item@, cx@)->Ok_0->Direct_0.params);
    }
    Ok(InsertStep::Direct(Statement { sql: RELATION_SQL.to_owned(), params: p }))
}

/// The plan of a condition; its document is that of its target.
pub open spec fn condition_plan(id: Seq<char>, item: JsonView, cx: ContextView) -> Result<
    InsertStepView,
    Seq<char>,
> {
    match item.str_at("target_type"@) {
        None => Err("[KB_MISSING_FIELDS] condition.target_type is required (claim/event)."@),
        Some(target_type) => if target_type != "claim"@ && target_type != "event"@ {
            Err("[KB_EXEC_ERROR] condition.target_type must be 'claim' or 'event'."@)
        } else {
            match required_ref(
                item,
                "target_id"@,
                "target_ref"@,
                cx.refs,
                "[KB_MISSING_FIELDS] condition.target_id / target_ref is required."@,
            ) {
                Err(e) => Err(e),
                Ok(target_id) => match item.str_at("condition_type"@) {
                    None => Err("[KB_MISSING_FIELDS] condition.condition_type is required."@),
                    Some(condition_type) => match value_text(item.get("expression"@)) {
                        None => Err("[KB_MISSING_FIELDS] condition.expression is required."@),
                        Some(expression) => Ok(
                            InsertStepView::WithDocument {
                                target_id,
                                statement: StatementView {
                                    sql: CONDITION_SQL@,
                                    params: seq![
                                        CellView::Text(id),
                                        CellView::Null,
                                        CellView::Text(target_type),
                                        CellView::Text(target_id),
                                        CellView::Text(condition_type),
                                        CellView::Text(expression),
                                        CellView::Text(cx.run_id),
                                    ],
                                },
                            },
                        ),
                    },
                },
            }
        },
    }
}

fn plan_condition(id: &str, item: &Json, cx: &InsertContext) -> (r: Result<InsertStep, String>)
    ensures
        step_outcome(r) == condition_plan(id@, item@, cx@),
{
    let target_type = match item.str_at("target_type") {
        Some(t) => t,
        None => {
            return Err(
                "[KB_MISSING_FIELDS] condition.target_type is required (claim/event).".to_owned(),
            );
        },
    };
    if !str_eq(target_type, "claim") && !str_eq(target_type, "event") {
        return Err(
            "[KB_EXEC_ERROR] condition.target_type must be 'claim' or 'event'.".to_owned(),
        );
    }
    let target_id = match resolve_required(
        item,
        "target_id",
        "target_ref",
        &cx.refs,
        "[KB_MISSING_FIELDS] condition.target_id / target_ref is required.",
    ) {
        Ok(s) => s,
        Err(e) => {
            return Err(e);
        },
    };
    let condition_type = match item.str_at("condition_type") {
        Some(t) => t,
        None => {
            return Err("[KB_MISSING_FIELDS] condition.condition_type is required.".to_owned());
        },
    };
    let expression = match json_to_text(item.get("expression")) {
        Some(t) => t,
        None => {
            return Err("[KB_MISSING_FIELDS] condition.expression is required.".to_owned());
        },
    };
    let mut p: Vec<Cell> = Vec::new();
    p.push(Cell::text(id));
    p.push(Cell::Null);
    p.push(Cell::text(target_type));
    p.push(Cell::text(target_id.as_str()));
    p.push(Cell::text(condition_type));
    p.push(Cell::Text(expression));
    p.push(Cell::text(cx.run_id.as_str()));
    proof {
        assert(cells_view(p@) =~= condition_plan(
            id@,
            item@,
            cx@,
        )->Ok_0->WithDocument_statement.params);
    }
    Ok(
        InsertStep::WithDocument {
            target_id,
            statement: Statement { sql: CONDITION_SQL.to_owned(), params: p },
        },
    )
}

/// The plan of an event.
pub open spec fn event_plan(id: Seq<char>, item: JsonView, cx: ContextView) -> Result<
    InsertStepView,
    Seq<char>,
> {
    match resolved(item, "subject_id"@, "subject_ref"@, cx.refs) {
        Err(e) => Err(e),
        Ok(subject_id) => direct(
            EVENT_SQL@,
            seq![
                CellView::Text(id),
                CellView::Text(cx.doc_id),
                text_cell(item.str_at("event_type"@)),
                text_cell(subject_id),
                text_cell(item.str_at("start_time"@)),
                text_cell(item.str_at("end_time"@)),
                text_cell(item.str_at("sort_key"@)),
                CellView::Text(text_or(item.str_at("precision"@), "day"@)),
                CellView::Text(attributes_text(item)),
                CellView::Text(cx.run_id),
            ],
        ),
    }
}

fn plan_event(id: &str, item: &Json, cx: &InsertContext) -> (r: Result<InsertStep, String>)
    ensures
        step_outcome(r) == event_plan(id@, item@, cx@),
{
    let subject_id = match resolve_id_ref(item, "subject_id", "subject_ref", &cx.refs) {
        Ok(o) => o,
        Err(e) => {
            return Err(e);
        },
    };
    let mut p: Vec<Cell> = Vec::new();
    p.push(Cell::text(id));
    p.push(Cell::text(cx.doc_id.as_str()));
    p.push(Cell::opt_text(item.str_at("event_type")));
    p.push(Cell::owned_text(&subject_id));
    p.push(Cell::opt_text(item.str_at("start_time")));
    p.push(Cell::opt_text(item.str_at("end_time")));
    p.push(Cell::opt_text(item.str_at("sort_key")));
    p.push(Cell::text(str_or(item.str_at("precision"), "day")));
    p.push(Cell::Text(attributes_of(item)));
    p.push(Cell::text(cx.run_id.as_str()));
    proof {
        assert(cells_view(p@) =~= event_plan(id@, item@, cx@)->Ok_0->Direct_0.params);
    }
    Ok(InsertStep::Direct(Statement { sql: EVENT_SQL.to_owned(), params: p }))
}

/// The plan of an evidence.
pub open spec fn evidence_plan(id: Seq<char>, item: JsonView, cx: ContextView) -> Result<
    InsertStepView,
    Seq<char>,
> {
    match item.str_at("target_type"@) {
        None => Err("[KB_MISSING_FIELDS] evidence.target_type is required."@),
        Some(target_type) => match required_ref(
            item,
            "target_id"@,
            "target_ref"@,
            cx.refs,
            "[KB_MISSING_FIELDS] evidence.target_id / target_ref is required."@,
        ) {
            Err(e) => Err(e),
            Ok(target_id) => match resolved(item, "source_unit_id"@, "source_unit_ref"@, cx.refs) {
                Err(e) => Err(e),
                Ok(source_unit_id) => direct(
                    EVIDENCE_SQL@,
                    seq![
                        CellView::Text(id),
                        CellView::Text(cx.doc_id),
                        text_cell(source_unit_id),
                        CellView::Text(target_type),
                        CellView::Text(target_id),
                        whole_cell(item.i64_at("start_offset"@)),
                        whole_cell(item.i64_at("end_offset"@)),
                        text_cell(item.str_at("matched_text"@)),
                        text_cell(item.str_at("evidence_type"@)),
                        CellView::Text(cx.run_id),
                    ],
                ),
            },
        },
    }
}

fn plan_evidence(id: &str, item: &Json, cx: &InsertContext) -> (r: Result<InsertStep, String>)
    ensures
        step_outcome(r) == evidence_plan(id@, item@, cx@),
{
    let target_type = match item.str_at("target_type") {
        Some(t) => t,
        None => {
            return Err("[KB_MISSING_FIELDS] evidence.target_type is required.".to_owned());
        },
    };
    let target_id = match resolve_required(
        item,
        "target_id",
        "target_ref",
        &cx.refs,
        "[KB_MISSING_FIELDS] evidence.target_id / target_ref is required.",
    ) {
        Ok(s) => s,
        Err(e) => {
            return Err(e);
        },
    };
    let source_unit_id = match resolve_id_ref(
        item,
        "source_unit_id",
        "source_unit_ref",
        &cx.refs,
    ) {
        Ok(o) => o,
        Err(e) => {
            return Err(e);
        },
    };
    let mut p: Vec<Cell> = Vec::new();
    p.push(Cell::text(id));
    p.push(Cell::text(cx.doc_id.as_str()));
    p.push(Cell::owned_text(&source_unit_id));
    p.push(Cell::text(target_type));
    p.push(Cell::Text(target_id));
    p.push(Cell::whole_at(item, "start_offset"));
    p.push(Cell::whole_at(item, "end_offset"));
    p.push(Cell::opt_text(item.str_at("matched_text")));
    p.push(Cell::opt_text(item.str_at("evidence_type")));
    p.push(Cell::text(cx.run_id.as_str()));
    proof {
        assert(cells_view(p@) =~= evidence_plan(id@, item@, cx@)->Ok_0->Direct_0.params);
    }
    Ok(InsertStep::Direct(Statement { sql: EVIDENCE_SQL.to_owned(), params: p }))
}

/// The plan of an item of a kind.
pub open spec fn item_plan(kind: ItemKind, id: Seq<char>, item: JsonView, cx: ContextView) -> Result<
    InsertStepView,
    Seq<char>,
> {
    match kind {
        ItemKind::Entity => entity_plan(id, item, cx),
        ItemKind::Claim => claim_plan(id, item, cx),
        ItemKind::Relation => relation_plan(id, item, cx),
        ItemKind::Condition => condition_plan(id, item, cx),
        ItemKind::Event => event_plan(id, item, cx),
        ItemKind::Evidence => evidence_plan(id, item, cx),
    }
}

/// Plans the insertion of one item.
pub fn insert_item(kind: ItemKind, id: &str, item: &Json, cx: &InsertContext) -> (r: Result<
    InsertStep,
    String,
>)
    ensures
        step_outcome(r) == item_plan(kind, id@, item@, cx@),
{
    match kind {
        ItemKind::Entity => plan_entity(id, item, cx),
        ItemKind::Claim => plan_claim(id, item, cx),
        ItemKind::Relation => plan_relation(id, item, cx),
        ItemKind::Condition => plan_condition(id, item, cx),
        ItemKind::Event => plan_event(id, item, cx),
        ItemKind::Evidence => plan_evidence(id, item, cx),
    }
}

/// The statement of a step, where `found` is the document of its target.
pub open spec fn completed(step: InsertStepView, found: Option<Seq<char>>) -> StatementView {
    match step {
        InsertStepView::Direct(s) => s,
        InsertStepView::WithDocument { target_id: _, statement } => if statement.params.len() > 1 {
            StatementView {
                params: statement.params.update(
                    1,
                    match found {
                        Some(d) => if d.len() > 0 {
                            CellView::Text(d)
                        } else {
                            CellView::Null
                        },
                        None => CellView::Null,
                    },
                ),
                ..statement
            }
        } else {
            statement
        },
    }
}

impl InsertStep {
    /// The target whose document the statement waits for.
    pub fn awaited_target(&self) -> (r: Option<&str>)
        ensures
            opt_str_view(r) == match self@ {
                InsertStepView::Direct(_) => None,
                InsertStepView::WithDocument { target_id, statement: _ } => Some(target_id),
            },
    {
        match self {
            InsertStep::Direct(_) => None,
            InsertStep::WithDocument { target_id, statement: _ } => Some(target_id.as_str()),
        }
    }

    /// The statement, with the document that was found for its target.
    pub fn complete(self, found: Option<String>) -> (r: Statement)
        ensures
            r@ == completed(self@, opt_view(found)),
    {
        match self {
            InsertStep::Direct(s) => s,
            InsertStep::WithDocument { target_id: _, statement } => {
                let mut statement = statement;
                let ghost before = statement@.params;
                let cell = match found {
                    Some(d) => if d.as_str().is_empty() {
                        Cell::Null
                    } else {
                        Cell::Text(d)
                    },
                    None => Cell::Null,
                };
                if statement.params.len() > 1 {
                    statement.params.set(1, cell);
                    proof {
                        assert(statement@.params =~= before.update(1, cell@));
                    }
                }
                statement
            },
        }
    }
}

/// The error on a statement that the database refused.
pub open spec fn insert_error(why: Seq<char>) -> Seq<char> {
    if text_contains(why, "constraint failed"@) {
        "[KB_REF_NOT_FOUND] Insert failed (constraint): "@ + why
            + ". Verify referenced ids exist (query data_kb_search to find existing ids)."@
    } else {
        "[KB_EXEC_ERROR] Insert failed: "@ + why
    }
}

/// The error on a statement that the database refused.
pub fn sql_insert_err(why: &str) -> (r: String)
    ensures
        r@ == insert_error(why@),
{
    if contains(why, "constraint failed") {
        let mut s = String::from_str("[KB_REF_NOT_FOUND] Insert failed (constraint): ");
        s.append(why);
        s.append(". Verify referenced ids exist (query data_kb_search to find existing ids).");
        s
    } else {
        let mut s = String::from_str("[KB_EXEC_ERROR] Insert failed: ");
        s.append(why);
        s
    }
}

// ---------------------------------------------------------------------------
// Insertion
// ---------------------------------------------------------------------------

/// An item of an insertion: its kind and its fields.
pub type KindedItem = (ItemKind, JsonView);

/// The items of the first `n` kinds, in order.
pub open spec fn listed_items(args: JsonView, n: int) -> Seq<KindedItem>
    decreases n,
{
    if n <= 0 {
        Seq::empty()
    } else {
        let kind = all_kinds()[n - 1];
        listed_items(args, n - 1) + match args.array_at(kind_name(kind)) {
            Some(a) => a.map_values(|j: JsonView| (kind, j)),
            None => Seq::empty(),
        }
    }
}

/// The items of an insertion, in order.
pub open spec fn items_of(args: JsonView) -> Seq<KindedItem> {
    listed_items(args, 6)
}

/// The local references that the first `n` items define.
pub open spec fn ref_names(items: Seq<KindedItem>, n: int) -> Seq<Seq<char>>
    decreases n,
{
    if n <= 0 {
        Seq::empty()
    } else {
        match items[n - 1].1.str_at("ref"@) {
            Some(name) => ref_names(items, n - 1).push(name),
            None => ref_names(items, n - 1),
        }
    }
}

/// The first local reference that the first `n` items define again.
pub open spec fn repeated_ref(items: Seq<KindedItem>, n: int) -> Option<Seq<char>>
    decreases n,
{
    if n <= 0 {
        None
    } else {
        match repeated_ref(items, n - 1) {
            Some(name) => Some(name),
            None => match items[n - 1].1.str_at("ref"@) {
                Some(name) => if ref_names(items, n - 1).contains(name) {
                    Some(name)
                } else {
                    None
                },
                None => None,
            },
        }
    }
}

/// What the local references of the first `n` items stand for.
pub open spec fn local_refs(items: Seq<KindedItem>, ids: Seq<Seq<char>>, n: int) -> Seq<
    (Seq<char>, Seq<char>),
>
    decreases n,
{
    if n <= 0 {
        Seq::empty()
    } else {
        match items[n - 1].1.str_at("ref"@) {
            Some(name) => local_refs(items, ids, n - 1).push((name, ids[n - 1])),
            None => local_refs(items, ids, n - 1),
        }
    }
}

pub const MISSING_DOCUMENT: &'static str = "[KB_MISSING_FIELDS] Missing required 'document_id'.";

pub const QUOTA_EXCEEDED: &'static str = "[KB_QUOTA_EXCEEDED] Too many items in one call (limit: 500 items / 1MB). Split the insert into smaller calls.";

/// Why an insertion whose arguments are written in `size` bytes is refused
/// before anything is written.
pub open spec fn insert_refusal(args: JsonView, size: nat) -> Option<Seq<char>> {
    if args.str_at("document_id"@) is None {
        Some(MISSING_DOCUMENT@)
    } else if size > INSERT_MAX_BYTES || items_of(args).len() > INSERT_MAX_ITEMS {
        Some(QUOTA_EXCEEDED@)
    } else {
        match repeated_ref(items_of(args), items_of(args).len() as int) {
            Some(name) => Some(
                "[KB_CONFLICT] Conflicting reference: duplicate ref '"@ + name + "'."@,
            ),
            None => None,
        }
    }
}

/// An item with the identifier given to it.
#[derive(Debug, PartialEq, Eq)]
pub struct BatchItem {
    pub kind: ItemKind,
    pub id: String,
    pub item: Json,
}

/// An admitted insertion.
pub struct InsertBatch {
    pub context: InsertContext,
    pub items: Vec<BatchItem>,
}

/// The items of a batch.
pub open spec fn batch_items(v: Seq<BatchItem>) -> Seq<KindedItem> {
    v.map_values(|b: BatchItem| (b.kind, b.item@))
}

/// The identifiers of a batch.
pub open spec fn batch_ids(v: Seq<BatchItem>) -> Seq<Seq<char>> {
    v.map_values(|b: BatchItem| b.id@)
}

impl InsertBatch {
    /// Whether the batch is what the arguments ask for: every item in order,
    /// with an identifier of its own, and every local reference bound to the
    /// identifier of the item that defines it.
    pub open spec fn matches(&self, args: JsonView, run_id: Seq<char>) -> bool {
        &&& args.str_at("document_id"@) == Some(self.context.doc_id@)
        &&& self.context.run_id@ == run_id
        &&& batch_items(self.items@) == items_of(args)
        &&& pairs_view(self.context.refs@) == local_refs(
            items_of(args),
            batch_ids(self.items@),
            self.items@.len() as int,
        )
    }
}

proof fn lemma_refs_names(items: Seq<KindedItem>, ids: Seq<Seq<char>>, n: int)
    requires
        0 <= n <= items.len(),
    ensures
        local_refs(items, ids, n).len() == ref_names(items, n).len(),
        forall|i: int|
            0 <= i < ref_names(items, n).len() ==> (#[trigger] local_refs(items, ids, n)[i]).0
                == ref_names(items, n)[i],
    decreases n,
{
    if n > 0 {
        lemma_refs_names(items, ids, n - 1);
    }
}

proof fn lemma_ref_id(refs: Seq<(Seq<char>, Seq<char>)>, name: Seq<char>, i: int)
    requires
        0 <= i <= refs.len(),
    ensures
        ref_id(refs, name, i) is Some <==> exists|k: int|
            i <= k < refs.len() && (#[trigger] refs[k]).0 == name,
    decreases refs.len() - i,
{
    if i < refs.len() {
        lemma_ref_id(refs, name, i + 1);
        if refs[i].0 != name && ref_id(refs, name, i) is Some {
            let k = choose|k: int| i + 1 <= k < refs.len() && (#[trigger] refs[k]).0 == name;
            assert(i <= k < refs.len() && refs[k].0 == name);
        }
        if exists|k: int| i <= k < refs.len() && (#[trigger] refs[k]).0 == name {
            let k = choose|k: int| i <= k < refs.len() && (#[trigger] refs[k]).0 == name;
            if refs[i].0 != name {
                assert(i + 1 <= k < refs.len() && refs[k].0 == name);
            }
        }
    }
}

/// The refusal of an insertion's arguments before its references are looked
/// at; else the number of its items.
fn count_items(args: &Json, size: usize) -> (r: Option<usize>)
    ensures
        match r {
            Some(n) => size <= INSERT_MAX_BYTES && n == items_of(args@).len() && n
                <= INSERT_MAX_ITEMS,
            None => size > INSERT_MAX_BYTES || items_of(args@).len() > INSERT_MAX_ITEMS,
        },
{
    if size > INSERT_MAX_BYTES {
        return None;
    }
    let mut total: usize = 0;
    let mut k: usize = 0;
    proof {
        assert(listed_items(args@, 0).len() == 0);
    }
    while k < 6
        invariant
            k <= 6,
            total <= INSERT_MAX_ITEMS,
            total == listed_items(args@, k as int).len(),
        decreases 6 - k,
    {
        let kind = kind_at(k);
        proof {
            lemma_more_items(args@, k as int + 1, 6);
        }
        match args.array_at(kind.name()) {
            Some(a) => {
                let len: usize = a.len();
                if len > INSERT_MAX_ITEMS - total {
                    return None;
                }
                total = total + len;
            },
            None => {},
        }
        k = k + 1;
    }
    Some(total)
}

proof fn lemma_more_items(args: JsonView, a: int, b: int)
    requires
        0 <= a <= b,
    ensures
        listed_items(args, a).len() <= listed_items(args, b).len(),
    decreases b - a,
{
    if a < b {
        lemma_more_items(args, a, b - 1);
    }
}

/// Numbers the items of admitted arguments with the given identifiers.
pub fn number_items(args: &Json, doc_id: &str, run_id: &str, ids: Vec<String>) -> (r: Result<
    InsertBatch,
    String,
>)
    requires
        ids@.len() == items_of(args@).len(),
        args@.str_at("document_id"@) == Some(doc_id@),
    ensures
        match r {
            Ok(b) => {
                &&& b.matches(args@, run_id@)
                &&& batch_ids(b.items@) == views(ids@)
                &&& repeated_ref(items_of(args@), items_of(args@).len() as int) is None
            },
            Err(e) => {
                let again = repeated_ref(items_of(args@), items_of(args@).len() as int);
                &&& again is Some
                &&& e@ == "[KB_CONFLICT] Conflicting reference: duplicate ref '"@ + again->0 + "'."@
            },
        },
{
    let ghost all = items_of(args@);
    let ghost names = views(ids@);
    let mut refs: Vec<(String, String)> = Vec::new();
    let mut items: Vec<BatchItem> = Vec::new();
    let mut k: usize = 0;
    proof {
        assert(batch_items(items@) =~= listed_items(args@, 0));
        assert(pairs_view(refs@) =~= local_refs(all, names, 0));
        assert(batch_ids(items@) =~= names.take(0));
    }
    while k < 6
        invariant
            k <= 6,
            all == items_of(args@),
            names == views(ids@),
            names.len() == all.len(),
            batch_items(items@) == listed_items(args@, k as int),
            batch_ids(items@) == names.take(items@.len() as int),
            items@.len() <= all.len(),
            pairs_view(refs@) == local_refs(all, names, items@.len() as int),
            repeated_ref(all, items@.len() as int) is None,
        decreases 6 - k,
    {
        let kind = kind_at(k);
        let ghost base = listed_items(args@, k as int);
        proof {
            lemma_more_items(args@, k as int + 1, 6);
            lemma_prefix_items(args@, k as int + 1, 6);
        }
        match args.array_at(kind.name()) {
            Some(a) => {
                let ghost here = json_seq(a@).map_values(|j: JsonView| (kind, j));
                let mut i: usize = 0;
                proof {
                    assert(batch_items(items@) =~= base + here.take(0));
                    assert(listed_items(args@, k + 1) == base + here);
                }
                while i < a.len()
                    invariant
                        i <= a@.len(),
                        k < 6,
                        here == json_seq(a@).map_values(|j: JsonView| (kind, j)),
                        all == items_of(args@),
                        names == views(ids@),
                        names.len() == all.len(),
                        base.len() + here.len() <= all.len(),
                        all.take((base.len() + here.len()) as int) == base + here,
                        items@.len() == base.len() + i,
                        batch_items(items@) == base + here.take(i as int),
                        batch_ids(items@) == names.take(items@.len() as int),
                        pairs_view(refs@) == local_refs(all, names, items@.len() as int),
                        repeated_ref(all, items@.len() as int) is None,
                    decreases a@.len() - i,
                {
                    let ghost n = items@.len() as int;
                    let item = &a[i];
                    proof {
                        assert(all[n] == all.take((base.len() + here.len()) as int)[n]);
                        assert(all[n] == here[i as int]);
                        assert(all[n] == (kind, item@));
                    }
                    let at: usize = items.len();
                    let id = ids[at].clone();
                    match item.str_at("ref") {
                        Some(name) => {
                            proof {
                                lemma_refs_names(all, names, n);
                                lemma_ref_id(pairs_view(refs@), name@, 0);
                                let l = local_refs(all, names, n);
                                if ref_names(all, n).contains(name@) {
                                    let x = choose|x: int|
                                        0 <= x < ref_names(all, n).len() && ref_names(all, n)[x]
                                            == name@;
                                    assert(l[x].0 == name@);
                                }
                            }
                            if find_ref(&refs, name).is_some() {
                                proof {
                                    let l = local_refs(all, names, n);
                                    let x = choose|x: int|
                                        0 <= x < l.len() && (#[trigger] l[x]).0 == name@;
                                    assert(ref_names(all, n)[x] == name@);
                                    assert(ref_names(all, n).contains(name@));
                                    assert(repeated_ref(all, n + 1) == Some(name@));
                                    lemma_repeat_stays(all, n + 1, all.len() as int);
                                }
                                let mut s = String::from_str(
                                    "[KB_CONFLICT] Conflicting reference: duplicate ref '",
                                );
                                s.append(name);
                                s.append("'.");
                                return Err(s);
                            }
                            let ghost before = refs@;
                            refs.push((name.to_owned(), id.clone()));
                            proof {
                                assert(pairs_view(refs@) =~= pairs_view(before).push(
                                    (name@, id@),
                                ));
                                assert(names[n] == ids@[n]@);
                            }
                        },
                        None => {},
                    }
                    let ghost old_items = items@;
                    items.push(BatchItem { kind, id, item: item.copy() });
                    proof {
                        assert(batch_items(items@) =~= batch_items(old_items).push((kind, item@)));
                        assert(here.take(i + 1) =~= here.take(i as int).push(here[i as int]));
                        assert(base + here.take(i + 1) =~= (base + here.take(i as int)).push(
                            here[i as int],
                        ));
                        assert(batch_ids(items@) =~= names.take(n + 1));
                    }
                    i = i + 1;
                }
                proof {
                    assert(here.take(here.len() as int) =~= here);
                }
            },
            None => {
                proof {
                    assert(listed_items(args@, k + 1) =~= base);
                }
            },
        }
        k = k + 1;
    }
    proof {
        assert(items@.len() == batch_items(items@).len());
        assert(names.take(names.len() as int) =~= names);
    }
    Ok(
        InsertBatch {
            context: InsertContext { doc_id: doc_id.to_owned(), run_id: run_id.to_owned(), refs },
            items,
        },
    )
}

proof fn lemma_prefix_items(args: JsonView, a: int, b: int)
    requires
        0 <= a <= b,
    ensures
        listed_items(args, a).len() <= listed_items(args, b).len(),
        listed_items(args, b).take(listed_items(args, a).len() as int) == listed_items(args, a),
    decreases b - a,
{
    if a < b {
        lemma_prefix_items(args, a, b - 1);
        lemma_more_items(args, a, b);
        assert(listed_items(args, b).take(listed_items(args, a).len() as int) =~= listed_items(
            args,
            b - 1,
        ).take(listed_items(args, a).len() as int));
    } else {
        assert(listed_items(args, a).take(listed_items(args, a).len() as int) =~= listed_items(
            args,
            a,
        ));
    }
}

proof fn lemma_repeat_stays(items: Seq<KindedItem>, a: int, b: int)
    requires
        0 <= a <= b,
        repeated_ref(items, a) is Some,
    ensures
        repeated_ref(items, b) == repeated_ref(items, a),
    decreases b - a,
{
    if a < b {
        lemma_repeat_stays(items, a, b - 1);
    }
}

fn fresh_ids(n: usize) -> (r: Vec<String>)
    ensures
        r@.len() == n,
        forall|i: int| 0 <= i < n ==> is_uuid((#[trigger] r@[i])@),
{
    let mut ids: Vec<String> = Vec::new();
    while ids.len() < n
        invariant
            ids@.len() <= n,
            forall|i: int| 0 <= i < ids@.len() ==> is_uuid((#[trigger] ids@[i])@),
        decreases n - ids@.len(),
    {
        ids.push(new_uuid());
    }
    ids
}

/// Admits an insertion: checks its arguments against the quotas, gives every
/// item a random identifier and binds the local references.
pub fn prepare_insert(args: &Json, run_id: &str) -> (r: Result<InsertBatch, String>)
    ensures
        match r {
            Ok(b) => {
                &&& insert_refusal(args@, utf8_len(json_written(args@))) is None
                &&& b.matches(args@, run_id@)
                &&& forall|i: int| 0 <= i < b.items@.len() ==> is_uuid((#[trigger] b.items@[i]).id@)
            },
            Err(e) => insert_refusal(args@, utf8_len(json_written(args@))) == Some(e@),
        },
{
    let written = print_json(args);
    let size: usize = byte_len(written.as_str());
    prepare_sized(args, run_id, size)
}

/// Admits an insertion whose arguments are written in `size` bytes.
pub fn prepare_sized(args: &Json, run_id: &str, size: usize) -> (r: Result<InsertBatch, String>)
    ensures
        match r {
            Ok(b) => {
                &&& insert_refusal(args@, size as nat) is None
                &&& b.matches(args@, run_id@)
                &&& forall|i: int| 0 <= i < b.items@.len() ==> is_uuid((#[trigger] b.items@[i]).id@)
            },
            Err(e) => insert_refusal(args@, size as nat) == Some(e@),
        },
{
    let doc_id = match args.str_at("document_id") {
        Some(d) => d,
        None => {
            return Err(MISSING_DOCUMENT.to_owned());
        },
    };
    match count_items(args, size) {
        Some(n) => {
            let ids = fresh_ids(n);
            let ghost names = views(ids@);
            let r = number_items(args, doc_id, run_id, ids);
            proof {
                if r is Ok {
                    let items = r->Ok_0.items@;
                    assert forall|i: int| 0 <= i < items.len() implies is_uuid(
                        (#[trigger] items[i]).id@,
                    ) by {
                        assert(batch_ids(items)[i] == names[i]);
                    }
                }
            }
            r
        },
        None => Err(QUOTA_EXCEEDED.to_owned()),
    }
}

/// An inserted item as it is reported.
pub open spec fn inserted_entry(item: JsonView, id: Seq<char>) -> JsonView {
    empty_object().with(
        "ref"@,
        match item.str_at("ref"@) {
            Some(name) => if name.len() > 0 {
                JsonView::Str(name)
            } else {
                JsonView::Null
            },
            None => JsonView::Null,
        },
    ).with("id"@, JsonView::Str(id))
}

/// The inserted items of a kind among the first `n`.
pub open spec fn entries_of(items: Seq<KindedItem>, ids: Seq<Seq<char>>, kind: ItemKind, n: int) -> Seq<
    JsonView,
>
    decreases n,
{
    if n <= 0 {
        Seq::empty()
    } else if items[n - 1].0 == kind {
        entries_of(items, ids, kind, n - 1).push(inserted_entry(items[n - 1].1, ids[n - 1]))
    } else {
        entries_of(items, ids, kind, n - 1)
    }
}

/// The inserted items of the first `k` kinds, by kind.
pub open spec fn inserted_kinds(items: Seq<KindedItem>, ids: Seq<Seq<char>>, k: int) -> JsonView
    decreases k,
{
    if k <= 0 {
        empty_object()
    } else {
        let kind = all_kinds()[k - 1];
        let list = entries_of(items, ids, kind, items.len() as int);
        if list.len() > 0 {
            inserted_kinds(items, ids, k - 1).with(kind_name(kind), JsonView::Array(list))
        } else {
            inserted_kinds(items, ids, k - 1)
        }
    }
}

impl InsertBatch {
    /// The report of the insertion: the identifiers given, by kind, and how
    /// many.
    pub fn report(&self) -> (r: Json)
        ensures
            r@ == empty_object().with("status"@, JsonView::Str("ok"@)).with(
                "inserted"@,
                inserted_kinds(batch_items(self.items@), batch_ids(self.items@), 6),
            ).with("total"@, JsonView::Int(self.items@.len() as int)),
    {
        let ghost items = batch_items(self.items@);
        let ghost ids = batch_ids(self.items@);
        let mut inserted = Json::object();
        let mut k: usize = 0;
        while k < 6
            invariant
                k <= 6,
                items == batch_items(self.items@),
                ids == batch_ids(self.items@),
                inserted@ == inserted_kinds(items, ids, k as int),
            decreases 6 - k,
        {
            let kind = kind_at(k);
            let mut list: Vec<Json> = Vec::new();
            let mut i: usize = 0;
            proof {
                assert(json_seq(list@) =~= entries_of(items, ids, kind, 0));
            }
            while i < self.items.len()
                invariant
                    i <= self.items@.len(),
                    items == batch_items(self.items@),
                    ids == batch_ids(self.items@),
                    json_seq(list@) == entries_of(items, ids, kind, i as int),
                decreases self.items@.len() - i,
            {
                let b = &self.items[i];
                proof {
                    assert(items[i as int] == (b.kind, b.item@));
                    assert(ids[i as int] == b.id@);
                }
                if b.kind == kind {
                    let name = match b.item.str_at("ref") {
                        Some(n) => if n.is_empty() {
                            Json::Null
                        } else {
                            Json::text(n)
                        },
                        None => Json::Null,
                    };
                    let entry = Json::object().with("ref", name).with(
                        "id",
                        Json::text(b.id.as_str()),
                    );
                    let ghost before = list@;
                    list.push(entry);
                    proof {
                        assert(json_seq(list@) =~= json_seq(before).push(entry@));
                    }
                }
                i = i + 1;
            }
            if list.len() > 0 {
                inserted = inserted.with(kind.name(), Json::Array(list));
            }
            k = k + 1;
        }
        Json::object().with("status", Json::text("ok")).with("inserted", inserted).with(
            "total",
            Json::Unsigned(self.items.len() as u64),
        )
    }
}

// ---------------------------------------------------------------------------
// Updates
// ---------------------------------------------------------------------------

/// Whether rows of a kind have attributes.
pub open spec fn with_attributes(target: Seq<char>) -> bool {
    target == "entities"@ || target == "claims"@ || target == "relations"@ || target == "events"@
        || target == "canonical_entities"@
}

/// Whether rows of a kind have attributes.
pub fn has_attributes_column(target_type: &str) -> (r: bool)
    ensures
        r == with_attributes(target_type@),
{
    str_eq(target_type, "entities") || str_eq(target_type, "claims") || str_eq(
        target_type,
        "relations",
    ) || str_eq(target_type, "events") || str_eq(target_type, "canonical_entities")
}

/// Whether rows of a kind can be marked obsolete.
pub open spec fn with_obsolete(target: Seq<char>) -> bool {
    with_attributes(target) || target == "document_units"@ || target == "conditions"@ || target
        == "evidence"@
}

/// Whether rows of a kind can be marked obsolete.
pub fn has_obsolete_column(target_type: &str) -> (r: bool)
    ensures
        r == with_obsolete(target_type@),
{
    has_attributes_column(target_type) || str_eq(target_type, "document_units") || str_eq(
        target_type,
        "conditions",
    ) || str_eq(target_type, "evidence")
}

/// What an update asks for.
pub struct UpdateRequest {
    pub target_type: String,
    pub target_id: String,
    pub attributes: Option<Json>,
    pub annotations: Option<Json>,
    pub obsolete: bool,
    pub reason: Option<String>,
}

/// What an update asks for.
pub struct UpdateView {
    pub target_type: Seq<char>,
    pub target_id: Seq<char>,
    pub attributes: Option<JsonView>,
    pub annotations: Option<JsonView>,
    pub obsolete: bool,
    pub reason: Option<Seq<char>>,
}

/// The contents of an optional value.
pub open spec fn owned_json(o: Option<Json>) -> Option<JsonView> {
    match o {
        Some(j) => Some(j@),
        None => None,
    }
}

impl View for UpdateRequest {
    type V = UpdateView;

    open spec fn view(&self) -> UpdateView {
        UpdateView {
            target_type: self.target_type@,
            target_id: self.target_id@,
            attributes: owned_json(self.attributes),
            annotations: owned_json(self.annotations),
            obsolete: self.obsolete,
            reason: opt_view(self.reason),
        }
    }
}

/// The argument named `k`, where it is given and no null.
pub open spec fn given(args: JsonView, k: Seq<char>) -> Option<JsonView> {
    match args.get(k) {
        Some(v) => if v is Null {
            None
        } else {
            Some(v)
        },
        None => None,
    }
}

fn given_value(args: &Json, k: &str) -> (r: Option<Json>)
    ensures
        owned_json(r) == given(args@, k@),
{
    match args.get(k) {
        Some(v) => match v {
            Json::Null => None,
            other => Some(other.copy()),
        },
        None => None,
    }
}

pub const NO_TARGET_TYPE: &'static str = "[KB_MISSING_FIELDS] Missing required 'target_type'.";

pub const NO_TARGET_ID: &'static str = "[KB_MISSING_FIELDS] Missing required 'target_id'.";

pub const NO_UPDATE: &'static str = "[KB_MISSING_FIELDS] No update content: provide attributes, annotations, or obsolete.";

/// The flag named `k`; false where it is no boolean.
pub open spec fn flag_at(args: JsonView, k: Seq<char>) -> bool {
    match args.get(k) {
        Some(v) => v.as_bool() == Some(true),
        None => false,
    }
}

/// What the arguments of an update ask for, or why they are refused.
pub open spec fn update_asked(args: JsonView) -> Result<UpdateView, Seq<char>> {
    match args.str_at("target_type"@) {
        None => Err(NO_TARGET_TYPE@),
        Some(target_type) => if !update_targets().contains(target_type) {
            Err(
                "[KB_EXEC_ERROR] Invalid target_type '"@ + target_type + "'. Allowed: "@ + join_of(
                    update_targets(),
                    " / "@,
                ) + "."@,
            )
        } else {
            match args.str_at("target_id"@) {
                None => Err(NO_TARGET_ID@),
                Some(target_id) => {
                    let u = UpdateView {
                        target_type,
                        target_id,
                        attributes: given(args, "attributes"@),
                        annotations: given(args, "annotations"@),
                        obsolete: flag_at(args, "obsolete"@),
                        reason: args.str_at("reason"@),
                    };
                    if u.attributes is None && u.annotations is None && !u.obsolete {
                        Err(NO_UPDATE@)
                    } else {
                        Ok(u)
                    }
                },
            }
        },
    }
}

/// Reads the arguments of an update.
pub fn read_update(args: &Json) -> (r: Result<UpdateRequest, String>)
    ensures
        match r {
            Ok(u) => update_asked(args@) == Ok::<UpdateView, Seq<char>>(u@),
            Err(e) => update_asked(args@) == Err::<UpdateView, Seq<char>>(e@),
        },
{
    let target_type = match args.str_at("target_type") {
        Some(t) => t,
        None => {
            return Err(NO_TARGET_TYPE.to_owned());
        },
    };
    let allowed = update_target_types();
    if !list_has(&allowed, target_type) {
        let all = join(&allowed, " / ");
        let mut s = String::from_str("[KB_EXEC_ERROR] Invalid target_type '");
        s.append(target_type);
        s.append("'. Allowed: ");
        s.append(all.as_str());
        s.append(".");
        return Err(s);
    }
    let target_id = match args.str_at("target_id") {
        Some(t) => t,
        None => {
            return Err(NO_TARGET_ID.to_owned());
        },
    };
    let attributes = given_value(args, "attributes");
    let annotations = given_value(args, "annotations");
    let obsolete = match args.get("obsolete") {
        Some(v) => match v.as_bool() {
            Some(b) => b,
            None => false,
        },
        None => false,
    };
    let reason = match args.str_at("reason") {
        Some(t) => Some(t.to_owned()),
        None => None,
    };
    if attributes.is_none() && annotations.is_none() && !obsolete {
        return Err(NO_UPDATE.to_owned());
    }
    Ok(
        UpdateRequest {
            target_type: target_type.to_owned(),
            target_id: target_id.to_owned(),
            attributes,
            annotations,
            obsolete,
            reason,
        },
    )
}

/// Asks for the row that an update is about.
pub fn row_query(target_type: &str) -> (r: String)
    ensures
        r@ == "SELECT * FROM "@ + quoted(target_type@) + " WHERE id = ?1"@,
{
    let q = quote_ident(target_type);
    let mut s = String::from_str("SELECT * FROM ");
    s.append(q.as_str());
    s.append(" WHERE id = ?1");
    s
}

/// The error on a row that does not exist.
pub fn target_not_found(target_type: &str, target_id: &str) -> (r: String)
    ensures
        r@ == "[KB_NOT_FOUND] Target not found: "@ + target_type@ + " '"@ + target_id@
            + "'. Verify the id via data_kb_search."@,
{
    let mut s = String::from_str("[KB_NOT_FOUND] Target not found: ");
    s.append(target_type);
    s.append(" '");
    s.append(target_id);
    s.append("'. Verify the id via data_kb_search.");
    s
}

/// The columns of a row that an update reads.
#[derive(Debug, PartialEq, Eq)]
pub struct CurrentRow {
    pub attributes: String,
    pub annotations: String,
    pub document_id: Option<String>,
}

/// The columns of a row that an update reads.
pub struct RowView {
    pub attributes: Seq<char>,
    pub annotations: Seq<char>,
    pub document_id: Option<Seq<char>>,
}

impl View for CurrentRow {
    type V = RowView;

    open spec fn view(&self) -> RowView {
        RowView {
            attributes: self.attributes@,
            annotations: self.annotations@,
            document_id: opt_view(self.document_id),
        }
    }
}

/// What an update reads in the first `n` columns of a row.
pub open spec fn row_read(cols: Seq<Seq<char>>, values: Seq<DbValue>, n: int) -> RowView
    decreases n,
{
    if n <= 0 {
        RowView { attributes: "{}"@, annotations: "{}"@, document_id: None }
    } else {
        let row = row_read(cols, values, n - 1);
        match values[n - 1] {
            DbValue::Text(t) => if cols[n - 1] == "attributes"@ {
                RowView { attributes: t@, ..row }
            } else if cols[n - 1] == "annotations"@ {
                RowView { annotations: t@, ..row }
            } else if cols[n - 1] == "document_id"@ {
                RowView { document_id: Some(t@), ..row }
            } else {
                row
            },
            DbValue::Null => if cols[n - 1] == "document_id"@ {
                RowView { document_id: None, ..row }
            } else {
                row
            },
            _ => row,
        }
    }
}

proof fn lemma_columns_differ()
    ensures
        "attributes"@ != "annotations"@,
        "attributes"@ != "document_id"@,
        "annotations"@ != "document_id"@,
{
    reveal_strlit("attributes");
    reveal_strlit("annotations");
    reveal_strlit("document_id");
    assert("attributes"@.len() == 10);
    assert("annotations"@[0] == 'a');
    assert("document_id"@[0] == 'd');
}

/// Reads the columns that an update needs; the columns of a row differ by
/// table.
pub fn read_row(cols: &Vec<String>, values: &Vec<DbValue>) -> (r: CurrentRow)
    requires
        cols@.len() == values@.len(),
    ensures
        r@ == row_read(views(cols@), values@, cols@.len() as int),
{
    let mut row = CurrentRow {
        attributes: "{}".to_owned(),
        annotations: "{}".to_owned(),
        document_id: None,
    };
    let mut i: usize = 0;
    while i < cols.len()
        invariant
            i <= cols@.len(),
            cols@.len() == values@.len(),
            row@ == row_read(views(cols@), values@, i as int),
        decreases cols@.len() - i,
    {
        let col = cols[i].as_str();
        proof {
            lemma_columns_differ();
        }
        match &values[i] {
            DbValue::Text(t) => {
                if str_eq(col, "attributes") {
                    row.attributes = t.clone();
                } else if str_eq(col, "annotations") {
                    row.annotations = t.clone();
                } else if str_eq(col, "document_id") {
                    row.document_id = Some(t.clone());
                }
            },
            DbValue::Null => {
                if str_eq(col, "document_id") {
                    row.document_id = None;
                }
            },
            _ => {},
        }
        i = i + 1;
    }
    row
}

/// An object with an optional patch merged into it.
pub open spec fn with_patch(target: JsonView, patch: Option<JsonView>) -> Result<
    JsonView,
    Seq<char>,
> {
    match patch {
        Some(p) => merged(target, p),
        None => Ok(target),
    }
}

/// The attributes and annotations of a row after an update.
pub open spec fn updated_objects(u: UpdateView, attributes: JsonView, annotations: JsonView) -> Result<
    (JsonView, JsonView),
    Seq<char>,
> {
    match with_patch(attributes, u.attributes) {
        Err(e) => Err(e),
        Ok(attrs) => match with_patch(annotations, u.annotations) {
            Err(e) => Err(e),
            Ok(annos) => Ok(
                (
                    attrs,
                    if u.obsolete {
                        annos.with("obsolete"@, JsonView::Bool(true))
                    } else {
                        annos
                    },
                ),
            ),
        },
    }
}

/// Applies an update to the attributes and annotations of a row.
pub fn update_objects(u: &UpdateRequest, attributes: Json, annotations: Json) -> (r: Result<
    (Json, Json),
    String,
>)
    requires
        attributes is Object,
        annotations is Object,
    ensures
        match r {
            Ok(p) => updated_objects(u@, attributes@, annotations@) == Ok::<
                (JsonView, JsonView),
                Seq<char>,
            >((p.0@, p.1@)),
            Err(e) => updated_objects(u@, attributes@, annotations@) == Err::<
                (JsonView, JsonView),
                Seq<char>,
            >(e@),
        },
{
    let attrs = match &u.attributes {
        Some(p) => match merge_json_obj(attributes, p) {
            Ok(a) => a,
            Err(e) => {
                return Err(e);
            },
        },
        None => attributes,
    };
    let annos = match &u.annotations {
        Some(p) => match merge_json_obj(annotations, p) {
            Ok(a) => a,
            Err(e) => {
                return Err(e);
            },
        },
        None => annotations,
    };
    if u.obsolete {
        Ok((attrs, annos.with("obsolete", Json::Bool(true))))
    } else {
        Ok((attrs, annos))
    }
}

/// Asks for the highest version of a row's annotations.
pub const VERSION_SQL: &'static str = "SELECT MAX(version) FROM annotation_versions WHERE target_type = ?1 AND target_id = ?2";

/// The version after the highest one that is stored; the first is 1.
pub open spec fn version_after(highest: Option<i64>) -> int {
    match highest {
        Some(n) => n + 1,
        None => 1,
    }
}

/// Whether the rows of a kind hold annotations.
pub open spec fn with_annotations(target_type: Seq<char>) -> bool {
    target_type != "evidence"@
}

pub const HISTORY_SQL: &'static str = "INSERT INTO annotation_versions (id, target_type, target_id, version, annotations, analysis_run_id, created_by, reason) VALUES (?1, ?2, ?3, ?4, ?5, ?6, ?7, ?8)";

pub const TOUCH_SQL: &'static str = "UPDATE documents SET updated_at = ?1 WHERE id = ?2";

/// Whether a status is one that a document can have.
pub open spec fn known_status(s: Seq<char>) -> bool {
    s == "pending"@ || s == "analyzing"@ || s == "analyzed"@ || s == "failed"@
}

/// The status that the annotations of a row set.
pub open spec fn status_set(target_type: Seq<char>, annos: JsonView) -> Option<Seq<char>> {
    if target_type == "documents"@ {
        annos.str_at("analysis_status"@)
    } else {
        None
    }
}

/// The assignments of an update and the values they bind.
pub open spec fn assignments(
    u: UpdateView,
    attrs: JsonView,
    annos: JsonView,
    now: Seq<char>,
) -> (Seq<Seq<char>>, Seq<CellView>) {
    let first = if with_attributes(u.target_type) {
        (seq!["attributes = ?"@], seq![CellView::Text(json_written(attrs))])
    } else {
        (Seq::<Seq<char>>::empty(), Seq::<CellView>::empty())
    };
    let second = if with_annotations(u.target_type) {
        (first.0.push("annotations = ?"@), first.1.push(CellView::Text(json_written(annos))))
    } else {
        first
    };
    let third = if u.obsolete && with_obsolete(u.target_type) {
        (second.0.push("obsolete = 1"@), second.1)
    } else {
        second
    };
    match status_set(u.target_type, annos) {
        Some(status) => {
            let fourth = (
                third.0.push("analysis_status = ?"@),
                third.1.push(CellView::Text(status)),
            );
            if status == "analyzed"@ {
                (fourth.0.push("analyzed_at = ?"@), fourth.1.push(CellView::Text(now)))
            } else {
                fourth
            }
        },
        None => third,
    }
}

/// The statement that updates a row, or why it is refused.
pub open spec fn row_statement(
    u: UpdateView,
    attrs: JsonView,
    annos: JsonView,
    now: Seq<char>,
) -> Result<StatementView, Seq<char>> {
    match status_set(u.target_type, annos) {
        Some(status) => if !known_status(status) {
            Err(
                "[KB_EXEC_ERROR] Invalid analysis_status '"@ + status
                    + "': allowed values are pending / analyzing / analyzed / failed."@,
            )
        } else {
            Ok(set_statement(u, assignments(u, attrs, annos, now)))
        },
        None => if assignments(u, attrs, annos, now).0.len() == 0 {
            Err(NO_UPDATE@)
        } else {
            Ok(set_statement(u, assignments(u, attrs, annos, now)))
        },
    }
}

/// The statement that makes assignments to a row.
pub open spec fn set_statement(u: UpdateView, a: (Seq<Seq<char>>, Seq<CellView>)) -> StatementView {
    StatementView {
        sql: "UPDATE "@ + quoted(u.target_type) + " SET "@ + join_of(a.0, ", "@)
            + " WHERE id = ?"@ + decimal((a.1.len() + 1) as nat),
        params: a.1.push(CellView::Text(u.target_id)),
    }
}

/// The document whose modification time an update moves: the row itself, or
/// the document that the row belongs to.
pub open spec fn touched_document(u: UpdateView, document_id: Option<Seq<char>>) -> Option<
    Seq<char>,
> {
    if u.target_type == "documents"@ {
        Some(u.target_id)
    } else if u.target_type == "conditions"@ {
        None
    } else {
        document_id
    }
}

/// What an update does, in order.
pub struct UpdatePlan {
    /// Appends to the history of the annotations.
    pub history: Statement,
    /// Updates the row; refused where it would set an unknown status or nothing
    /// at all.
    pub update: Result<Statement, String>,
    /// Moves the modification time of a document.
    pub touch: Option<Statement>,
    /// What is answered.
    pub report: Json,
}

/// What an update does, in order.
pub struct PlanView {
    pub history: StatementView,
    pub update: Result<StatementView, Seq<char>>,
    pub touch: Option<StatementView>,
    pub report: JsonView,
}

impl View for UpdatePlan {
    type V = PlanView;

    open spec fn view(&self) -> PlanView {
        PlanView {
            history: self.history@,
            update: match self.update {
                Ok(s) => Ok(s@),
                Err(e) => Err(e@),
            },
            touch: match self.touch {
                Some(s) => Some(s@),
                None => None,
            },
            report: self.report@,
        }
    }
}

/// What an update does once the highest stored version of the annotations is
/// known.
pub open spec fn update_plan(
    u: UpdateView,
    attrs: JsonView,
    annos: JsonView,
    document_id: Option<Seq<char>>,
    highest: Option<i64>,
    version_id: Seq<char>,
    run_id: Seq<char>,
    now: Seq<char>,
) -> PlanView {
    PlanView {
        history: StatementView {
            sql: HISTORY_SQL@,
            params: seq![
                CellView::Text(version_id),
                CellView::Text(u.target_type),
                CellView::Text(u.target_id),
                CellView::Whole(version_after(highest)),
                CellView::Text(json_written(annos)),
                CellView::Text(run_id),
                CellView::Text("data_kb_update"@),
                text_cell(u.reason),
            ],
        },
        update: row_statement(u, attrs, annos, now),
        touch: match touched_document(u, document_id) {
            Some(d) => Some(
                StatementView {
                    sql: TOUCH_SQL@,
                    params: seq![CellView::Text(now), CellView::Text(d)],
                },
            ),
            None => None,
        },
        report: empty_object().with("status"@, JsonView::Str("ok"@)).with(
            "version"@,
            JsonView::Int(version_after(highest)),
        ).with(
            "document_updated_at"@,
            JsonView::Str(
                if touched_document(u, document_id) is Some {
                    now
                } else {
                    ""@
                },
            ),
        ),
    }
}

fn plan_row(u: &UpdateRequest, attrs: &Json, annos: &Json, now: &str) -> (r: Result<
    Statement,
    String,
>)
    ensures
        match r {
            Ok(s) => row_statement(u@, attrs@, annos@, now@) == Ok::<StatementView, Seq<char>>(s@),
            Err(e) => row_statement(u@, attrs@, annos@, now@) == Err::<StatementView, Seq<char>>(
                e@,
            ),
        },
{
    let target = u.target_type.as_str();
    let mut sets: Vec<String> = Vec::new();
    let mut vals: Vec<Cell> = Vec::new();
    if has_attributes_column(target) {
        sets.push("attributes = ?".to_owned());
        vals.push(Cell::Text(print_json(attrs)));
    }
    if !str_eq(target, "evidence") {
        sets.push("annotations = ?".to_owned());
        vals.push(Cell::Text(print_json(annos)));
    }
    if u.obsolete && has_obsolete_column(target) {
        sets.push("obsolete = 1".to_owned());
    }
    if str_eq(target, "documents") {
        match annos.str_at("analysis_status") {
            Some(status) => {
                if !(str_eq(status, "pending") || str_eq(status, "analyzing") || str_eq(
                    status,
                    "analyzed",
                ) || str_eq(status, "failed")) {
                    let mut s = String::from_str("[KB_EXEC_ERROR] Invalid analysis_status '");
                    s.append(status);
                    s.append("': allowed values are pending / analyzing / analyzed / failed.");
                    return Err(s);
                }
                sets.push("analysis_status = ?".to_owned());
                vals.push(Cell::text(status));
                if str_eq(status, "analyzed") {
                    sets.push("analyzed_at = ?".to_owned());
                    vals.push(Cell::text(now));
                }
            },
            None => {},
        }
    }
    let ghost a = assignments(u@, attrs@, annos@, now@);
    proof {
        assert(views(sets@) =~= a.0);
        assert(cells_view(vals@) =~= a.1);
        assert(vals@.len() <= 4);
        assert(views(sets@).len() == sets@.len());
    }
    if sets.len() == 0 {
        proof {
            reveal_strlit("documents");
            reveal_strlit("evidence");
            assert("documents"@.len() == 9 && "evidence"@.len() == 8);
        }
        return Err(NO_UPDATE.to_owned());
    }
    let q = quote_ident(target);
    let list = join(&sets, ", ");
    let place = usize_text(vals.len() + 1);
    let mut sql = String::from_str("UPDATE ");
    sql.append(q.as_str());
    sql.append(" SET ");
    sql.append(list.as_str());
    sql.append(" WHERE id = ?");
    sql.append(place.as_str());
    let ghost before = vals@;
    vals.push(Cell::text(u.target_id.as_str()));
    proof {
        assert(cells_view(vals@) =~= cells_view(before).push(CellView::Text(u.target_id@)));
    }
    Ok(Statement { sql, params: vals })
}

/// Plans an update of a row whose attributes and annotations are to become
/// `attrs` and `annos`.
pub fn plan_update(
    u: &UpdateRequest,
    attrs: &Json,
    annos: &Json,
    document_id: &Option<String>,
    highest: Option<i64>,
    version_id: &str,
    run_id: &str,
    now: &str,
) -> (r: UpdatePlan)
    requires
        version_after(highest) <= i64::MAX,
    ensures
        r@ == update_plan(
            u@,
            attrs@,
            annos@,
            opt_view(*document_id),
            highest,
            version_id@,
            run_id@,
            now@,
        ),
{
    let version: i64 = match highest {
        Some(n) => n + 1,
        None => 1,
    };
    let mut p: Vec<Cell> = Vec::new();
    p.push(Cell::text(version_id));
    p.push(Cell::text(u.target_type.as_str()));
    p.push(Cell::text(u.target_id.as_str()));
    p.push(Cell::Whole(version));
    p.push(Cell::Text(print_json(annos)));
    p.push(Cell::text(run_id));
    p.push(Cell::text("data_kb_update"));
    p.push(Cell::owned_text(&u.reason));
    let ghost want = update_plan(
        u@,
        attrs@,
        annos@,
        opt_view(*document_id),
        highest,
        version_id@,
        run_id@,
        now@,
    );
    proof {
        assert(cells_view(p@) =~= want.history.params);
    }
    let history = Statement { sql: HISTORY_SQL.to_owned(), params: p };
    let update = plan_row(u, attrs, annos, now);
    let touched: Option<&str> = if str_eq(u.target_type.as_str(), "documents") {
        Some(u.target_id.as_str())
    } else if str_eq(u.target_type.as_str(), "conditions") {
        None
    } else {
        match document_id {
            Some(d) => Some(d.as_str()),
            None => None,
        }
    };
    let stamp = match touched {
        Some(_) => now,
        None => "",
    };
    let touch = match touched {
        Some(d) => {
            let mut t: Vec<Cell> = Vec::new();
            t.push(Cell::text(now));
            t.push(Cell::text(d));
            proof {
                assert(cells_view(t@) =~= seq![CellView::Text(now@), CellView::Text(d@)]);
            }
            Some(Statement { sql: TOUCH_SQL.to_owned(), params: t })
        },
        None => None,
    };
    let report = Json::object().with("status", Json::text("ok")).with(
        "version",
        Json::number(version),
    ).with("document_updated_at", Json::text(stamp));
    UpdatePlan { history, update, touch, report }
}

/// What an update does to a row, or why it is refused.
pub open spec fn row_update_plan(
    u: UpdateView,
    row: RowView,
    highest: Option<i64>,
    version_id: Seq<char>,
    run_id: Seq<char>,
    now: Seq<char>,
) -> Result<PlanView, Seq<char>> {
    match updated_objects(
        u,
        object_read(json_read(row.attributes)),
        object_read(json_read(row.annotations)),
    ) {
        Err(e) => Err(e),
        Ok(p) => Ok(
            update_plan(u, p.0, p.1, row.document_id, highest, version_id, run_id, now),
        ),
    }
}

/// Plans an update of the row that the database holds.
pub fn plan_row_update(
    u: &UpdateRequest,
    row: &CurrentRow,
    highest: Option<i64>,
    version_id: &str,
    run_id: &str,
    now: &str,
) -> (r: Result<UpdatePlan, String>)
    requires
        version_after(highest) <= i64::MAX,
    ensures
        match r {
            Ok(p) => row_update_plan(u@, row@, highest, version_id@, run_id@, now@) == Ok::<
                PlanView,
                Seq<char>,
            >(p@),
            Err(e) => row_update_plan(u@, row@, highest, version_id@, run_id@, now@)
                == Err::<PlanView, Seq<char>>(e@),
        },
{
    let attributes = parse_json_obj(row.attributes.as_str());
    let annotations = parse_json_obj(row.annotations.as_str());
    match update_objects(u, attributes, annotations) {
        Err(e) => Err(e),
        Ok(p) => Ok(
            plan_update(u, &p.0, &p.1, &row.document_id, highest, version_id, run_id, now),
        ),
    }
}

/// The annotations that an update gives a row are those it appends to the
/// history: the current value always is the latest version. Evidence holds no
/// annotations.
pub proof fn current_annotations_are_the_latest_version(
    u: UpdateView,
    attrs: JsonView,
    annos: JsonView,
    document_id: Option<Seq<char>>,
    highest: Option<i64>,
    version_id: Seq<char>,
    run_id: Seq<char>,
    now: Seq<char>,
)
    requires
        with_annotations(u.target_type),
    ensures
        ({
            let plan = update_plan(
                u,
                attrs,
                annos,
                document_id,
                highest,
                version_id,
                run_id,
                now,
            );
            let at: int = if with_attributes(u.target_type) {
                1
            } else {
                0
            };
            let a = assignments(u, attrs, annos, now);
            &&& plan.history.params[4] == CellView::Text(json_written(annos))
            &&& plan.update is Ok ==> {
                &&& a.0[at] == "annotations = ?"@
                &&& plan.update->Ok_0.params[at] == plan.history.params[4]
                &&& plan.update->Ok_0.params.last() == CellView::Text(u.target_id)
            }
        }),
{
}

/// The version that an update stores and reports is one above the highest one
/// stored before, whatever it does to the row.
pub proof fn versions_count_up(
    u: UpdateView,
    row: RowView,
    highest: Option<i64>,
    version_id: Seq<char>,
    run_id: Seq<char>,
    now: Seq<char>,
)
    requires
        row_update_plan(u, row, highest, version_id, run_id, now) is Ok,
    ensures
        ({
            let plan = row_update_plan(u, row, highest, version_id, run_id, now)->Ok_0;
            let version = match highest {
                Some(n) => n + 1,
                None => 1,
            };
            &&& plan.history.params[3] == CellView::Whole(version)
            &&& plan.report.get("version"@) == Some(JsonView::Int(version))
        }),
{
    reveal_strlit("status");
    reveal_strlit("version");
    reveal_strlit("document_updated_at");
    assert("version"@.len() == 7 && "document_updated_at"@.len() == 19);
    let a = empty_object().with("status"@, JsonView::Str("ok"@));
    let v = JsonView::Int(version_after(highest));
    let b = a.with("version"@, v);
    lemma_with(empty_object(), "status"@, JsonView::Str("ok"@));
    lemma_with(a, "version"@, v);
    let plan = row_update_plan(u, row, highest, version_id, run_id, now)->Ok_0;
    let text = JsonView::Str(
        if touched_document(u, row.document_id) is Some {
            now
        } else {
            ""@
        },
    );
    lemma_with(b, "document_updated_at"@, text);
}

/// Marking a row of any kind obsolete succeeds where the kind has the mark: the
/// update is planned and sets it.
pub proof fn rows_can_be_marked_obsolete(
    u: UpdateView,
    attrs: JsonView,
    annos: JsonView,
    now: Seq<char>,
)
    requires
        u.obsolete,
        with_obsolete(u.target_type),
    ensures
        row_statement(u, attrs, annos, now) is Ok,
        assignments(u, attrs, annos, now).0.contains("obsolete = 1"@),
        !with_annotations(u.target_type) ==> assignments(u, attrs, annos, now).0 == seq![
            "obsolete = 1"@,
        ],
{
    reveal_strlit("documents");
    assert("documents"@.len() == 9);
    reveal_strlit("document_units");
    reveal_strlit("entities");
    reveal_strlit("claims");
    reveal_strlit("relations");
    reveal_strlit("conditions");
    reveal_strlit("events");
    reveal_strlit("evidence");
    reveal_strlit("canonical_entities");
    assert("relations"@[0] == 'r' && "documents"@[0] == 'd');
    assert("document_units"@.len() == 14);
    assert("entities"@.len() == 8 && "claims"@.len() == 6 && "conditions"@.len() == 10);
    assert("events"@.len() == 6 && "evidence"@.len() == 8 && "canonical_entities"@.len() == 18);
    assert("entities"@[1] == 'n' && "evidence"@[1] == 'v');
    let a = assignments(u, attrs, annos, now);
    assert(status_set(u.target_type, annos) is None);
    assert(a.0.last() == "obsolete = 1"@);
    assert(a.0[a.0.len() - 1] == "obsolete = 1"@);
    if !with_annotations(u.target_type) {
        assert(a.0 =~= seq!["obsolete = 1"@]);
    }
}

} // verus!
