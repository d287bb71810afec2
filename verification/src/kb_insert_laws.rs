//! Laws of insertions: every column of a new row gets the value that the item gives
//! for it, and every item of an insertion its row.

use vstd::prelude::*;
use vstd::string::*;

use crate::json_model::{group_json, JsonView};
use crate::json_text::json_written;
use crate::kb::{nfkc_of, CellView, StatementView};
use crate::kb_write::{
    all_kinds, claim_fingerprint, completed, entries_of, insert_refusal, item_plan, items_of,
    kind_name, listed_items, local_refs, ref_id, ref_names, repeated_ref, resolved, ContextView,
    ItemKind, KindedItem, CLAIM_SQL, CONDITION_SQL, ENTITY_SQL, EVENT_SQL, EVIDENCE_SQL,
    RELATION_SQL,
};
use crate::text::decimal;

verus! {

broadcast use group_json;

// ---------------------------------------------------------------------------
// Columns
// ---------------------------------------------------------------------------

/// The table of a kind.
pub open spec fn table(kind: ItemKind) -> Seq<char> {
    match kind {
        ItemKind::Entity => "entities"@,
        ItemKind::Claim => "claims"@,
        ItemKind::Relation => "relations"@,
        ItemKind::Condition => "conditions"@,
        ItemKind::Event => "events"@,
        ItemKind::Evidence => "evidence"@,
    }
}

/// The columns that a new row of a kind sets.
pub open spec fn columns(kind: ItemKind) -> Seq<Seq<char>> {
    match kind {
        ItemKind::Entity => seq![
            "id"@,
            "document_id"@,
            "entity_type"@,
            "name"@,
            "name_norm"@,
            "attributes"@,
            "annotations"@,
            "analysis_run_id"@,
            "obsolete"@,
        ],
        ItemKind::Claim => seq![
            "id"@,
            "document_id"@,
            "subject_id"@,
            "subject_value"@,
            "predicate"@,
            "object_id"@,
            "object_value"@,
            "modality"@,
            "polarity"@,
            "fingerprint"@,
            "confidence"@,
            "attributes"@,
            "annotations"@,
            "analysis_run_id"@,
            "obsolete"@,
        ],
        ItemKind::Relation => seq![
            "id"@,
            "document_id"@,
            "source_type"@,
            "source_id"@,
            "relation_type"@,
            "target_type"@,
            "target_id"@,
            "confidence"@,
            "attributes"@,
            "annotations"@,
            "analysis_run_id"@,
            "obsolete"@,
        ],
        ItemKind::Condition => seq![
            "id"@,
            "document_id"@,
            "target_type"@,
            "target_id"@,
            "condition_type"@,
            "expression"@,
            "annotations"@,
            "analysis_run_id"@,
            "obsolete"@,
        ],
        ItemKind::Event => seq![
            "id"@,
            "document_id"@,
            "event_type"@,
            "subject_id"@,
            "start_time"@,
            "end_time"@,
            "sort_key"@,
            "precision"@,
            "attributes"@,
            "annotations"@,
            "analysis_run_id"@,
            "obsolete"@,
        ],
        ItemKind::Evidence => seq![
            "id"@,
            "document_id"@,
            "source_unit_id"@,
            "target_type"@,
            "target_id"@,
            "start_offset"@,
            "end_offset"@,
            "matched_text"@,
            "evidence_type"@,
            "analysis_run_id"@,
            "obsolete"@,
        ],
    }
}

/// What each of these columns is set to: a bound value, by its number, or a constant.
pub open spec fn settings(kind: ItemKind) -> Seq<Seq<char>> {
    match kind {
        ItemKind::Entity => seq![
            "?1"@,
            "?2"@,
            "?3"@,
            "?4"@,
            "?5"@,
            "?6"@,
            "'{}'"@,
            "?7"@,
            "0"@,
        ],
        ItemKind::Claim => seq![
            "?1"@,
            "?2"@,
            "?3"@,
            "?4"@,
            "?5"@,
            "?6"@,
            "?7"@,
            "?8"@,
            "?9"@,
            "?10"@,
            "?11"@,
            "?12"@,
            "'{}'"@,
            "?13"@,
            "0"@,
        ],
        ItemKind::Relation => seq![
            "?1"@,
            "?2"@,
            "?3"@,
            "?4"@,
            "?5"@,
            "?6"@,
            "?7"@,
            "?8"@,
            "?9"@,
            "'{}'"@,
            "?10"@,
            "0"@,
        ],
        ItemKind::Condition => seq![
            "?1"@,
            "?2"@,
            "?3"@,
            "?4"@,
            "?5"@,
            "?6"@,
            "'{}'"@,
            "?7"@,
            "0"@,
        ],
        ItemKind::Event => seq![
            "?1"@,
            "?2"@,
            "?3"@,
            "?4"@,
            "?5"@,
            "?6"@,
            "?7"@,
            "?8"@,
            "?9"@,
            "'{}'"@,
            "?10"@,
            "0"@,
        ],
        ItemKind::Evidence => seq![
            "?1"@,
            "?2"@,
            "?3"@,
            "?4"@,
            "?5"@,
            "?6"@,
            "?7"@,
            "?8"@,
            "?9"@,
            "?10"@,
            "0"@,
        ],
    }
}

/// The first `n` texts with a comma between each two.
pub open spec fn listing(texts: Seq<Seq<char>>, n: int) -> Seq<char>
    decreases n,
{
    if n <= 0 {
        Seq::empty()
    } else if n == 1 {
        texts[0]
    } else {
        listing(texts, n - 1) + ", "@ + texts[n - 1]
    }
}

/// The statement that sets the columns of a new row.
pub open spec fn insertion(kind: ItemKind) -> Seq<char> {
    "INSERT INTO "@ + table(kind) + " ("@ + listing(columns(kind), columns(kind).len() as int)
        + ") VALUES ("@ + listing(settings(kind), settings(kind).len() as int) + ")"@
}

/// The mark of the bound value number `k`.
pub open spec fn mark(k: int) -> Seq<char> {
    "?"@ + decimal(k as nat)
}

/// Whether a statement is the insertion of a row of a kind and binds a value to one of its
/// columns.
pub open spec fn stores(
    kind: ItemKind,
    s: StatementView,
    column: Seq<char>,
    value: CellView,
) -> bool {
    &&& s.sql == insertion(kind)
    &&& exists|i: int, k: int|
        0 <= i < columns(kind).len() && 0 <= k < s.params.len() && #[trigger] columns(kind)[i]
            == column && settings(kind)[i] == mark(k + 1) && #[trigger] s.params[k] == value
}

proof fn lemma_entity_statement()
    ensures
        ENTITY_SQL@ == insertion(ItemKind::Entity),
{
    reveal_strlit(
        "INSERT INTO entities (id, document_id, entity_type, name, name_norm, attributes, annotations, analysis_run_id, obsolete) VALUES (?1, ?2, ?3, ?4, ?5, ?6, '{}', ?7, 0)",
    );
    reveal_strlit("INSERT INTO ");
    reveal_strlit("entities");
    reveal_strlit(" (");
    reveal_strlit(") VALUES (");
    reveal_strlit(")");
    reveal_strlit(", ");
    reveal_strlit("id");
    reveal_strlit("document_id");
    reveal_strlit("entity_type");
    reveal_strlit("name");
    reveal_strlit("name_norm");
    reveal_strlit("attributes");
    reveal_strlit("annotations");
    reveal_strlit("analysis_run_id");
    reveal_strlit("obsolete");
    reveal_strlit("?1");
    reveal_strlit("?2");
    reveal_strlit("?3");
    reveal_strlit("?4");
    reveal_strlit("?5");
    reveal_strlit("?6");
    reveal_strlit("'{}'");
    reveal_strlit("?7");
    reveal_strlit("0");
    reveal_with_fuel(listing, 10);
    let c = columns(ItemKind::Entity);
    let v = settings(ItemKind::Entity);
    assert(listing(c, 9) == "id"@ + ", "@ + "document_id"@ + ", "@ + "entity_type"@ + ", "@ + "name"@ + ", "@ + "name_norm"@ + ", "@ + "attributes"@ + ", "@ + "annotations"@ + ", "@ + "analysis_run_id"@ + ", "@ + "obsolete"@);
    assert(listing(v, 9) == "?1"@ + ", "@ + "?2"@ + ", "@ + "?3"@ + ", "@ + "?4"@ + ", "@ + "?5"@ + ", "@ + "?6"@ + ", "@ + "'{}'"@ + ", "@ + "?7"@ + ", "@ + "0"@);
    assert(ENTITY_SQL@ =~= insertion(ItemKind::Entity));
}

proof fn lemma_claim_statement()
    ensures
        CLAIM_SQL@ == insertion(ItemKind::Claim),
{
    reveal_strlit(
        "INSERT INTO claims (id, document_id, subject_id, subject_value, predicate, object_id, object_value, modality, polarity, fingerprint, confidence, attributes, annotations, analysis_run_id, obsolete) VALUES (?1, ?2, ?3, ?4, ?5, ?6, ?7, ?8, ?9, ?10, ?11, ?12, '{}', ?13, 0)",
    );
    reveal_strlit("INSERT INTO ");
    reveal_strlit("claims");
    reveal_strlit(" (");
    reveal_strlit(") VALUES (");
    reveal_strlit(")");
    reveal_strlit(", ");
    reveal_strlit("id");
    reveal_strlit("document_id");
    reveal_strlit("subject_id");
    reveal_strlit("subject_value");
    reveal_strlit("predicate");
    reveal_strlit("object_id");
    reveal_strlit("object_value");
    reveal_strlit("modality");
    reveal_strlit("polarity");
    reveal_strlit("fingerprint");
    reveal_strlit("confidence");
    reveal_strlit("attributes");
    reveal_strlit("annotations");
    reveal_strlit("analysis_run_id");
    reveal_strlit("obsolete");
    reveal_strlit("?1");
    reveal_strlit("?2");
    reveal_strlit("?3");
    reveal_strlit("?4");
    reveal_strlit("?5");
    reveal_strlit("?6");
    reveal_strlit("?7");
    reveal_strlit("?8");
    reveal_strlit("?9");
    reveal_strlit("?10");
    reveal_strlit("?11");
    reveal_strlit("?12");
    reveal_strlit("'{}'");
    reveal_strlit("?13");
    reveal_strlit("0");
    reveal_with_fuel(listing, 16);
    let c = columns(ItemKind::Claim);
    let v = settings(ItemKind::Claim);
    assert(listing(c, 15) == "id"@ + ", "@ + "document_id"@ + ", "@ + "subject_id"@ + ", "@ + "subject_value"@ + ", "@ + "predicate"@ + ", "@ + "object_id"@ + ", "@ + "object_value"@ + ", "@ + "modality"@ + ", "@ + "polarity"@ + ", "@ + "fingerprint"@ + ", "@ + "confidence"@ + ", "@ + "attributes"@ + ", "@ + "annotations"@ + ", "@ + "analysis_run_id"@ + ", "@ + "obsolete"@);
    assert(listing(v, 15) == "?1"@ + ", "@ + "?2"@ + ", "@ + "?3"@ + ", "@ + "?4"@ + ", "@ + "?5"@ + ", "@ + "?6"@ + ", "@ + "?7"@ + ", "@ + "?8"@ + ", "@ + "?9"@ + ", "@ + "?10"@ + ", "@ + "?11"@ + ", "@ + "?12"@ + ", "@ + "'{}'"@ + ", "@ + "?13"@ + ", "@ + "0"@);
    assert(CLAIM_SQL@ =~= insertion(ItemKind::Claim));
}

proof fn lemma_relation_statement()
    ensures
        RELATION_SQL@ == insertion(ItemKind::Relation),
{
    reveal_strlit(
        "INSERT INTO relations (id, document_id, source_type, source_id, relation_type, target_type, target_id, confidence, attributes, annotations, analysis_run_id, obsolete) VALUES (?1, ?2, ?3, ?4, ?5, ?6, ?7, ?8, ?9, '{}', ?10, 0)",
    );
    reveal_strlit("INSERT INTO ");
    reveal_strlit("relations");
    reveal_strlit(" (");
    reveal_strlit(") VALUES (");
    reveal_strlit(")");
    reveal_strlit(", ");
    reveal_strlit("id");
    reveal_strlit("document_id");
    reveal_strlit("source_type");
    reveal_strlit("source_id");
    reveal_strlit("relation_type");
    reveal_strlit("target_type");
    reveal_strlit("target_id");
    reveal_strlit("confidence");
    reveal_strlit("attributes");
    reveal_strlit("annotations");
    reveal_strlit("analysis_run_id");
    reveal_strlit("obsolete");
    reveal_strlit("?1");
    reveal_strlit("?2");
    reveal_strlit("?3");
    reveal_strlit("?4");
    reveal_strlit("?5");
    reveal_strlit("?6");
    reveal_strlit("?7");
    reveal_strlit("?8");
    reveal_strlit("?9");
    reveal_strlit("'{}'");
    reveal_strlit("?10");
    reveal_strlit("0");
    reveal_with_fuel(listing, 13);
    let c = columns(ItemKind::Relation);
    let v = settings(ItemKind::Relation);
    assert(listing(c, 12) == "id"@ + ", "@ + "document_id"@ + ", "@ + "source_type"@ + ", "@ + "source_id"@ + ", "@ + "relation_type"@ + ", "@ + "target_type"@ + ", "@ + "target_id"@ + ", "@ + "confidence"@ + ", "@ + "attributes"@ + ", "@ + "annotations"@ + ", "@ + "analysis_run_id"@ + ", "@ + "obsolete"@);
    assert(listing(v, 12) == "?1"@ + ", "@ + "?2"@ + ", "@ + "?3"@ + ", "@ + "?4"@ + ", "@ + "?5"@ + ", "@ + "?6"@ + ", "@ + "?7"@ + ", "@ + "?8"@ + ", "@ + "?9"@ + ", "@ + "'{}'"@ + ", "@ + "?10"@ + ", "@ + "0"@);
    assert(RELATION_SQL@ =~= insertion(ItemKind::Relation));
}

proof fn lemma_condition_statement()
    ensures
        CONDITION_SQL@ == insertion(ItemKind::Condition),
{
    reveal_strlit(
        "INSERT INTO conditions (id, document_id, target_type, target_id, condition_type, expression, annotations, analysis_run_id, obsolete) VALUES (?1, ?2, ?3, ?4, ?5, ?6, '{}', ?7, 0)",
    );
    reveal_strlit("INSERT INTO ");
    reveal_strlit("conditions");
    reveal_strlit(" (");
    reveal_strlit(") VALUES (");
    reveal_strlit(")");
    reveal_strlit(", ");
    reveal_strlit("id");
    reveal_strlit("document_id");
    reveal_strlit("target_type");
    reveal_strlit("target_id");
    reveal_strlit("condition_type");
    reveal_strlit("expression");
    reveal_strlit("annotations");
    reveal_strlit("analysis_run_id");
    reveal_strlit("obsolete");
    reveal_strlit("?1");
    reveal_strlit("?2");
    reveal_strlit("?3");
    reveal_strlit("?4");
    reveal_strlit("?5");
    reveal_strlit("?6");
    reveal_strlit("'{}'");
    reveal_strlit("?7");
    reveal_strlit("0");
    reveal_with_fuel(listing, 10);
    let c = columns(ItemKind::Condition);
    let v = settings(ItemKind::Condition);
    assert(listing(c, 9) == "id"@ + ", "@ + "document_id"@ + ", "@ + "target_type"@ + ", "@ + "target_id"@ + ", "@ + "condition_type"@ + ", "@ + "expression"@ + ", "@ + "annotations"@ + ", "@ + "analysis_run_id"@ + ", "@ + "obsolete"@);
    assert(listing(v, 9) == "?1"@ + ", "@ + "?2"@ + ", "@ + "?3"@ + ", "@ + "?4"@ + ", "@ + "?5"@ + ", "@ + "?6"@ + ", "@ + "'{}'"@ + ", "@ + "?7"@ + ", "@ + "0"@);
    assert(CONDITION_SQL@ =~= insertion(ItemKind::Condition));
}

proof fn lemma_event_statement()
    ensures
        EVENT_SQL@ == insertion(ItemKind::Event),
{
    reveal_strlit(
        "INSERT INTO events (id, document_id, event_type, subject_id, start_time, end_time, sort_key, precision, attributes, annotations, analysis_run_id, obsolete) VALUES (?1, ?2, ?3, ?4, ?5, ?6, ?7, ?8, ?9, '{}', ?10, 0)",
    );
    reveal_strlit("INSERT INTO ");
    reveal_strlit("events");
    reveal_strlit(" (");
    reveal_strlit(") VALUES (");
    reveal_strlit(")");
    reveal_strlit(", ");
    reveal_strlit("id");
    reveal_strlit("document_id");
    reveal_strlit("event_type");
    reveal_strlit("subject_id");
    reveal_strlit("start_time");
    reveal_strlit("end_time");
    reveal_strlit("sort_key");
    reveal_strlit("precision");
    reveal_strlit("attributes");
    reveal_strlit("annotations");
    reveal_strlit("analysis_run_id");
    reveal_strlit("obsolete");
    reveal_strlit("?1");
    reveal_strlit("?2");
    reveal_strlit("?3");
    reveal_strlit("?4");
    reveal_strlit("?5");
    reveal_strlit("?6");
    reveal_strlit("?7");
    reveal_strlit("?8");
    reveal_strlit("?9");
    reveal_strlit("'{}'");
    reveal_strlit("?10");
    reveal_strlit("0");
    reveal_with_fuel(listing, 13);
    let c = columns(ItemKind::Event);
    let v = settings(ItemKind::Event);
    assert(listing(c, 12) == "id"@ + ", "@ + "document_id"@ + ", "@ + "event_type"@ + ", "@ + "subject_id"@ + ", "@ + "start_time"@ + ", "@ + "end_time"@ + ", "@ + "sort_key"@ + ", "@ + "precision"@ + ", "@ + "attributes"@ + ", "@ + "annotations"@ + ", "@ + "analysis_run_id"@ + ", "@ + "obsolete"@);
    assert(listing(v, 12) == "?1"@ + ", "@ + "?2"@ + ", "@ + "?3"@ + ", "@ + "?4"@ + ", "@ + "?5"@ + ", "@ + "?6"@ + ", "@ + "?7"@ + ", "@ + "?8"@ + ", "@ + "?9"@ + ", "@ + "'{}'"@ + ", "@ + "?10"@ + ", "@ + "0"@);
    assert(EVENT_SQL@ =~= insertion(ItemKind::Event));
}

proof fn lemma_evidence_statement()
    ensures
        EVIDENCE_SQL@ == insertion(ItemKind::Evidence),
{
    reveal_strlit(
        "INSERT INTO evidence (id, document_id, source_unit_id, target_type, target_id, start_offset, end_offset, matched_text, evidence_type, analysis_run_id, obsolete) VALUES (?1, ?2, ?3, ?4, ?5, ?6, ?7, ?8, ?9, ?10, 0)",
    );
    reveal_strlit("INSERT INTO ");
    reveal_strlit("evidence");
    reveal_strlit(" (");
    reveal_strlit(") VALUES (");
    reveal_strlit(")");
    reveal_strlit(", ");
    reveal_strlit("id");
    reveal_strlit("document_id");
    reveal_strlit("source_unit_id");
    reveal_strlit("target_type");
    reveal_strlit("target_id");
    reveal_strlit("start_offset");
    reveal_strlit("end_offset");
    reveal_strlit("matched_text");
    reveal_strlit("evidence_type");
    reveal_strlit("analysis_run_id");
    reveal_strlit("obsolete");
    reveal_strlit("?1");
    reveal_strlit("?2");
    reveal_strlit("?3");
    reveal_strlit("?4");
    reveal_strlit("?5");
    reveal_strlit("?6");
    reveal_strlit("?7");
    reveal_strlit("?8");
    reveal_strlit("?9");
    reveal_strlit("?10");
    reveal_strlit("0");
    reveal_with_fuel(listing, 12);
    let c = columns(ItemKind::Evidence);
    let v = settings(ItemKind::Evidence);
    assert(listing(c, 11) == "id"@ + ", "@ + "document_id"@ + ", "@ + "source_unit_id"@ + ", "@ + "target_type"@ + ", "@ + "target_id"@ + ", "@ + "start_offset"@ + ", "@ + "end_offset"@ + ", "@ + "matched_text"@ + ", "@ + "evidence_type"@ + ", "@ + "analysis_run_id"@ + ", "@ + "obsolete"@);
    assert(listing(v, 11) == "?1"@ + ", "@ + "?2"@ + ", "@ + "?3"@ + ", "@ + "?4"@ + ", "@ + "?5"@ + ", "@ + "?6"@ + ", "@ + "?7"@ + ", "@ + "?8"@ + ", "@ + "?9"@ + ", "@ + "?10"@ + ", "@ + "0"@);
    assert(EVIDENCE_SQL@ =~= insertion(ItemKind::Evidence));
}

pub proof fn lemma_marks()
    ensures
        mark(1) == "?1"@,
        mark(2) == "?2"@,
        mark(3) == "?3"@,
        mark(4) == "?4"@,
        mark(5) == "?5"@,
        mark(6) == "?6"@,
        mark(7) == "?7"@,
        mark(8) == "?8"@,
        mark(9) == "?9"@,
        mark(10) == "?10"@,
        mark(11) == "?11"@,
        mark(12) == "?12"@,
        mark(13) == "?13"@,
{
    reveal_strlit("?");
    reveal_with_fuel(decimal, 3);
    reveal_strlit("?1");
    assert(mark(1) =~= "?1"@);
    reveal_strlit("?2");
    assert(mark(2) =~= "?2"@);
    reveal_strlit("?3");
    assert(mark(3) =~= "?3"@);
    reveal_strlit("?4");
    assert(mark(4) =~= "?4"@);
    reveal_strlit("?5");
    assert(mark(5) =~= "?5"@);
    reveal_strlit("?6");
    assert(mark(6) =~= "?6"@);
    reveal_strlit("?7");
    assert(mark(7) =~= "?7"@);
    reveal_strlit("?8");
    assert(mark(8) =~= "?8"@);
    reveal_strlit("?9");
    assert(mark(9) =~= "?9"@);
    reveal_strlit("?10");
    assert(mark(10) =~= "?10"@);
    reveal_strlit("?11");
    assert(mark(11) =~= "?11"@);
    reveal_strlit("?12");
    assert(mark(12) =~= "?12"@);
    reveal_strlit("?13");
    assert(mark(13) =~= "?13"@);
}

proof fn lemma_stored(kind: ItemKind, s: StatementView, i: int, k: int)
    requires
        s.sql == insertion(kind),
        0 <= i < columns(kind).len(),
        0 <= k < s.params.len(),
        settings(kind)[i] == mark(k + 1),
    ensures
        stores(kind, s, columns(kind)[i], s.params[k]),
{
}

/// Whether an item names one thing, `x`, by identifier or by local reference.
pub open spec fn refers_to(
    item: JsonView,
    id_field: Seq<char>,
    ref_field: Seq<char>,
    refs: Seq<(Seq<char>, Seq<char>)>,
    x: Seq<char>,
) -> bool {
    ||| item.str_at(id_field) == Some(x) && item.str_at(ref_field) is None
    ||| item.str_at(id_field) is None && item.str_at(ref_field) is Some && stands_for(
        refs,
        item.str_at(ref_field)->0,
        x,
    )
}

/// Whether the first local reference of a name stands for `x`.
pub open spec fn stands_for(
    refs: Seq<(Seq<char>, Seq<char>)>,
    name: Seq<char>,
    x: Seq<char>,
) -> bool {
    exists|i: int|
        0 <= i < refs.len() && #[trigger] refs[i] == (name, x) && forall|j: int|
            0 <= j < i ==> (#[trigger] refs[j]).0 != name
}

/// Whether an item names nothing in a place.
pub open spec fn refers_to_nothing(item: JsonView, id_field: Seq<char>, ref_field: Seq<char>) -> bool {
    item.str_at(id_field) is None && item.str_at(ref_field) is None
}

proof fn lemma_ref(refs: Seq<(Seq<char>, Seq<char>)>, name: Seq<char>, i: int, at: int)
    requires
        0 <= i <= at <= refs.len(),
        forall|j: int| i <= j < at ==> (#[trigger] refs[j]).0 != name,
        at < refs.len() ==> refs[at].0 == name,
    ensures
        ref_id(refs, name, i) == if at < refs.len() {
            Some(refs[at].1)
        } else {
            None
        },
    decreases at - i,
{
    if i < at {
        assert(refs[i].0 != name);
        lemma_ref(refs, name, i + 1, at);
    }
}

/// References are resolved: to the identifier that is given, or to that of the item which
/// defines the local reference. A reference that no item defines, or one given in both
/// ways, is an error.
pub proof fn references_are_resolved(
    item: JsonView,
    id_field: Seq<char>,
    ref_field: Seq<char>,
    refs: Seq<(Seq<char>, Seq<char>)>,
    x: Seq<char>,
)
    ensures
        refers_to(item, id_field, ref_field, refs, x) ==> resolved(item, id_field, ref_field, refs)
            == Ok::<Option<Seq<char>>, Seq<char>>(Some(x)),
        refers_to_nothing(item, id_field, ref_field) ==> resolved(item, id_field, ref_field, refs)
            == Ok::<Option<Seq<char>>, Seq<char>>(None),
        item.str_at(id_field) is Some && item.str_at(ref_field) is Some ==> resolved(
            item,
            id_field,
            ref_field,
            refs,
        ) is Err,
        item.str_at(id_field) is None && item.str_at(ref_field) is Some && (forall|i: int|
            0 <= i < refs.len() ==> (#[trigger] refs[i]).0 != item.str_at(ref_field)->0)
            ==> resolved(item, id_field, ref_field, refs) is Err,
{
    if item.str_at(id_field) is None && item.str_at(ref_field) is Some {
        let name = item.str_at(ref_field)->0;
        if stands_for(refs, name, x) {
            let i = choose|i: int|
                0 <= i < refs.len() && #[trigger] refs[i] == (name, x) && forall|j: int|
                    0 <= j < i ==> (#[trigger] refs[j]).0 != name;
            lemma_ref(refs, name, 0, i);
        }
        if forall|i: int| 0 <= i < refs.len() ==> (#[trigger] refs[i]).0 != name {
            lemma_ref(refs, name, 0, refs.len() as int);
        }
    }
}

/// A text, or nothing.
pub open spec fn text_or_null(o: Option<Seq<char>>) -> CellView {
    match o {
        Some(s) => CellView::Text(s),
        None => CellView::Null,
    }
}

/// The written form of a member, or `otherwise`.
pub open spec fn written_or(item: JsonView, key: Seq<char>, otherwise: Seq<char>) -> Seq<char> {
    match item.get(key) {
        Some(v) => json_written(v),
        None => otherwise,
    }
}

/// The number in a member, or nothing.
pub open spec fn number_or_null(item: JsonView, key: Seq<char>) -> CellView {
    match item.get(key) {
        Some(v) => if v is Int || v is Real {
            CellView::Number(v)
        } else {
            CellView::Null
        },
        None => CellView::Null,
    }
}

/// Whether a step is one statement that stores what every row has: its identifier, its
/// document and the run that made it.
pub open spec fn stores_origin(
    kind: ItemKind,
    s: StatementView,
    id: Seq<char>,
    document: CellView,
    run_id: Seq<char>,
) -> bool {
    &&& stores(kind, s, "id"@, CellView::Text(id))
    &&& stores(kind, s, "document_id"@, document)
    &&& stores(kind, s, "analysis_run_id"@, CellView::Text(run_id))
}

/// An entity is stored with its type, its name as it is and normalised, and its
/// attributes; it needs nothing but a name.
pub proof fn entities_are_stored(id: Seq<char>, item: JsonView, cx: ContextView)
    ensures
        ({
            let plan = item_plan(ItemKind::Entity, id, item, cx);
            &&& plan is Ok <==> item.str_at("name"@) is Some
            &&& plan is Ok ==> plan->Ok_0 is Direct && {
                let s = plan->Ok_0->Direct_0;
                let k = ItemKind::Entity;
                let name = item.str_at("name"@)->0;
                &&& stores_origin(k, s, id, CellView::Text(cx.doc_id), cx.run_id)
                &&& stores(k, s, "entity_type"@, text_or_null(item.str_at("entity_type"@)))
                &&& stores(k, s, "name"@, CellView::Text(name))
                &&& stores(k, s, "name_norm"@, CellView::Text(nfkc_of(name)))
                &&& stores(
                    k,
                    s,
                    "attributes"@,
                    CellView::Text(written_or(item, "attributes"@, "{}"@)),
                )
            }
        }),
{
    if item.str_at("name"@) is Some {
        let s = item_plan(ItemKind::Entity, id, item, cx)->Ok_0->Direct_0;
        lemma_entity_statement();
        lemma_marks();
        lemma_stored(ItemKind::Entity, s, 0, 0);
        lemma_stored(ItemKind::Entity, s, 1, 1);
        lemma_stored(ItemKind::Entity, s, 2, 2);
        lemma_stored(ItemKind::Entity, s, 3, 3);
        lemma_stored(ItemKind::Entity, s, 4, 4);
        lemma_stored(ItemKind::Entity, s, 5, 5);
        lemma_stored(ItemKind::Entity, s, 7, 6);
    }
}

/// A claim is stored with its subject and its object, each by identifier or by value, its
/// predicate, modality, polarity and confidence; it needs a predicate and a subject.
pub proof fn claims_are_stored(
    id: Seq<char>,
    item: JsonView,
    cx: ContextView,
    subject: Option<Seq<char>>,
    object: Option<Seq<char>>,
)
    requires
        item.str_at("predicate"@) is Some,
        subject is Some ==> refers_to(item, "subject_id"@, "subject_ref"@, cx.refs, subject->0),
        subject is None ==> refers_to_nothing(item, "subject_id"@, "subject_ref"@) && item.get(
            "subject_value"@,
        ) is Some,
        object is Some ==> refers_to(item, "object_id"@, "object_ref"@, cx.refs, object->0),
        object is None ==> refers_to_nothing(item, "object_id"@, "object_ref"@),
    ensures
        ({
            let plan = item_plan(ItemKind::Claim, id, item, cx);
            let k = ItemKind::Claim;
            let s = plan->Ok_0->Direct_0;
            let subject_value = if subject is None {
                Some(json_written(item.get("subject_value"@)->0))
            } else {
                None
            };
            let object_value = if object is None && item.get("object_value"@) is Some {
                Some(json_written(item.get("object_value"@)->0))
            } else {
                None
            };
            let modality = match item.str_at("modality"@) {
                Some(m) => m,
                None => "assertion"@,
            };
            &&& plan is Ok
            &&& plan->Ok_0 is Direct
            &&& stores_origin(k, s, id, CellView::Text(cx.doc_id), cx.run_id)
            &&& stores(k, s, "subject_id"@, text_or_null(subject))
            &&& stores(k, s, "subject_value"@, text_or_null(subject_value))
            &&& stores(k, s, "predicate"@, CellView::Text(item.str_at("predicate"@)->0))
            &&& stores(k, s, "object_id"@, text_or_null(object))
            &&& stores(k, s, "object_value"@, text_or_null(object_value))
            &&& stores(k, s, "modality"@, CellView::Text(modality))
            &&& stores(
                k,
                s,
                "polarity"@,
                CellView::Text(
                    match item.str_at("polarity"@) {
                        Some(p) => p,
                        None => "positive"@,
                    },
                ),
            )
            &&& stores(
                k,
                s,
                "fingerprint"@,
                CellView::Text(
                    claim_fingerprint(
                        match subject {
                            Some(x) => x,
                            None => ""@,
                        },
                        match subject_value {
                            Some(x) => x,
                            None => ""@,
                        },
                        item.str_at("predicate"@)->0,
                        match object {
                            Some(x) => x,
                            None => ""@,
                        },
                        match object_value {
                            Some(x) => x,
                            None => ""@,
                        },
                        modality,
                    ),
                ),
            )
            &&& stores(k, s, "confidence"@, number_or_null(item, "confidence"@))
            &&& stores(
                k,
                s,
                "attributes"@,
                CellView::Text(written_or(item, "attributes"@, "{}"@)),
            )
        }),
{
    let a = match subject {
        Some(x) => x,
        None => ""@,
    };
    let b = match object {
        Some(x) => x,
        None => ""@,
    };
    references_are_resolved(item, "subject_id"@, "subject_ref"@, cx.refs, a);
    references_are_resolved(item, "object_id"@, "object_ref"@, cx.refs, b);
    let s = item_plan(ItemKind::Claim, id, item, cx)->Ok_0->Direct_0;
    lemma_claim_statement();
    lemma_marks();
    lemma_stored(ItemKind::Claim, s, 0, 0);
    lemma_stored(ItemKind::Claim, s, 1, 1);
    lemma_stored(ItemKind::Claim, s, 2, 2);
    lemma_stored(ItemKind::Claim, s, 3, 3);
    lemma_stored(ItemKind::Claim, s, 4, 4);
    lemma_stored(ItemKind::Claim, s, 5, 5);
    lemma_stored(ItemKind::Claim, s, 6, 6);
    lemma_stored(ItemKind::Claim, s, 7, 7);
    lemma_stored(ItemKind::Claim, s, 8, 8);
    lemma_stored(ItemKind::Claim, s, 9, 9);
    lemma_stored(ItemKind::Claim, s, 10, 10);
    lemma_stored(ItemKind::Claim, s, 11, 11);
    lemma_stored(ItemKind::Claim, s, 13, 12);
}

/// A claim without a predicate, or without any subject, is refused.
pub proof fn claims_need_a_predicate_and_a_subject(id: Seq<char>, item: JsonView, cx: ContextView)
    requires
        item.str_at("predicate"@) is None || (refers_to_nothing(item, "subject_id"@, "subject_ref"@)
            && item.get("subject_value"@) is None),
    ensures
        item_plan(ItemKind::Claim, id, item, cx) is Err,
{
}

/// A relation is stored from its source to its target, each with its type and
/// identifier, with its own type and confidence; one across documents belongs to none.
pub proof fn relations_are_stored(
    id: Seq<char>,
    item: JsonView,
    cx: ContextView,
    source: Seq<char>,
    target: Seq<char>,
)
    requires
        item.str_at("relation_type"@) is Some,
        item.str_at("source_type"@) is Some,
        item.str_at("target_type"@) is Some,
        refers_to(item, "source_id"@, "source_ref"@, cx.refs, source),
        refers_to(item, "target_id"@, "target_ref"@, cx.refs, target),
    ensures
        ({
            let plan = item_plan(ItemKind::Relation, id, item, cx);
            let k = ItemKind::Relation;
            let s = plan->Ok_0->Direct_0;
            &&& plan is Ok
            &&& plan->Ok_0 is Direct
            &&& stores_origin(
                k,
                s,
                id,
                if cx.doc_id == "null"@ {
                    CellView::Null
                } else {
                    CellView::Text(cx.doc_id)
                },
                cx.run_id,
            )
            &&& stores(k, s, "source_type"@, CellView::Text(item.str_at("source_type"@)->0))
            &&& stores(k, s, "source_id"@, CellView::Text(source))
            &&& stores(k, s, "relation_type"@, CellView::Text(item.str_at("relation_type"@)->0))
            &&& stores(k, s, "target_type"@, CellView::Text(item.str_at("target_type"@)->0))
            &&& stores(k, s, "target_id"@, CellView::Text(target))
            &&& stores(k, s, "confidence"@, number_or_null(item, "confidence"@))
            &&& stores(
                k,
                s,
                "attributes"@,
                CellView::Text(written_or(item, "attributes"@, "{}"@)),
            )
        }),
{
    references_are_resolved(item, "source_id"@, "source_ref"@, cx.refs, source);
    references_are_resolved(item, "target_id"@, "target_ref"@, cx.refs, target);
    let s = item_plan(ItemKind::Relation, id, item, cx)->Ok_0->Direct_0;
    lemma_relation_statement();
    lemma_marks();
    lemma_stored(ItemKind::Relation, s, 0, 0);
    lemma_stored(ItemKind::Relation, s, 1, 1);
    lemma_stored(ItemKind::Relation, s, 2, 2);
    lemma_stored(ItemKind::Relation, s, 3, 3);
    lemma_stored(ItemKind::Relation, s, 4, 4);
    lemma_stored(ItemKind::Relation, s, 5, 5);
    lemma_stored(ItemKind::Relation, s, 6, 6);
    lemma_stored(ItemKind::Relation, s, 7, 7);
    lemma_stored(ItemKind::Relation, s, 8, 8);
    lemma_stored(ItemKind::Relation, s, 10, 9);
}

/// Two relations that differ in their source alone are stored alike but for the source.
pub proof fn sources_change_the_source_alone(
    id: Seq<char>,
    one: JsonView,
    other: JsonView,
    cx: ContextView,
    k: int,
)
    requires
        item_plan(ItemKind::Relation, id, one, cx) is Ok,
        item_plan(ItemKind::Relation, id, other, cx) is Ok,
        one.get("relation_type"@) == other.get("relation_type"@),
        one.get("source_type"@) == other.get("source_type"@),
        one.get("target_type"@) == other.get("target_type"@),
        one.get("target_id"@) == other.get("target_id"@),
        one.get("target_ref"@) == other.get("target_ref"@),
        one.get("confidence"@) == other.get("confidence"@),
        one.get("attributes"@) == other.get("attributes"@),
    ensures
        ({
            let a = item_plan(ItemKind::Relation, id, one, cx)->Ok_0->Direct_0;
            let b = item_plan(ItemKind::Relation, id, other, cx)->Ok_0->Direct_0;
            &&& a.sql == b.sql
            &&& a.params.len() == b.params.len()
            &&& 0 <= k < a.params.len() && k != 3 ==> a.params[k] == b.params[k]
            &&& one.str_at("source_id"@) is Some && other.str_at("source_id"@) is Some && one.get(
                "source_id"@,
            ) != other.get("source_id"@) ==> a.params[3] != b.params[3]
        }),
{
}

/// A relation without a type, or whose ends are not both named, is refused.
pub proof fn relations_need_both_ends(id: Seq<char>, item: JsonView, cx: ContextView)
    requires
        item.str_at("relation_type"@) is None || item.str_at("source_type"@) is None || item.str_at(
            "target_type"@,
        ) is None || refers_to_nothing(item, "source_id"@, "source_ref"@) || refers_to_nothing(
            item,
            "target_id"@,
            "target_ref"@,
        ),
    ensures
        item_plan(ItemKind::Relation, id, item, cx) is Err,
{
}

/// A condition is stored with its target, its type and its expression, in the document
/// of its target.
pub proof fn conditions_are_stored(
    id: Seq<char>,
    item: JsonView,
    cx: ContextView,
    target: Seq<char>,
    found: Option<Seq<char>>,
)
    requires
        item.str_at("target_type"@) == Some("claim"@) || item.str_at("target_type"@) == Some(
            "event"@,
        ),
        refers_to(item, "target_id"@, "target_ref"@, cx.refs, target),
        item.str_at("condition_type"@) is Some,
        item.get("expression"@) is Some,
    ensures
        ({
            let plan = item_plan(ItemKind::Condition, id, item, cx);
            let k = ItemKind::Condition;
            let s = completed(plan->Ok_0, found);
            &&& plan is Ok
            &&& plan->Ok_0 is WithDocument
            &&& plan->Ok_0->target_id == target
            &&& stores_origin(
                k,
                s,
                id,
                if found is Some && found->0.len() > 0 {
                    CellView::Text(found->0)
                } else {
                    CellView::Null
                },
                cx.run_id,
            )
            &&& stores(k, s, "target_type"@, CellView::Text(item.str_at("target_type"@)->0))
            &&& stores(k, s, "target_id"@, CellView::Text(target))
            &&& stores(k, s, "condition_type"@, CellView::Text(item.str_at("condition_type"@)->0))
            &&& stores(k, s, "expression"@, CellView::Text(json_written(item.get("expression"@)->0)))
        }),
{
    references_are_resolved(item, "target_id"@, "target_ref"@, cx.refs, target);
    let s = completed(item_plan(ItemKind::Condition, id, item, cx)->Ok_0, found);
    lemma_condition_statement();
    lemma_marks();
    lemma_stored(ItemKind::Condition, s, 0, 0);
    lemma_stored(ItemKind::Condition, s, 1, 1);
    lemma_stored(ItemKind::Condition, s, 2, 2);
    lemma_stored(ItemKind::Condition, s, 3, 3);
    lemma_stored(ItemKind::Condition, s, 4, 4);
    lemma_stored(ItemKind::Condition, s, 5, 5);
    lemma_stored(ItemKind::Condition, s, 7, 6);
}

/// A condition on anything but a claim or an event is refused, and so is one without a
/// target, a type or an expression.
pub proof fn conditions_need_a_claim_or_an_event(id: Seq<char>, item: JsonView, cx: ContextView)
    requires
        !(item.str_at("target_type"@) == Some("claim"@) || item.str_at("target_type"@) == Some(
            "event"@,
        )) || refers_to_nothing(item, "target_id"@, "target_ref"@) || item.str_at("condition_type"@)
            is None || item.get("expression"@) is None,
    ensures
        item_plan(ItemKind::Condition, id, item, cx) is Err,
{
}

/// An event is stored with its type, its subject, its times and their precision.
pub proof fn events_are_stored(
    id: Seq<char>,
    item: JsonView,
    cx: ContextView,
    subject: Option<Seq<char>>,
)
    requires
        subject is Some ==> refers_to(item, "subject_id"@, "subject_ref"@, cx.refs, subject->0),
        subject is None ==> refers_to_nothing(item, "subject_id"@, "subject_ref"@),
    ensures
        ({
            let plan = item_plan(ItemKind::Event, id, item, cx);
            let k = ItemKind::Event;
            let s = plan->Ok_0->Direct_0;
            &&& plan is Ok
            &&& plan->Ok_0 is Direct
            &&& stores_origin(k, s, id, CellView::Text(cx.doc_id), cx.run_id)
            &&& stores(k, s, "event_type"@, text_or_null(item.str_at("event_type"@)))
            &&& stores(k, s, "subject_id"@, text_or_null(subject))
            &&& stores(k, s, "start_time"@, text_or_null(item.str_at("start_time"@)))
            &&& stores(k, s, "end_time"@, text_or_null(item.str_at("end_time"@)))
            &&& stores(k, s, "sort_key"@, text_or_null(item.str_at("sort_key"@)))
            &&& stores(
                k,
                s,
                "precision"@,
                CellView::Text(
                    match item.str_at("precision"@) {
                        Some(p) => p,
                        None => "day"@,
                    },
                ),
            )
            &&& stores(
                k,
                s,
                "attributes"@,
                CellView::Text(written_or(item, "attributes"@, "{}"@)),
            )
        }),
{
    let a = match subject {
        Some(x) => x,
        None => ""@,
    };
    references_are_resolved(item, "subject_id"@, "subject_ref"@, cx.refs, a);
    let s = item_plan(ItemKind::Event, id, item, cx)->Ok_0->Direct_0;
    lemma_event_statement();
    lemma_marks();
    lemma_stored(ItemKind::Event, s, 0, 0);
    lemma_stored(ItemKind::Event, s, 1, 1);
    lemma_stored(ItemKind::Event, s, 2, 2);
    lemma_stored(ItemKind::Event, s, 3, 3);
    lemma_stored(ItemKind::Event, s, 4, 4);
    lemma_stored(ItemKind::Event, s, 5, 5);
    lemma_stored(ItemKind::Event, s, 6, 6);
    lemma_stored(ItemKind::Event, s, 7, 7);
    lemma_stored(ItemKind::Event, s, 8, 8);
    lemma_stored(ItemKind::Event, s, 10, 9);
}

/// An evidence is stored with its target, its unit, and where and what it matched.
pub proof fn evidence_is_stored(
    id: Seq<char>,
    item: JsonView,
    cx: ContextView,
    target: Seq<char>,
    unit: Option<Seq<char>>,
)
    requires
        item.str_at("target_type"@) is Some,
        refers_to(item, "target_id"@, "target_ref"@, cx.refs, target),
        unit is Some ==> refers_to(item, "source_unit_id"@, "source_unit_ref"@, cx.refs, unit->0),
        unit is None ==> refers_to_nothing(item, "source_unit_id"@, "source_unit_ref"@),
    ensures
        ({
            let plan = item_plan(ItemKind::Evidence, id, item, cx);
            let k = ItemKind::Evidence;
            let s = plan->Ok_0->Direct_0;
            &&& plan is Ok
            &&& plan->Ok_0 is Direct
            &&& stores_origin(k, s, id, CellView::Text(cx.doc_id), cx.run_id)
            &&& stores(k, s, "source_unit_id"@, text_or_null(unit))
            &&& stores(k, s, "target_type"@, CellView::Text(item.str_at("target_type"@)->0))
            &&& stores(k, s, "target_id"@, CellView::Text(target))
            &&& stores(
                k,
                s,
                "start_offset"@,
                match item.i64_at("start_offset"@) {
                    Some(n) => CellView::Whole(n),
                    None => CellView::Null,
                },
            )
            &&& stores(
                k,
                s,
                "end_offset"@,
                match item.i64_at("end_offset"@) {
                    Some(n) => CellView::Whole(n),
                    None => CellView::Null,
                },
            )
            &&& stores(k, s, "matched_text"@, text_or_null(item.str_at("matched_text"@)))
            &&& stores(k, s, "evidence_type"@, text_or_null(item.str_at("evidence_type"@)))
        }),
{
    let a = match unit {
        Some(x) => x,
        None => ""@,
    };
    references_are_resolved(item, "target_id"@, "target_ref"@, cx.refs, target);
    references_are_resolved(item, "source_unit_id"@, "source_unit_ref"@, cx.refs, a);
    let s = item_plan(ItemKind::Evidence, id, item, cx)->Ok_0->Direct_0;
    lemma_evidence_statement();
    lemma_marks();
    lemma_stored(ItemKind::Evidence, s, 0, 0);
    lemma_stored(ItemKind::Evidence, s, 1, 1);
    lemma_stored(ItemKind::Evidence, s, 2, 2);
    lemma_stored(ItemKind::Evidence, s, 3, 3);
    lemma_stored(ItemKind::Evidence, s, 4, 4);
    lemma_stored(ItemKind::Evidence, s, 5, 5);
    lemma_stored(ItemKind::Evidence, s, 6, 6);
    lemma_stored(ItemKind::Evidence, s, 7, 7);
    lemma_stored(ItemKind::Evidence, s, 8, 8);
    lemma_stored(ItemKind::Evidence, s, 9, 9);
}

// ---------------------------------------------------------------------------
// Whole insertions
// ---------------------------------------------------------------------------

/// How many items of the first `n` kinds there are.
pub open spec fn items_before(args: JsonView, n: int) -> int
    decreases n,
{
    if n <= 0 {
        0
    } else {
        items_before(args, n - 1) + match args.array_at(kind_name(all_kinds()[n - 1])) {
            Some(a) => a.len() as int,
            None => 0,
        }
    }
}

proof fn lemma_listed(args: JsonView, n: int, m: int)
    requires
        0 <= n <= m <= 6,
    ensures
        listed_items(args, n).len() == items_before(args, n),
        items_before(args, n) <= items_before(args, m),
        listed_items(args, m).len() == items_before(args, m),
        forall|i: int|
            0 <= i < items_before(args, n) ==> #[trigger] listed_items(args, m)[i] == listed_items(
                args,
                n,
            )[i],
    decreases m,
{
    if n < m {
        lemma_listed(args, n, m - 1);
    } else if n > 0 {
        lemma_listed(args, n - 1, n - 1);
    }
}

/// Every item of every kind is inserted: entities, claims, relations, conditions, events
/// and evidence, in this order, and within a kind in the order given.
pub proof fn every_item_is_inserted(args: JsonView, n: int, i: int)
    requires
        0 <= n < 6,
        args.array_at(kind_name(all_kinds()[n])) is Some,
        0 <= i < args.array_at(kind_name(all_kinds()[n]))->0.len(),
    ensures
        items_of(args).len() == items_before(args, 6),
        0 <= items_before(args, n) + i < items_of(args).len(),
        items_of(args)[items_before(args, n) + i] == (
            all_kinds()[n],
            args.array_at(kind_name(all_kinds()[n]))->0[i],
        ),
        all_kinds() == seq![
            ItemKind::Entity,
            ItemKind::Claim,
            ItemKind::Relation,
            ItemKind::Condition,
            ItemKind::Event,
            ItemKind::Evidence,
        ],
{
    lemma_listed(args, n, n + 1);
    lemma_listed(args, n + 1, 6);
    let at = items_before(args, n) + i;
    let kind = all_kinds()[n];
    let a = args.array_at(kind_name(kind))->0;
    let before = listed_items(args, n);
    assert(listed_items(args, n + 1) == before + a.map_values(|j: JsonView| (kind, j)));
    assert(listed_items(args, n + 1)[at] == a.map_values(|j: JsonView| (kind, j))[i]);
}

proof fn lemma_repeated(items: Seq<KindedItem>, n: int)
    requires
        0 <= n <= items.len(),
    ensures
        repeated_ref(items, n) is None <==> forall|i: int, j: int|
            0 <= i < j < n && (#[trigger] items[i]).1.str_at("ref"@) is Some ==> items[i].1.str_at(
                "ref"@,
            ) != (#[trigger] items[j]).1.str_at("ref"@),
    decreases n,
{
    if n > 0 {
        lemma_repeated(items, n - 1);
        let r = items[n - 1].1.str_at("ref"@);
        if r is Some {
            lemma_names(items, n - 1, r->0);
        }
        if repeated_ref(items, n) is None {
            assert forall|i: int, j: int|
                0 <= i < j < n && (#[trigger] items[i]).1.str_at("ref"@)
                    is Some implies items[i].1.str_at("ref"@) != (#[trigger] items[j]).1.str_at(
                "ref"@,
            ) by {
                if j == n - 1 && items[i].1.str_at("ref"@) == r {
                    assert(ref_names(items, n - 1).contains(r->0));
                }
            }
        } else if repeated_ref(items, n - 1) is None {
            let i = choose|i: int| 0 <= i < n - 1 && (#[trigger] items[i]).1.str_at("ref"@) == r;
            assert(items[i].1.str_at("ref"@) == items[n - 1].1.str_at("ref"@));
        }
    }
}

proof fn lemma_names(items: Seq<KindedItem>, n: int, name: Seq<char>)
    requires
        0 <= n <= items.len(),
    ensures
        ref_names(items, n).contains(name) <==> exists|i: int|
            0 <= i < n && (#[trigger] items[i]).1.str_at("ref"@) == Some(name),
    decreases n,
{
    if n > 0 {
        lemma_names(items, n - 1, name);
        let before = ref_names(items, n - 1);
        let out = ref_names(items, n);
        if items[n - 1].1.str_at("ref"@) is Some {
            assert(out[out.len() - 1] == items[n - 1].1.str_at("ref"@)->0);
            if before.contains(name) {
                let k = choose|k: int| 0 <= k < before.len() && before[k] == name;
                assert(out[k] == name);
            }
            if out.contains(name) {
                let k = choose|k: int| 0 <= k < out.len() && out[k] == name;
                if k < before.len() {
                    assert(before[k] == name);
                }
            }
        }
    }
}

/// An insertion is admitted exactly where it names its document, keeps to the quotas of
/// 500 items and a million bytes, and defines no local reference twice.
pub proof fn insertions_are_admitted(args: JsonView, size: nat)
    ensures
        insert_refusal(args, size) is None <==> {
            let items = items_of(args);
            &&& args.str_at("document_id"@) is Some
            &&& size <= 1_000_000
            &&& items.len() <= 500
            &&& forall|i: int, j: int|
                0 <= i < j < items.len() && (#[trigger] items[i]).1.str_at("ref"@) is Some
                    ==> items[i].1.str_at("ref"@) != (#[trigger] items[j]).1.str_at("ref"@)
        },
{
    lemma_repeated(items_of(args), items_of(args).len() as int);
}

proof fn lemma_local(items: Seq<KindedItem>, ids: Seq<Seq<char>>, n: int)
    requires
        0 <= n <= items.len(),
        ids.len() == items.len(),
    ensures
        forall|x: int|
            0 <= x < local_refs(items, ids, n).len() ==> exists|i: int|
                0 <= i < n && (#[trigger] items[i]).1.str_at("ref"@) == Some(
                    (#[trigger] local_refs(items, ids, n)[x]).0,
                ) && ids[i] == local_refs(items, ids, n)[x].1,
    decreases n,
{
    if n > 0 {
        lemma_local(items, ids, n - 1);
        let before = local_refs(items, ids, n - 1);
        let out = local_refs(items, ids, n);
        assert forall|x: int| 0 <= x < out.len() implies exists|i: int|
            0 <= i < n && (#[trigger] items[i]).1.str_at("ref"@) == Some((#[trigger] out[x]).0)
                && ids[i] == out[x].1 by {
            if x < before.len() {
                assert(out[x] == before[x]);
                let i = choose|i: int|
                    0 <= i < n - 1 && (#[trigger] items[i]).1.str_at("ref"@) == Some(before[x].0)
                        && ids[i] == before[x].1;
                assert(items[i].1.str_at("ref"@) == Some(out[x].0));
            } else {
                assert(items[n - 1].1.str_at("ref"@) == Some(out[x].0));
            }
        }
    }
}

proof fn lemma_local_has(items: Seq<KindedItem>, ids: Seq<Seq<char>>, n: int, i: int)
    requires
        0 <= i < n <= items.len(),
        ids.len() == items.len(),
        items[i].1.str_at("ref"@) is Some,
    ensures
        exists|x: int|
            0 <= x < local_refs(items, ids, n).len() && #[trigger] local_refs(items, ids, n)[x] == (
                items[i].1.str_at("ref"@)->0,
                ids[i],
            ),
    decreases n,
{
    let out = local_refs(items, ids, n);
    if i == n - 1 {
        assert(out[out.len() - 1] == (items[i].1.str_at("ref"@)->0, ids[i]));
    } else {
        lemma_local_has(items, ids, n - 1, i);
        let before = local_refs(items, ids, n - 1);
        let x = choose|x: int|
            0 <= x < before.len() && #[trigger] before[x] == (
                items[i].1.str_at("ref"@)->0,
                ids[i],
            );
        assert(out[x] == before[x]);
    }
}

/// A local reference stands for the identifier of the item that defines it.
pub proof fn local_references_stand_for_their_item(
    items: Seq<KindedItem>,
    ids: Seq<Seq<char>>,
    i: int,
)
    requires
        0 <= i < items.len(),
        ids.len() == items.len(),
        items[i].1.str_at("ref"@) is Some,
        forall|a: int, b: int|
            0 <= a < b < items.len() && (#[trigger] items[a]).1.str_at("ref"@) is Some
                ==> items[a].1.str_at("ref"@) != (#[trigger] items[b]).1.str_at("ref"@),
    ensures
        stands_for(
            local_refs(items, ids, items.len() as int),
            items[i].1.str_at("ref"@)->0,
            ids[i],
        ),
{
    let n = items.len() as int;
    let refs = local_refs(items, ids, n);
    let name = items[i].1.str_at("ref"@)->0;
    lemma_local_has(items, ids, n, i);
    lemma_local(items, ids, n);
    let x = choose|x: int| 0 <= x < refs.len() && #[trigger] refs[x] == (name, ids[i]);
    lemma_first_ref(refs, name, ids[i], x, items, ids, i);
}

proof fn lemma_first_ref(
    refs: Seq<(Seq<char>, Seq<char>)>,
    name: Seq<char>,
    id: Seq<char>,
    x: int,
    items: Seq<KindedItem>,
    ids: Seq<Seq<char>>,
    i: int,
)
    requires
        0 <= x < refs.len(),
        refs[x] == (name, id),
        0 <= i < items.len(),
        id == ids[i],
        items[i].1.str_at("ref"@) == Some(name),
        refs == local_refs(items, ids, items.len() as int),
        forall|y: int|
            0 <= y < refs.len() ==> exists|k: int|
                0 <= k < items.len() && (#[trigger] items[k]).1.str_at("ref"@) == Some(
                    (#[trigger] refs[y]).0,
                ) && ids[k] == refs[y].1,
        forall|a: int, b: int|
            0 <= a < b < items.len() && (#[trigger] items[a]).1.str_at("ref"@) is Some
                ==> items[a].1.str_at("ref"@) != (#[trigger] items[b]).1.str_at("ref"@),
    ensures
        stands_for(refs, name, id),
    decreases x,
{
    if exists|y: int| 0 <= y < x && (#[trigger] refs[y]).0 == name {
        let y = choose|y: int| 0 <= y < x && (#[trigger] refs[y]).0 == name;
        let k = choose|k: int|
            0 <= k < items.len() && (#[trigger] items[k]).1.str_at("ref"@) == Some(refs[y].0)
                && ids[k] == refs[y].1;
        if k < i {
            assert(items[k].1.str_at("ref"@) != items[i].1.str_at("ref"@));
        } else if i < k {
            assert(items[i].1.str_at("ref"@) != items[k].1.str_at("ref"@));
        }
        lemma_first_ref(refs, name, id, y, items, ids, i);
    }
}

/// The report of an insertion names every item under its kind, by its identifier.
pub proof fn every_item_is_reported(items: Seq<KindedItem>, ids: Seq<Seq<char>>, n: int, i: int)
    requires
        0 <= i < n <= items.len(),
        ids.len() == items.len(),
    ensures
        exists|x: int|
            0 <= x < entries_of(items, ids, items[i].0, n).len() && (#[trigger] entries_of(
                items,
                ids,
                items[i].0,
                n,
            )[x]).str_at("id"@) == Some(ids[i]),
    decreases n,
{
    let kind = items[i].0;
    let out = entries_of(items, ids, kind, n);
    if i == n - 1 {
        reveal_strlit("ref");
        reveal_strlit("id");
        assert("ref"@.len() == 3 && "id"@.len() == 2);
        let e = out[out.len() - 1];
        assert(e == crate::kb_write::inserted_entry(items[i].1, ids[i]));
        let a = crate::json_model::empty_object().with(
            "ref"@,
            match items[i].1.str_at("ref"@) {
                Some(name) => if name.len() > 0 {
                    JsonView::Str(name)
                } else {
                    JsonView::Null
                },
                None => JsonView::Null,
            },
        );
        crate::json_model::lemma_with(a, "id"@, JsonView::Str(ids[i]));
        assert(e.get("id"@) == Some(JsonView::Str(ids[i])));
        assert(out[out.len() - 1].str_at("id"@) == Some(ids[i]));
    } else {
        every_item_is_reported(items, ids, n - 1, i);
        let before = entries_of(items, ids, kind, n - 1);
        let x = choose|x: int|
            0 <= x < before.len() && (#[trigger] before[x]).str_at("id"@) == Some(ids[i]);
        assert(out[x] == before[x]);
    }
}

} // verus!
