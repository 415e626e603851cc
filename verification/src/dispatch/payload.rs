//! The JSON text of an extraction, by which it is held against the schema of
//! its extractor once more before it is staged.

use crate::dispatch::graph::{json_numbers, numbers_text};
use crate::dispatch::promote::{
    candidate_kind, candidate_kind_label, relation_kind, relation_kind_label,
};
use crate::dispatch::render::{quote_all, quoted_all};
use crate::extract::{ExtractionItem, ExtractionRelation, ValidatedExtraction};
use crate::json::{
    array_text, json_array, json_optional, push_json_optional, push_json_string,
};
use crate::outside::json_quoted;
use crate::text::{contains_text, lemma_field, lemma_first_field, views};
use vstd::prelude::*;
use vstd::string::StringExecFns;

verus! {

/// A JSON string, or `null`.
pub open spec fn json_text(s: Option<String>) -> Seq<char> {
    match s {
        Some(t) => json_quoted(t@),
        None => "null"@,
    }
}

fn push_json_text(out: &mut String, s: &Option<String>)
    ensures
        final(out)@ == old(out)@ + json_text(*s),
{
    match s {
        Some(t) => push_json_string(out, t.as_str()),
        None => out.append("null"),
    }
}

/// The JSON object of an item, where `confidence` is the text of its number.
pub open spec fn item_json(item: ExtractionItem, confidence: Seq<char>) -> Seq<char> {
    "{\"confidence\":"@ + confidence + ",\"content\":"@ + json_quoted(item.content@)
        + ",\"entity_tags\":"@ + json_array(quoted_all(views(item.entity_tags@)))
        + ",\"evidence_object\":"@ + json_text(item.evidence_object) + ",\"evidence_span\":"@
        + json_text(item.evidence_span) + ",\"item_local_id\":"@ + json_quoted(item.item_local_id@)
        + ",\"kind\":"@ + json_quoted(candidate_kind(item.kind)) + ",\"object\":"@ + json_text(
        item.object,
    ) + ",\"relation\":"@ + json_text(item.relation) + ",\"source_node_ids\":"@ + json_numbers(
        item.source_node_ids@,
    ) + ",\"subject\":"@ + json_text(item.subject) + ",\"valid_from_ms\":"@ + json_optional(
        item.valid_from_ms,
    ) + ",\"valid_until_ms\":"@ + json_optional(item.valid_until_ms) + "}"@
}

fn item_text(item: &ExtractionItem, confidence: &str) -> (r: String)
    ensures
        r@ == item_json(*item, confidence@),
{
    let mut out = "{\"confidence\":".to_owned();
    out.append(confidence);
    out.append(",\"content\":");
    push_json_string(&mut out, item.content.as_str());
    out.append(",\"entity_tags\":");
    let quoted = quote_all(&item.entity_tags);
    let tags = array_text(&quoted);
    out.append(tags.as_str());
    out.append(",\"evidence_object\":");
    push_json_text(&mut out, &item.evidence_object);
    out.append(",\"evidence_span\":");
    push_json_text(&mut out, &item.evidence_span);
    out.append(",\"item_local_id\":");
    push_json_string(&mut out, item.item_local_id.as_str());
    out.append(",\"kind\":");
    push_json_string(&mut out, candidate_kind_label(item.kind));
    out.append(",\"object\":");
    push_json_text(&mut out, &item.object);
    out.append(",\"relation\":");
    push_json_text(&mut out, &item.relation);
    out.append(",\"source_node_ids\":");
    let ids = numbers_text(&item.source_node_ids);
    out.append(ids.as_str());
    out.append(",\"subject\":");
    push_json_text(&mut out, &item.subject);
    out.append(",\"valid_from_ms\":");
    push_json_optional(&mut out, item.valid_from_ms);
    out.append(",\"valid_until_ms\":");
    push_json_optional(&mut out, item.valid_until_ms);
    out.append("}");
    out
}

/// The JSON object of a relation.
pub open spec fn relation_json(relation: ExtractionRelation) -> Seq<char> {
    "{\"from_item_local_id\":"@ + json_quoted(relation.from_item_local_id@)
        + ",\"relation_type\":"@ + json_quoted(relation_kind(relation.relation_type))
        + ",\"to_item_local_id\":"@ + json_quoted(relation.to_item_local_id@) + "}"@
}

fn relation_text(relation: &ExtractionRelation) -> (r: String)
    ensures
        r@ == relation_json(*relation),
{
    let mut out = "{\"from_item_local_id\":".to_owned();
    push_json_string(&mut out, relation.from_item_local_id.as_str());
    out.append(",\"relation_type\":");
    push_json_string(&mut out, relation_kind_label(relation.relation_type));
    out.append(",\"to_item_local_id\":");
    push_json_string(&mut out, relation.to_item_local_id.as_str());
    out.append("}");
    out
}

/// The JSON objects of the items, each with the text of its confidence.
pub open spec fn item_objects(
    items: Seq<ExtractionItem>,
    confidences: Seq<Seq<char>>,
) -> Seq<Seq<char>> {
    Seq::new(items.len(), |i: int| item_json(items[i], confidences[i]))
}

/// The JSON objects of the relations.
pub open spec fn relation_objects(relations: Seq<ExtractionRelation>) -> Seq<Seq<char>> {
    relations.map_values(|r: ExtractionRelation| relation_json(r))
}

/// The JSON object of an extraction.
pub open spec fn extraction_json(
    extraction: ValidatedExtraction,
    confidences: Seq<Seq<char>>,
) -> Seq<char> {
    "{\"items\":"@ + json_array(item_objects(extraction.items@, confidences)) + ",\"relations\":"@
        + json_array(relation_objects(extraction.relations@)) + "}"@
}

/// The JSON text of an extraction, where `confidences` holds the text of the
/// confidence of each item.
pub fn extraction_payload(extraction: &ValidatedExtraction, confidences: &Vec<String>) -> (r: String)
    requires
        confidences@.len() == extraction.items@.len(),
    ensures
        r@ == extraction_json(*extraction, views(confidences@)),
{
    let ghost want = item_objects(extraction.items@, views(confidences@));
    let mut items: Vec<String> = Vec::new();
    let mut i: usize = 0;
    while i < extraction.items.len()
        invariant
            0 <= i <= extraction.items@.len(),
            confidences@.len() == extraction.items@.len(),
            want == item_objects(extraction.items@, views(confidences@)),
            views(items@) == want.take(i as int),
        decreases extraction.items@.len() - i,
    {
        let item = item_text(&extraction.items[i], confidences[i].as_str());
        let ghost before = items@;
        items.push(item);
        assert(views(items@) =~= views(before).push(item@));
        assert(want.take(i + 1) =~= want.take(i as int).push(want[i as int]));
        i += 1;
    }
    assert(want.take(i as int) =~= want);
    let ghost links = relation_objects(extraction.relations@);
    let mut relations: Vec<String> = Vec::new();
    let mut j: usize = 0;
    while j < extraction.relations.len()
        invariant
            0 <= j <= extraction.relations@.len(),
            links == relation_objects(extraction.relations@),
            views(relations@) == links.take(j as int),
        decreases extraction.relations@.len() - j,
    {
        let relation = relation_text(&extraction.relations[j]);
        let ghost before = relations@;
        relations.push(relation);
        assert(views(relations@) =~= views(before).push(relation@));
        assert(links.take(j + 1) =~= links.take(j as int).push(links[j as int]));
        j += 1;
    }
    assert(links.take(j as int) =~= links);
    let mut out = "{\"items\":".to_owned();
    let all = array_text(&items);
    out.append(all.as_str());
    out.append(",\"relations\":");
    let pairs = array_text(&relations);
    out.append(pairs.as_str());
    out.append("}");
    out
}

/// An item is written with each of its fields under its own name.
pub proof fn items_are_written_field_by_field(item: ExtractionItem, confidence: Seq<char>)
    ensures
        contains_text(item_json(item, confidence), "{\"confidence\":"@ + confidence + ",\"content\":"@),
        contains_text(item_json(item, confidence), ",\"content\":"@ + json_quoted(item.content@) + ",\"entity_tags\":"@),
        contains_text(item_json(item, confidence), ",\"entity_tags\":"@ + json_array(quoted_all(views(item.entity_tags@))) + ",\"evidence_object\":"@),
        contains_text(item_json(item, confidence), ",\"evidence_object\":"@ + json_text(item.evidence_object) + ",\"evidence_span\":"@),
        contains_text(item_json(item, confidence), ",\"evidence_span\":"@ + json_text(item.evidence_span) + ",\"item_local_id\":"@),
        contains_text(item_json(item, confidence), ",\"item_local_id\":"@ + json_quoted(item.item_local_id@) + ",\"kind\":"@),
        contains_text(item_json(item, confidence), ",\"kind\":"@ + json_quoted(candidate_kind(item.kind)) + ",\"object\":"@),
        contains_text(item_json(item, confidence), ",\"object\":"@ + json_text(item.object) + ",\"relation\":"@),
        contains_text(item_json(item, confidence), ",\"relation\":"@ + json_text(item.relation) + ",\"source_node_ids\":"@),
        contains_text(item_json(item, confidence), ",\"source_node_ids\":"@ + json_numbers(item.source_node_ids@) + ",\"subject\":"@),
        contains_text(item_json(item, confidence), ",\"subject\":"@ + json_text(item.subject) + ",\"valid_from_ms\":"@),
        contains_text(item_json(item, confidence), ",\"valid_from_ms\":"@ + json_optional(item.valid_from_ms) + ",\"valid_until_ms\":"@),
        contains_text(item_json(item, confidence), ",\"valid_until_ms\":"@ + json_optional(item.valid_until_ms) + "}"@),
{
    let s0 = "{\"confidence\":"@;
    lemma_first_field(s0, confidence, ",\"content\":"@);
    let s1 = s0 + confidence + ",\"content\":"@;
    lemma_field(s0 + confidence, ",\"content\":"@, json_quoted(item.content@), ",\"entity_tags\":"@);
    let s2 = s1 + json_quoted(item.content@) + ",\"entity_tags\":"@;
    lemma_field(s1 + json_quoted(item.content@), ",\"entity_tags\":"@, json_array(quoted_all(views(item.entity_tags@))), ",\"evidence_object\":"@);
    let s3 = s2 + json_array(quoted_all(views(item.entity_tags@))) + ",\"evidence_object\":"@;
    lemma_field(s2 + json_array(quoted_all(views(item.entity_tags@))), ",\"evidence_object\":"@, json_text(item.evidence_object), ",\"evidence_span\":"@);
    let s4 = s3 + json_text(item.evidence_object) + ",\"evidence_span\":"@;
    lemma_field(s3 + json_text(item.evidence_object), ",\"evidence_span\":"@, json_text(item.evidence_span), ",\"item_local_id\":"@);
    let s5 = s4 + json_text(item.evidence_span) + ",\"item_local_id\":"@;
    lemma_field(s4 + json_text(item.evidence_span), ",\"item_local_id\":"@, json_quoted(item.item_local_id@), ",\"kind\":"@);
    let s6 = s5 + json_quoted(item.item_local_id@) + ",\"kind\":"@;
    lemma_field(s5 + json_quoted(item.item_local_id@), ",\"kind\":"@, json_quoted(candidate_kind(item.kind)), ",\"object\":"@);
    let s7 = s6 + json_quoted(candidate_kind(item.kind)) + ",\"object\":"@;
    lemma_field(s6 + json_quoted(candidate_kind(item.kind)), ",\"object\":"@, json_text(item.object), ",\"relation\":"@);
    let s8 = s7 + json_text(item.object) + ",\"relation\":"@;
    lemma_field(s7 + json_text(item.object), ",\"relation\":"@, json_text(item.relation), ",\"source_node_ids\":"@);
    let s9 = s8 + json_text(item.relation) + ",\"source_node_ids\":"@;
    lemma_field(s8 + json_text(item.relation), ",\"source_node_ids\":"@, json_numbers(item.source_node_ids@), ",\"subject\":"@);
    let s10 = s9 + json_numbers(item.source_node_ids@) + ",\"subject\":"@;
    lemma_field(s9 + json_numbers(item.source_node_ids@), ",\"subject\":"@, json_text(item.subject), ",\"valid_from_ms\":"@);
    let s11 = s10 + json_text(item.subject) + ",\"valid_from_ms\":"@;
    lemma_field(s10 + json_text(item.subject), ",\"valid_from_ms\":"@, json_optional(item.valid_from_ms), ",\"valid_until_ms\":"@);
    let s12 = s11 + json_optional(item.valid_from_ms) + ",\"valid_until_ms\":"@;
    lemma_field(s11 + json_optional(item.valid_from_ms), ",\"valid_until_ms\":"@, json_optional(item.valid_until_ms), "}"@);
    let s13 = s12 + json_optional(item.valid_until_ms) + "}"@;
}

/// A relation is written with the item it leads from, its kind, and the item it
/// leads to.
pub proof fn relations_are_written_field_by_field(relation: ExtractionRelation)
    ensures
        contains_text(relation_json(relation), "{\"from_item_local_id\":"@ + json_quoted(relation.from_item_local_id@) + ",\"relation_type\":"@),
        contains_text(relation_json(relation), ",\"relation_type\":"@ + json_quoted(relation_kind(relation.relation_type)) + ",\"to_item_local_id\":"@),
        contains_text(relation_json(relation), ",\"to_item_local_id\":"@ + json_quoted(relation.to_item_local_id@) + "}"@),
{
    let s0 = "{\"from_item_local_id\":"@;
    lemma_first_field(s0, json_quoted(relation.from_item_local_id@), ",\"relation_type\":"@);
    let s1 = s0 + json_quoted(relation.from_item_local_id@) + ",\"relation_type\":"@;
    lemma_field(s0 + json_quoted(relation.from_item_local_id@), ",\"relation_type\":"@, json_quoted(relation_kind(relation.relation_type)), ",\"to_item_local_id\":"@);
    let s2 = s1 + json_quoted(relation_kind(relation.relation_type)) + ",\"to_item_local_id\":"@;
    lemma_field(s1 + json_quoted(relation_kind(relation.relation_type)), ",\"to_item_local_id\":"@, json_quoted(relation.to_item_local_id@), "}"@);
    let s3 = s2 + json_quoted(relation.to_item_local_id@) + "}"@;
}

/// An extraction is written with all its items and all its relations, in their
/// order.
pub proof fn extractions_are_written_whole(extraction: ValidatedExtraction, confidences: Seq<Seq<char>>)
    ensures
        contains_text(extraction_json(extraction, confidences), "{\"items\":"@ + json_array(item_objects(extraction.items@, confidences)) + ",\"relations\":"@),
        contains_text(extraction_json(extraction, confidences), ",\"relations\":"@ + json_array(relation_objects(extraction.relations@)) + "}"@),
        item_objects(extraction.items@, confidences).len() == extraction.items@.len(),
        relation_objects(extraction.relations@).len() == extraction.relations@.len(),
        forall|i: int|
            0 <= i < extraction.items@.len() ==> #[trigger] item_objects(
                extraction.items@,
                confidences,
            )[i] == item_json(extraction.items@[i], confidences[i]),
        forall|i: int|
            0 <= i < extraction.relations@.len() ==> #[trigger] relation_objects(
                extraction.relations@,
            )[i] == relation_json(extraction.relations@[i]),
{
    let s0 = "{\"items\":"@;
    lemma_first_field(s0, json_array(item_objects(extraction.items@, confidences)), ",\"relations\":"@);
    let s1 = s0 + json_array(item_objects(extraction.items@, confidences)) + ",\"relations\":"@;
    lemma_field(s0 + json_array(item_objects(extraction.items@, confidences)), ",\"relations\":"@, json_array(relation_objects(extraction.relations@)), "}"@);
    let s2 = s1 + json_array(relation_objects(extraction.relations@)) + "}"@;
}

/// A text that is absent is written as `null`, and any other as a string.
pub proof fn absent_texts_are_null(s: Option<String>)
    ensures
        s is None ==> json_text(s) == "null"@,
        s matches Some(t) ==> json_text(s) == json_quoted(t@),
{
}

}
