//! Promotion: a candidate or a relation that an auditor has accepted becomes
//! part of what is stored, once.

use crate::dispatch::extract::{
    answer_fault, candidate_sources_available, fault_reply, refused, reviewable, AuditFault,
};
use crate::dispatch::finish::counted;
use crate::dispatch::render::pair_views;
use crate::extract::{
    text_view, AuditSupport, CandidateKind, ExtractionAuditCandidateRow,
    ExtractionAuditRelationRow, ExtractionAuditResult, RelationKind, RelationVerdict,
};
use crate::json::{json_bool, push_json_bool};
use crate::memory::MemoryRegistry;
use crate::proto::{failure, invalid, success, EngineError, EngineErrorKind, Reply, Response};
use crate::store::{find_value, meta_value, Graph};
use crate::text::{decimal, decimal_injective, decimal_text, push_decimal, same, trim, trimmed, views};
use vstd::prelude::*;
use vstd::string::StringExecFns;

verus! {

/// A stored fact, as far as promotion reads it.
#[derive(Debug)]
pub struct AtomicFact {
    pub id: u64,
    pub valid_from: Option<u64>,
    pub valid_until: Option<u64>,
    pub metadata: Vec<(String, String)>,
}

/// Metadata key of the key of the candidate that a fact was promoted from.
pub const META_IDEMPOTENCY_KEY: &'static str = "anamnesis:extraction_idempotency_key";

/// Whether a fact was promoted from the candidate with the given key.
pub open spec fn promoted_from(fact: AtomicFact, key: Seq<char>) -> bool {
    meta_value(fact.metadata@, META_IDEMPOTENCY_KEY@) == Some(key)
}

/// The first fact that was promoted from the candidate with the given key.
pub open spec fn promoted(facts: Seq<AtomicFact>, key: Seq<char>) -> Option<AtomicFact>
    decreases facts.len(),
{
    if facts.len() == 0 {
        None
    } else {
        match promoted(facts.drop_last(), key) {
            Some(f) => Some(f),
            None => if promoted_from(facts.last(), key) {
                Some(facts.last())
            } else {
                None
            },
        }
    }
}

/// Finds the fact that was promoted from the candidate with the given key.
pub fn find_promoted_candidate<'a>(facts: &'a Vec<AtomicFact>, key: &str) -> (r: Option<
    &'a AtomicFact,
>)
    ensures
        match r {
            Some(f) => promoted(facts@, key@) == Some(*f),
            None => promoted(facts@, key@) is None,
        },
{
    let mut found: Option<usize> = None;
    let mut i: usize = 0;
    assert(facts@.take(0) =~= Seq::<AtomicFact>::empty());
    while i < facts.len()
        invariant
            0 <= i <= facts@.len(),
            match found {
                Some(f) => f < facts@.len() && promoted(facts@.take(i as int), key@) == Some(
                    facts@[f as int],
                ),
                None => promoted(facts@.take(i as int), key@) is None,
            },
        decreases facts@.len() - i,
    {
        proof {
            let next = facts@.take(i + 1);
            assert(next.drop_last() =~= facts@.take(i as int));
            assert(next.last() == facts@[i as int]);
        }
        if found.is_none() {
            if let Some(v) = find_value(&facts[i].metadata, META_IDEMPOTENCY_KEY) {
                if same(v, key) {
                    found = Some(i);
                }
            }
        }
        i += 1;
    }
    assert(facts@.take(i as int) =~= facts@);
    match found {
        Some(f) => Some(&facts[f]),
        None => None,
    }
}

/// The name of a kind of candidate.
pub open spec fn candidate_kind(kind: CandidateKind) -> Seq<char> {
    match kind {
        CandidateKind::Fact => "fact"@,
        CandidateKind::Entity => "entity"@,
        CandidateKind::Event => "event"@,
        CandidateKind::Preference => "preference"@,
        CandidateKind::Decision => "decision"@,
        CandidateKind::Causal => "causal"@,
        CandidateKind::Lesson => "lesson"@,
        CandidateKind::Convention => "convention"@,
        CandidateKind::Gotcha => "gotcha"@,
    }
}

/// The name of a kind of candidate.
pub fn candidate_kind_label(kind: CandidateKind) -> (r: &'static str)
    ensures
        r@ == candidate_kind(kind),
{
    match kind {
        CandidateKind::Fact => "fact",
        CandidateKind::Entity => "entity",
        CandidateKind::Event => "event",
        CandidateKind::Preference => "preference",
        CandidateKind::Decision => "decision",
        CandidateKind::Causal => "causal",
        CandidateKind::Lesson => "lesson",
        CandidateKind::Convention => "convention",
        CandidateKind::Gotcha => "gotcha",
    }
}

/// The name of a kind of relation.
pub open spec fn relation_kind(kind: RelationKind) -> Seq<char> {
    match kind {
        RelationKind::Reason => "reason"@,
        RelationKind::Causal => "causal"@,
        RelationKind::Contradicts => "contradicts"@,
        RelationKind::Supports => "supports"@,
    }
}

/// The name of a kind of relation.
pub fn relation_kind_label(kind: RelationKind) -> (r: &'static str)
    ensures
        r@ == relation_kind(kind),
{
    match kind {
        RelationKind::Reason => "reason",
        RelationKind::Causal => "causal",
        RelationKind::Contradicts => "contradicts",
        RelationKind::Supports => "supports",
    }
}

/// The object that a candidate's evidence speaks of: the one it names for
/// that, or else the object of its claim.
pub open spec fn evidence_object(c: ExtractionAuditCandidateRow) -> Option<Seq<char>> {
    match c.evidence_object {
        Some(o) => Some(o@),
        None => text_view(c.object),
    }
}

/// The text under which a candidate is to be found: its content, with the
/// object of its evidence where there is one.
pub open spec fn routing_surface(c: ExtractionAuditCandidateRow) -> Seq<char> {
    match evidence_object(c) {
        Some(o) => if trim(o).len() > 0 {
            c.content@ + "\nEvidence object: "@ + trim(o)
        } else {
            c.content@
        },
        None => c.content@,
    }
}

/// The text under which a candidate is to be found.
pub fn candidate_routing_surface(candidate: &ExtractionAuditCandidateRow) -> (r: String)
    ensures
        r@ == routing_surface(*candidate),
{
    let object = match &candidate.evidence_object {
        Some(o) => Some(o),
        None => match &candidate.object {
            Some(o) => Some(o),
            None => None,
        },
    };
    match object {
        Some(o) => {
            let t = trimmed(o.as_str());
            if t.as_str().is_empty() {
                candidate.content.clone()
            } else {
                let mut out = candidate.content.clone();
                out.append("\nEvidence object: ");
                out.append(t.as_str());
                out
            }
        },
        None => candidate.content.clone(),
    }
}

/// One pair where there is a value, and none otherwise.
pub open spec fn optional_pair(key: Seq<char>, value: Option<Seq<char>>) -> Seq<
    (Seq<char>, Seq<char>),
> {
    match value {
        Some(v) => seq![(key, v)],
        None => Seq::empty(),
    }
}

/// The decimal digits of a number that may be absent.
pub open spec fn number_text(n: Option<u64>) -> Option<Seq<char>> {
    match n {
        Some(v) => Some(decimal(v as nat)),
        None => None,
    }
}

/// What a fact keeps of the candidate that it is promoted from.
pub open spec fn fact_metadata(c: ExtractionAuditCandidateRow) -> Seq<(Seq<char>, Seq<char>)> {
    seq![
        (META_IDEMPOTENCY_KEY@, c.idempotency_key@),
        ("anamnesis:extraction_candidate_id"@, decimal(c.id as nat)),
        ("anamnesis:extraction_profile_id"@, c.profile_id@),
        ("anamnesis:source_session_id"@, c.source_session_id@),
        ("anamnesis:fact-kind"@, candidate_kind(c.kind)),
    ] + optional_pair("anamnesis:ground-subject"@, text_view(c.subject)) + optional_pair(
        "anamnesis:ground-relation"@,
        text_view(c.relation),
    ) + optional_pair("anamnesis:ground-object"@, text_view(c.object)) + optional_pair(
        "anamnesis:evidence-object"@,
        evidence_object(c),
    ) + optional_pair(
        "anamnesis:evidence-source-node-id"@,
        number_text(c.evidence_source_node_id),
    ) + optional_pair("anamnesis:evidence-span-start"@, number_text(c.evidence_span_start))
        + optional_pair("anamnesis:evidence-span-end"@, number_text(c.evidence_span_end))
        + optional_pair("anamnesis:evidence-span-sha256"@, text_view(c.evidence_span_sha256))
}

fn push_text_pair(out: &mut Vec<(String, String)>, key: &str, value: &Option<String>)
    ensures
        pair_views(final(out)@) == pair_views(old(out)@) + optional_pair(key@, text_view(*value)),
{
    let ghost before = out@;
    if let Some(v) = value {
        out.push((key.to_owned(), v.clone()));
    }
    assert(pair_views(out@) =~= pair_views(before) + optional_pair(key@, text_view(*value)));
}

fn push_number_pair(out: &mut Vec<(String, String)>, key: &str, value: Option<u64>)
    ensures
        pair_views(final(out)@) == pair_views(old(out)@) + optional_pair(key@, number_text(value)),
{
    let ghost before = out@;
    if let Some(v) = value {
        out.push((key.to_owned(), decimal_text(v)));
    }
    assert(pair_views(out@) =~= pair_views(before) + optional_pair(key@, number_text(value)));
}

fn metadata_of(c: &ExtractionAuditCandidateRow) -> (r: Vec<(String, String)>)
    ensures
        pair_views(r@) == fact_metadata(*c),
{
    let mut out: Vec<(String, String)> = Vec::new();
    out.push((META_IDEMPOTENCY_KEY.to_owned(), c.idempotency_key.clone()));
    out.push(("anamnesis:extraction_candidate_id".to_owned(), decimal_text(c.id)));
    out.push(("anamnesis:extraction_profile_id".to_owned(), c.profile_id.clone()));
    out.push(("anamnesis:source_session_id".to_owned(), c.source_session_id.clone()));
    out.push(("anamnesis:fact-kind".to_owned(), candidate_kind_label(c.kind).to_owned()));
    assert(pair_views(out@) =~= seq![
        (META_IDEMPOTENCY_KEY@, c.idempotency_key@),
        ("anamnesis:extraction_candidate_id"@, decimal(c.id as nat)),
        ("anamnesis:extraction_profile_id"@, c.profile_id@),
        ("anamnesis:source_session_id"@, c.source_session_id@),
        ("anamnesis:fact-kind"@, candidate_kind(c.kind)),
    ]);
    push_text_pair(&mut out, "anamnesis:ground-subject", &c.subject);
    push_text_pair(&mut out, "anamnesis:ground-relation", &c.relation);
    push_text_pair(&mut out, "anamnesis:ground-object", &c.object);
    match &c.evidence_object {
        Some(_) => push_text_pair(&mut out, "anamnesis:evidence-object", &c.evidence_object),
        None => push_text_pair(&mut out, "anamnesis:evidence-object", &c.object),
    }
    push_number_pair(&mut out, "anamnesis:evidence-source-node-id", c.evidence_source_node_id);
    push_number_pair(&mut out, "anamnesis:evidence-span-start", c.evidence_span_start);
    push_number_pair(&mut out, "anamnesis:evidence-span-end", c.evidence_span_end);
    push_text_pair(&mut out, "anamnesis:evidence-span-sha256", &c.evidence_span_sha256);
    out
}

/// A fact that is to be stored.
#[derive(Debug)]
pub struct FactInput {
    pub content: String,
    pub source_ids: Vec<u64>,
    pub embedding_surface: String,
    pub entity_tags: Vec<String>,
    pub valid_from: Option<u64>,
    pub valid_until: Option<u64>,
    pub metadata: Vec<(String, String)>,
}

/// What promoting a candidate asks of the store.
#[derive(Debug)]
pub enum Promotion {
    /// The candidate was promoted before: its fact is to hold for this time.
    Refresh { fact_id: u64, valid_from: Option<u64>, valid_until: Option<u64> },
    /// The candidate is new: this fact is to be stored.
    Add { input: FactInput },
}

/// Whether a fact is what a candidate is to be stored as.
pub open spec fn states(input: FactInput, c: ExtractionAuditCandidateRow) -> bool {
    &&& input.content@ == c.content@
    &&& input.source_ids@ == c.source_node_ids@
    &&& input.embedding_surface@ == routing_surface(c)
    &&& views(input.entity_tags@) == views(c.entity_tags@)
    &&& input.valid_from == c.valid_from_ms
    &&& input.valid_until == c.valid_until_ms
    &&& pair_views(input.metadata@) == fact_metadata(c)
}

/// Whether a promotion is that of the given candidate over the given facts.
pub open spec fn promotes(
    facts: Seq<AtomicFact>,
    c: ExtractionAuditCandidateRow,
    promotion: Promotion,
) -> bool {
    match promoted(facts, c.idempotency_key@) {
        Some(fact) => promotion == (Promotion::Refresh {
            fact_id: fact.id,
            valid_from: c.valid_from_ms,
            valid_until: c.valid_until_ms,
        }),
        None => promotion matches Promotion::Add { input } && states(input, c),
    }
}

fn copy_texts(v: &Vec<String>) -> (r: Vec<String>)
    ensures
        views(r@) == views(v@),
{
    let mut out: Vec<String> = Vec::new();
    let mut i: usize = 0;
    while i < v.len()
        invariant
            0 <= i <= v@.len(),
            out@.len() == i,
            forall|j: int| 0 <= j < i ==> (#[trigger] out@[j])@ == v@[j]@,
        decreases v@.len() - i,
    {
        out.push(v[i].clone());
        i += 1;
    }
    assert(views(out@) =~= views(v@));
    out
}

fn copy_ids(v: &Vec<u64>) -> (r: Vec<u64>)
    ensures
        r@ == v@,
{
    let mut out: Vec<u64> = Vec::new();
    let mut i: usize = 0;
    while i < v.len()
        invariant
            0 <= i <= v@.len(),
            out@ == v@.take(i as int),
        decreases v@.len() - i,
    {
        out.push(v[i]);
        assert(out@ =~= v@.take(i + 1));
        i += 1;
    }
    assert(out@ =~= v@);
    out
}

/// Says what promoting a candidate asks of the store. A candidate without a
/// source cannot be promoted.
pub fn promote_reviewed_candidate(
    facts: &Vec<AtomicFact>,
    candidate: &ExtractionAuditCandidateRow,
) -> (r: Result<Promotion, EngineError>)
    ensures
        match r {
            Ok(p) => candidate.source_node_ids@.len() > 0 && promotes(facts@, *candidate, p),
            Err(e) => {
                &&& candidate.source_node_ids@.len() == 0
                &&& e.kind == EngineErrorKind::InvalidInput
                &&& e.message@
                    == "reviewed extraction candidate requires at least one raw source"@
            },
        },
{
    let existing = find_promoted_candidate(facts, candidate.idempotency_key.as_str());
    if candidate.source_node_ids.len() == 0 {
        return Err(
            EngineError::invalid_input(
                "reviewed extraction candidate requires at least one raw source".to_owned(),
            ),
        );
    }
    match existing {
        Some(fact) => Ok(
            Promotion::Refresh {
                fact_id: fact.id,
                valid_from: candidate.valid_from_ms,
                valid_until: candidate.valid_until_ms,
            },
        ),
        None => Ok(
            Promotion::Add {
                input: FactInput {
                    content: candidate.content.clone(),
                    source_ids: copy_ids(&candidate.source_node_ids),
                    embedding_surface: candidate_routing_surface(candidate),
                    entity_tags: copy_texts(&candidate.entity_tags),
                    valid_from: candidate.valid_from_ms,
                    valid_until: candidate.valid_until_ms,
                    metadata: metadata_of(candidate),
                },
            },
        ),
    }
}

/// The first candidate with the given number.
pub open spec fn candidate_in(rows: Seq<ExtractionAuditCandidateRow>, id: u64) -> Option<
    ExtractionAuditCandidateRow,
>
    decreases rows.len(),
{
    if rows.len() == 0 {
        None
    } else {
        match candidate_in(rows.drop_last(), id) {
            Some(c) => Some(c),
            None => if rows.last().id == id {
                Some(rows.last())
            } else {
                None
            },
        }
    }
}

fn find_candidate(rows: &Vec<ExtractionAuditCandidateRow>, id: u64) -> (r: Option<
    &ExtractionAuditCandidateRow,
>)
    ensures
        match r {
            Some(c) => candidate_in(rows@, id) == Some(*c),
            None => candidate_in(rows@, id) is None,
        },
{
    let mut found: Option<usize> = None;
    let mut i: usize = 0;
    assert(rows@.take(0) =~= Seq::<ExtractionAuditCandidateRow>::empty());
    while i < rows.len()
        invariant
            0 <= i <= rows@.len(),
            match found {
                Some(f) => f < rows@.len() && candidate_in(rows@.take(i as int), id) == Some(
                    rows@[f as int],
                ),
                None => candidate_in(rows@.take(i as int), id) is None,
            },
        decreases rows@.len() - i,
    {
        proof {
            let next = rows@.take(i + 1);
            assert(next.drop_last() =~= rows@.take(i as int));
            assert(next.last() == rows@[i as int]);
        }
        if found.is_none() && rows[i].id == id {
            found = Some(i);
        }
        i += 1;
    }
    assert(rows@.take(i as int) =~= rows@);
    match found {
        Some(f) => Some(&rows[f]),
        None => None,
    }
}

/// The first relation with the given number.
pub open spec fn relation_in(rows: Seq<ExtractionAuditRelationRow>, id: u64) -> Option<
    ExtractionAuditRelationRow,
>
    decreases rows.len(),
{
    if rows.len() == 0 {
        None
    } else {
        match relation_in(rows.drop_last(), id) {
            Some(c) => Some(c),
            None => if rows.last().id == id {
                Some(rows.last())
            } else {
                None
            },
        }
    }
}

fn find_relation(rows: &Vec<ExtractionAuditRelationRow>, id: u64) -> (r: Option<
    &ExtractionAuditRelationRow,
>)
    ensures
        match r {
            Some(c) => relation_in(rows@, id) == Some(*c),
            None => relation_in(rows@, id) is None,
        },
{
    let mut found: Option<usize> = None;
    let mut i: usize = 0;
    assert(rows@.take(0) =~= Seq::<ExtractionAuditRelationRow>::empty());
    while i < rows.len()
        invariant
            0 <= i <= rows@.len(),
            match found {
                Some(f) => f < rows@.len() && relation_in(rows@.take(i as int), id) == Some(
                    rows@[f as int],
                ),
                None => relation_in(rows@.take(i as int), id) is None,
            },
        decreases rows@.len() - i,
    {
        proof {
            let next = rows@.take(i + 1);
            assert(next.drop_last() =~= rows@.take(i as int));
            assert(next.last() == rows@[i as int]);
        }
        if found.is_none() && rows[i].id == id {
            found = Some(i);
        }
        i += 1;
    }
    assert(rows@.take(i as int) =~= rows@);
    match found {
        Some(f) => Some(&rows[f]),
        None => None,
    }
}

/// Why a candidate cannot be judged; nothing where it can.
pub open spec fn review_fault(
    graph: Graph,
    rows: Seq<ExtractionAuditCandidateRow>,
    candidate_id: u64,
) -> Option<Seq<char>> {
    match candidate_in(rows, candidate_id) {
        None => Some("extraction audit candidate was not found"@),
        Some(c) => if reviewable(graph, c) {
            None
        } else {
            Some("extraction audit candidate sources are unavailable or mismatched"@)
        },
    }
}

/// Decides whether an auditor's judgement on a candidate is taken. A refusal is
/// counted and answered by `finish_candidate_audit`, once the store is free
/// again.
pub fn dispatch_update_candidate_audit(
    graph: &Graph,
    rows: &Vec<ExtractionAuditCandidateRow>,
    candidate_id: u64,
) -> (r: Result<(), AuditFault>)
    ensures
        match r {
            Ok(_) => review_fault(*graph, rows@, candidate_id) is None,
            Err(fault) => review_fault(*graph, rows@, candidate_id) matches Some(m) && fault_reply(
                fault,
            ) == invalid(m),
        },
{
    match find_candidate(rows, candidate_id) {
        None => Err(refused("extraction audit candidate was not found")),
        Some(candidate) => if candidate_sources_available(graph, candidate) {
            Ok(())
        } else {
            Err(refused("extraction audit candidate sources are unavailable or mismatched"))
        },
    }
}

/// Whether an auditor accepted a candidate.
pub open spec fn accepted(c: ExtractionAuditCandidateRow) -> bool {
    c.support == Some(AuditSupport::Supported) && c.contamination is None && c.reviewed_at is Some
}

/// Why a candidate cannot be promoted; nothing where it can.
pub open spec fn promotion_fault(
    graph: Graph,
    rows: Seq<ExtractionAuditCandidateRow>,
    candidate_id: u64,
) -> Option<Seq<char>> {
    match candidate_in(rows, candidate_id) {
        None => Some("extraction audit candidate was not found"@),
        Some(c) => if !accepted(c) {
            Some(
                "candidate promotion requires a reviewed supported verdict with no contamination"@,
            )
        } else if !reviewable(graph, c) {
            Some("extraction audit candidate sources are unavailable or mismatched"@)
        } else {
            None
        },
    }
}

/// Says what promoting a candidate by its number asks of the store, or why it
/// cannot be promoted.
pub fn plan_candidate_promotion(
    graph: &Graph,
    facts: &Vec<AtomicFact>,
    rows: &Vec<ExtractionAuditCandidateRow>,
    candidate_id: u64,
) -> (r: Result<Promotion, AuditFault>)
    ensures
        match r {
            Ok(p) => {
                &&& promotion_fault(*graph, rows@, candidate_id) is None
                &&& promotes(facts@, candidate_in(rows@, candidate_id)->0, p)
                &&& candidate_in(rows@, candidate_id)->0.support == Some(AuditSupport::Supported)
                &&& candidate_in(rows@, candidate_id)->0.contamination is None
                &&& candidate_in(rows@, candidate_id)->0.reviewed_at is Some
            },
            Err(fault) => promotion_fault(*graph, rows@, candidate_id) matches Some(m)
                && fault_reply(fault) == invalid(m),
        },
{
    let candidate = match find_candidate(rows, candidate_id) {
        Some(c) => c,
        None => {
            return Err(refused("extraction audit candidate was not found"));
        },
    };
    let supported = match candidate.support {
        Some(s) => s == AuditSupport::Supported,
        None => false,
    };
    if !supported || candidate.contamination.is_some() || candidate.reviewed_at.is_none() {
        return Err(refused("candidate promotion requires a reviewed supported verdict with no contamination"));
    }
    if !candidate_sources_available(graph, candidate) {
        return Err(refused("extraction audit candidate sources are unavailable or mismatched"));
    }
    match promote_reviewed_candidate(facts, candidate) {
        Ok(p) => Ok(p),
        Err(error) => Err(AuditFault::Failed { error }),
    }
}

/// What is told of a candidate that was promoted.
pub open spec fn promoted_candidate_json(fact_id: u64, already: bool) -> Seq<char> {
    "{\"already_materialized\":"@ + json_bool(already) + ",\"atomic_fact_id\":"@ + decimal(
        fact_id as nat,
    ) + ",\"node_id\":"@ + decimal(fact_id as nat) + "}"@
}

/// Gives the reply to a promotion, once the store did its part.
pub fn finish_promote_candidate(
    registry: &mut MemoryRegistry,
    result: Result<u64, AuditFault>,
    already: bool,
) -> (r: Response)
    requires
        old(registry)@.ops.room(),
    ensures
        final(registry)@ == counted(old(registry)@, result),
        r@ == (match result {
            Ok(fact_id) => success(promoted_candidate_json(fact_id, already)),
            Err(fault) => fault_reply(fault),
        }),
{
    match result {
        Ok(fact_id) => {
            let mut text = "{\"already_materialized\":".to_owned();
            push_json_bool(&mut text, already);
            text.append(",\"atomic_fact_id\":");
            push_decimal(&mut text, fact_id);
            text.append(",\"node_id\":");
            push_decimal(&mut text, fact_id);
            text.append("}");
            Response::ok(text)
        },
        Err(fault) => answer_fault(registry, fault),
    }
}

/// The key under which a fact keeps a relation.
pub open spec fn relation_key(relation_id: u64) -> Seq<char> {
    "anamnesis:atomic-relation:"@ + decimal(relation_id as nat)
}

/// How a fact keeps a relation to another fact.
pub open spec fn relation_value(kind: RelationKind, to: u64) -> Seq<char> {
    relation_kind(kind) + ":"@ + decimal(to as nat)
}

/// What promoting a relation asks of the store.
#[derive(Debug)]
pub enum RelationPromotion {
    /// The relation was promoted before.
    AlreadyThere,
    /// The fact is to keep this pair.
    Link { fact_id: u64, key: String, value: String },
}

/// What a caller is told whose relation was promoted to another target.
pub open spec fn relation_conflict(relation_id: u64) -> Seq<char> {
    "atomic relation "@ + decimal(relation_id as nat) + " conflicts with an existing target"@
}

/// Whether a promotion is that of the given relation.
pub open spec fn relates(
    source: AtomicFact,
    relation_id: u64,
    to: u64,
    kind: RelationKind,
    promotion: RelationPromotion,
) -> bool {
    match meta_value(source.metadata@, relation_key(relation_id)) {
        Some(existing) => existing == relation_value(kind, to) && promotion
            == RelationPromotion::AlreadyThere,
        None => {
            &&& promotion matches RelationPromotion::Link { fact_id, key, value }
            &&& fact_id == source.id
            &&& key@ == relation_key(relation_id)
            &&& value@ == relation_value(kind, to)
        },
    }
}

/// Whether a fact keeps a relation to another target than the given one.
pub open spec fn conflicts(source: AtomicFact, relation_id: u64, to: u64, kind: RelationKind) -> bool {
    meta_value(source.metadata@, relation_key(relation_id)) matches Some(existing) && existing
        != relation_value(kind, to)
}

/// Says what promoting a relation from `source` to the fact `to` asks of the
/// store.
pub fn promote_reviewed_relation(
    source: &AtomicFact,
    relation_id: u64,
    to: u64,
    kind: RelationKind,
) -> (r: Result<RelationPromotion, EngineError>)
    ensures
        match r {
            Ok(p) => relates(*source, relation_id, to, kind, p),
            Err(e) => {
                &&& conflicts(*source, relation_id, to, kind)
                &&& e.kind == EngineErrorKind::InvalidInput
                &&& e.message@ == relation_conflict(relation_id)
            },
        },
{
    let mut key = "anamnesis:atomic-relation:".to_owned();
    push_decimal(&mut key, relation_id);
    let mut value = relation_kind_label(kind).to_owned();
    value.append(":");
    push_decimal(&mut value, to);
    match find_value(&source.metadata, key.as_str()) {
        Some(existing) => if same(existing, value.as_str()) {
            Ok(RelationPromotion::AlreadyThere)
        } else {
            let mut message = "atomic relation ".to_owned();
            push_decimal(&mut message, relation_id);
            message.append(" conflicts with an existing target");
            Err(EngineError::invalid_input(message))
        },
        None => Ok(RelationPromotion::Link { fact_id: source.id, key, value }),
    }
}

/// Why a relation cannot be promoted; nothing where both its ends are facts
/// and an auditor found it correct.
pub open spec fn relation_fault(
    facts: Seq<AtomicFact>,
    audit: ExtractionAuditResult,
    relation_id: u64,
) -> Option<Reply> {
    match relation_in(audit.relations@, relation_id) {
        None => Some(invalid("extraction audit relation was not found"@)),
        Some(rel) => if rel.verdict != Some(RelationVerdict::Correct) || rel.reviewed_at is None {
            Some(invalid("relation promotion requires a reviewed correct verdict"@))
        } else {
            match (
                candidate_in(audit.candidates@, rel.candidate_from),
                candidate_in(audit.candidates@, rel.candidate_to),
            ) {
                (None, _) => Some(invalid("relation source candidate was not found"@)),
                (_, None) => Some(invalid("relation target candidate was not found"@)),
                (Some(from), Some(to)) => match (
                    promoted(facts, from.idempotency_key@),
                    promoted(facts, to.idempotency_key@),
                ) {
                    (None, _) => Some(invalid("relation source candidate is not promoted"@)),
                    (_, None) => Some(invalid("relation target candidate is not promoted"@)),
                    (Some(source), Some(target)) => if conflicts(
                        source,
                        relation_id,
                        target.id,
                        rel.relation_type,
                    ) {
                        Some(failure(relation_conflict(relation_id)))
                    } else {
                        None
                    },
                },
            }
        },
    }
}

/// The fact that the candidate with the given number was promoted to.
pub open spec fn fact_of(
    facts: Seq<AtomicFact>,
    audit: ExtractionAuditResult,
    candidate_id: u64,
) -> AtomicFact {
    promoted(facts, candidate_in(audit.candidates@, candidate_id)->0.idempotency_key@)->0
}

/// Says what promoting a relation by its number asks of the store, or why it
/// cannot be promoted.
pub fn plan_relation_promotion(
    facts: &Vec<AtomicFact>,
    audit: &ExtractionAuditResult,
    relation_id: u64,
) -> (r: Result<RelationPromotion, AuditFault>)
    ensures
        match r {
            Ok(p) => {
                let rel = relation_in(audit.relations@, relation_id)->0;
                &&& relation_fault(facts@, *audit, relation_id) is None
                &&& rel.verdict == Some(RelationVerdict::Correct) && rel.reviewed_at is Some
                &&& relates(
                    fact_of(facts@, *audit, rel.candidate_from),
                    relation_id,
                    fact_of(facts@, *audit, rel.candidate_to).id,
                    rel.relation_type,
                    p,
                )
            },
            Err(fault) => relation_fault(facts@, *audit, relation_id) == Some(fault_reply(fault)),
        },
{
    let rel = match find_relation(&audit.relations, relation_id) {
        Some(rel) => rel,
        None => {
            return Err(refused("extraction audit relation was not found"));
        },
    };
    let correct = match rel.verdict {
        Some(v) => v == RelationVerdict::Correct,
        None => false,
    };
    if !correct || rel.reviewed_at.is_none() {
        return Err(refused("relation promotion requires a reviewed correct verdict"));
    }
    let from = match find_candidate(&audit.candidates, rel.candidate_from) {
        Some(c) => c,
        None => {
            return Err(refused("relation source candidate was not found"));
        },
    };
    let to = match find_candidate(&audit.candidates, rel.candidate_to) {
        Some(c) => c,
        None => {
            return Err(refused("relation target candidate was not found"));
        },
    };
    let source = match find_promoted_candidate(facts, from.idempotency_key.as_str()) {
        Some(f) => f,
        None => {
            return Err(refused("relation source candidate is not promoted"));
        },
    };
    let target = match find_promoted_candidate(facts, to.idempotency_key.as_str()) {
        Some(f) => f,
        None => {
            return Err(refused("relation target candidate is not promoted"));
        },
    };
    match promote_reviewed_relation(source, relation_id, target.id, rel.relation_type) {
        Ok(p) => Ok(p),
        Err(error) => Err(AuditFault::Failed { error }),
    }
}

/// What is told of a relation that was promoted.
pub open spec fn promoted_relation_json(relation_id: u64, already: bool) -> Seq<char> {
    "{\"already_materialized\":"@ + json_bool(already) + ",\"atomic_relation_id\":"@ + decimal(
        relation_id as nat,
    ) + ",\"edge_id\":"@ + decimal(relation_id as nat) + "}"@
}

/// Gives the reply to the promotion of a relation, once the store did its
/// part.
pub fn finish_promote_relation(
    registry: &mut MemoryRegistry,
    relation_id: u64,
    result: Result<(), AuditFault>,
    already: bool,
) -> (r: Response)
    requires
        old(registry)@.ops.room(),
    ensures
        final(registry)@ == counted(old(registry)@, result),
        r@ == (match result {
            Ok(_) => success(promoted_relation_json(relation_id, already)),
            Err(fault) => fault_reply(fault),
        }),
{
    match result {
        Ok(_) => {
            let mut text = "{\"already_materialized\":".to_owned();
            push_json_bool(&mut text, already);
            text.append(",\"atomic_relation_id\":");
            push_decimal(&mut text, relation_id);
            text.append(",\"edge_id\":");
            push_decimal(&mut text, relation_id);
            text.append("}");
            Response::ok(text)
        },
        Err(fault) => answer_fault(registry, fault),
    }
}

/// Promotion is idempotent. Once a candidate is stored as a fact that keeps
/// the metadata it was given, promoting the candidate again stores nothing
/// new: it only refreshes that fact.
pub proof fn promotion_is_idempotent(
    facts: Seq<AtomicFact>,
    c: ExtractionAuditCandidateRow,
    stored: AtomicFact,
    again: Promotion,
)
    requires
        promoted(facts, c.idempotency_key@) is None,
        pair_views(stored.metadata@) == fact_metadata(c),
        promotes(facts.push(stored), c, again),
    ensures
        again == (Promotion::Refresh {
            fact_id: stored.id,
            valid_from: c.valid_from_ms,
            valid_until: c.valid_until_ms,
        }),
{
    assert(facts.push(stored).drop_last() =~= facts);
    let pairs = stored.metadata@;
    assert(pair_views(pairs)[0] == fact_metadata(c)[0]);
    assert(pair_views(pairs).len() == pairs.len());
    assert(pairs[0].0@ == META_IDEMPOTENCY_KEY@);
    assert(pairs[0].1@ == c.idempotency_key@);
}

proof fn lemma_meta_value_push(pairs: Seq<(String, String)>, p: (String, String), key: Seq<char>)
    requires
        meta_value(pairs, key) is None,
        p.0@ == key,
    ensures
        meta_value(pairs.push(p), key) == Some(p.1@),
    decreases pairs.len(),
{
    let all = pairs.push(p);
    if pairs.len() > 0 {
        assert(all[0] == pairs[0]);
        assert(all.skip(1) =~= pairs.skip(1).push(p));
        lemma_meta_value_push(pairs.skip(1), p, key);
    }
}

/// Promoting a relation is idempotent. Once its source fact keeps the pair
/// that a promotion asked for, promoting the relation again asks for nothing.
pub proof fn relation_promotion_is_idempotent(
    before: AtomicFact,
    after: AtomicFact,
    pair: (String, String),
    relation_id: u64,
    to: u64,
    kind: RelationKind,
    again: RelationPromotion,
)
    requires
        relates(
            before,
            relation_id,
            to,
            kind,
            RelationPromotion::Link { fact_id: before.id, key: pair.0, value: pair.1 },
        ),
        after.metadata@ == before.metadata@.push(pair),
        relates(after, relation_id, to, kind, again),
    ensures
        again == RelationPromotion::AlreadyThere,
{
    lemma_meta_value_push(before.metadata@, pair, relation_key(relation_id));
}

proof fn lemma_relation_value(kind: RelationKind, to: u64, other_kind: RelationKind, other: u64)
    requires
        relation_value(kind, to) == relation_value(other_kind, other),
    ensures
        kind == other_kind,
        to == other,
{
    reveal_strlit("reason");
    reveal_strlit("causal");
    reveal_strlit("contradicts");
    reveal_strlit("supports");
    reveal_strlit(":");
    let a = relation_value(kind, to);
    let b = relation_value(other_kind, other);
    assert(a[0] == relation_kind(kind)[0]);
    assert(b[0] == relation_kind(other_kind)[0]);
    assert(a[1] == relation_kind(kind)[1]);
    assert(b[1] == relation_kind(other_kind)[1]);
    assert(kind == other_kind);
    let n = relation_kind(kind).len() as int + 1;
    assert(a.skip(n) =~= decimal(to as nat));
    assert(b.skip(n) =~= decimal(other as nat));
    decimal_injective(to as nat, other as nat);
}

/// A relation that was promoted to one target is never turned to another, nor
/// into one of another kind: the second promotion is refused.
pub proof fn promoted_relation_keeps_its_target(
    source: AtomicFact,
    relation_id: u64,
    to: u64,
    kind: RelationKind,
    other: u64,
    other_kind: RelationKind,
)
    requires
        relates(source, relation_id, to, kind, RelationPromotion::AlreadyThere),
        other != to || other_kind != kind,
    ensures
        conflicts(source, relation_id, other, other_kind),
{
    if relation_value(other_kind, other) == relation_value(kind, to) {
        lemma_relation_value(kind, to, other_kind, other);
    }
}

/// A judgement or a promotion that is refused tells the first reason: that the
/// candidate is not there, that no auditor accepted it, or that its sources cannot
/// be shown as they were.
pub proof fn refused_candidates_are_told_why(
    graph: Graph,
    rows: Seq<ExtractionAuditCandidateRow>,
    candidate_id: u64,
)
    ensures
        match candidate_in(rows, candidate_id) {
            None => review_fault(graph, rows, candidate_id) == Some(
                "extraction audit candidate was not found"@,
            ) && promotion_fault(graph, rows, candidate_id) == Some(
                "extraction audit candidate was not found"@,
            ),
            Some(c) => {
                &&& reviewable(graph, c) <==> review_fault(graph, rows, candidate_id) is None
                &&& !reviewable(graph, c) ==> review_fault(graph, rows, candidate_id) == Some(
                    "extraction audit candidate sources are unavailable or mismatched"@,
                )
                &&& c.support != Some(AuditSupport::Supported) || c.contamination is Some
                    || c.reviewed_at is None ==> promotion_fault(graph, rows, candidate_id) == Some(
                    "candidate promotion requires a reviewed supported verdict with no contamination"@,
                )
                &&& c.support == Some(AuditSupport::Supported) && c.contamination is None
                    && c.reviewed_at is Some ==> promotion_fault(graph, rows, candidate_id)
                    == review_fault(graph, rows, candidate_id)
            },
        },
{
}

/// A relation whose promotion is refused tells the first reason: that it is not
/// there, that no auditor found it correct, that one of its ends is not there or
/// was not promoted, or that it leads elsewhere already.
pub proof fn refused_relations_are_told_why(
    facts: Seq<AtomicFact>,
    audit: ExtractionAuditResult,
    relation_id: u64,
)
    ensures
        match relation_in(audit.relations@, relation_id) {
            None => relation_fault(facts, audit, relation_id) == Some(
                invalid("extraction audit relation was not found"@),
            ),
            Some(rel) => {
                let fault = relation_fault(facts, audit, relation_id);
                let from = candidate_in(audit.candidates@, rel.candidate_from);
                let to = candidate_in(audit.candidates@, rel.candidate_to);
                if !(rel.verdict == Some(RelationVerdict::Correct) && rel.reviewed_at is Some) {
                    fault == Some(
                        invalid("relation promotion requires a reviewed correct verdict"@),
                    )
                } else if from is None {
                    fault == Some(invalid("relation source candidate was not found"@))
                } else if to is None {
                    fault == Some(invalid("relation target candidate was not found"@))
                } else if promoted(facts, from->0.idempotency_key@) is None {
                    fault == Some(invalid("relation source candidate is not promoted"@))
                } else if promoted(facts, to->0.idempotency_key@) is None {
                    fault == Some(invalid("relation target candidate is not promoted"@))
                } else {
                    let source = promoted(facts, from->0.idempotency_key@)->0;
                    let target = promoted(facts, to->0.idempotency_key@)->0;
                    let kept = meta_value(
                        source.metadata@,
                        "anamnesis:atomic-relation:"@ + decimal(relation_id as nat),
                    );
                    let value = relation_kind(rel.relation_type) + ":"@ + decimal(target.id as nat);
                    if kept is Some && kept->0 != value {
                        fault == Some(
                            failure(
                                "atomic relation "@ + decimal(relation_id as nat)
                                    + " conflicts with an existing target"@,
                            ),
                        )
                    } else {
                        fault is None
                    }
                }
            },
        },
{
}

/// A kind of relation goes by its name.
pub proof fn kinds_of_relation_go_by_their_name(kind: RelationKind)
    ensures
        kind == RelationKind::Reason ==> relation_kind(kind) == "reason"@,
        kind == RelationKind::Causal ==> relation_kind(kind) == "causal"@,
        kind == RelationKind::Contradicts ==> relation_kind(kind) == "contradicts"@,
        kind == RelationKind::Supports ==> relation_kind(kind) == "supports"@,
{
}

}
