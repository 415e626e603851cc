//! The vocabulary of extraction: what is read out of captured turns, how an
//! auditor judges it, and the rows under which it is kept for review.

use crate::text::{same, trim, trimmed};
use vstd::prelude::*;

verus! {

/// How far the sources bear a candidate out.
#[derive(Debug, Clone, Copy, PartialEq, Eq, Structural)]
pub enum AuditSupport {
    Supported,
    Partial,
    Unsupported,
}

/// What is wrong with a candidate.
#[derive(Debug, Clone, Copy, PartialEq, Eq, Structural)]
pub enum ContaminationCategory {
    UnsupportedClaim,
    PromptInjection,
    SecretReexposure,
    ForeignScope,
    ContradictsSource,
}

/// An auditor's judgement on a relation.
#[derive(Debug, Clone, Copy, PartialEq, Eq, Structural)]
pub enum RelationVerdict {
    Correct,
    WrongType,
    WrongDirection,
    Invalid,
}

/// How two extracted items hang together.
#[derive(Debug, Clone, Copy, PartialEq, Eq, Structural)]
pub enum RelationKind {
    Reason,
    Causal,
    Contradicts,
    Supports,
}

/// What an extracted item is.
#[derive(Debug, Clone, Copy, PartialEq, Eq, Structural)]
pub enum CandidateKind {
    Fact,
    Entity,
    Event,
    Preference,
    Decision,
    Causal,
    Lesson,
    Convention,
    Gotcha,
}

/// Why an extraction run failed.
#[derive(Debug, Clone, Copy, PartialEq, Eq, Structural)]
pub enum ExtractionErrorKind {
    Spawn,
    Timeout,
    InvalidJson,
    SchemaReject,
}

impl ExtractionErrorKind {
    /// The name under which the failure is recorded.
    pub open spec fn label(self) -> Seq<char> {
        match self {
            ExtractionErrorKind::Spawn => "spawn"@,
            ExtractionErrorKind::Timeout => "timeout"@,
            ExtractionErrorKind::InvalidJson => "invalid-json"@,
            ExtractionErrorKind::SchemaReject => "schema-reject"@,
        }
    }

    /// The name under which the failure is recorded.
    pub fn as_str(self) -> (r: &'static str)
        ensures
            r@ == self.label(),
    {
        match self {
            ExtractionErrorKind::Spawn => "spawn",
            ExtractionErrorKind::Timeout => "timeout",
            ExtractionErrorKind::InvalidJson => "invalid-json",
            ExtractionErrorKind::SchemaReject => "schema-reject",
        }
    }
}

/// What an extractor is made of, with the identifier derived from it.
#[derive(Debug, Clone, PartialEq, Eq)]
pub struct ExtractorProfileComponents {
    pub profile_id: String,
    pub model_id: String,
    pub schema_version: u32,
}

/// Where an extractor stands with its operator.
#[derive(Debug, Clone, Copy, PartialEq, Eq, Structural)]
pub enum ExtractionProfileStatus {
    Shadow,
    Approved,
    Revoked,
}

/// One captured turn, as it is handed to an extractor.
#[derive(Debug, Clone, PartialEq, Eq)]
pub struct ExtractionSource {
    pub node_id: u64,
    pub turn_key: String,
    pub session_id: String,
    pub scope: String,
    pub content: String,
    pub content_hash: String,
    pub at_ms: u64,
}

/// A source by its characters.
pub struct SourceView {
    pub node_id: u64,
    pub turn_key: Seq<char>,
    pub session_id: Seq<char>,
    pub scope: Seq<char>,
    pub content: Seq<char>,
    pub content_hash: Seq<char>,
    pub at_ms: u64,
}

impl View for ExtractionSource {
    type V = SourceView;

    open spec fn view(&self) -> SourceView {
        SourceView {
            node_id: self.node_id,
            turn_key: self.turn_key@,
            session_id: self.session_id@,
            scope: self.scope@,
            content: self.content@,
            content_hash: self.content_hash@,
            at_ms: self.at_ms,
        }
    }
}

impl ExtractionSource {
    /// Whether two sources are the same in every field.
    pub fn same_as(&self, other: &Self) -> (r: bool)
        ensures
            r == (self@ == other@),
    {
        self.node_id == other.node_id && self.turn_key == other.turn_key && self.session_id
            == other.session_id && self.scope == other.scope && self.content == other.content
            && self.content_hash == other.content_hash && self.at_ms == other.at_ms
    }
}

/// Whether the source of a candidate can still be shown to an auditor.
#[derive(Debug, Clone, Copy, PartialEq, Eq, Structural)]
pub enum ExtractionAuditSourceAvailability {
    Available,
    SourceUnavailable,
    SourceMismatch,
}

/// One source of a candidate, as an auditor sees it.
#[derive(Debug, Clone, PartialEq, Eq)]
pub struct ExtractionAuditSource {
    pub node_id: u64,
    pub turn_key: String,
    pub session_id: String,
    pub scope: String,
    pub content_hash: String,
    pub content: Option<String>,
    pub availability: ExtractionAuditSourceAvailability,
}

/// A source as an auditor sees it, by its characters.
pub struct AuditSourceView {
    pub node_id: u64,
    pub turn_key: Seq<char>,
    pub session_id: Seq<char>,
    pub scope: Seq<char>,
    pub content_hash: Seq<char>,
    pub content: Option<Seq<char>>,
    pub availability: ExtractionAuditSourceAvailability,
}

/// The characters of a text that may be absent.
pub open spec fn text_view(s: Option<String>) -> Option<Seq<char>> {
    match s {
        Some(t) => Some(t@),
        None => None,
    }
}

impl View for ExtractionAuditSource {
    type V = AuditSourceView;

    open spec fn view(&self) -> AuditSourceView {
        AuditSourceView {
            node_id: self.node_id,
            turn_key: self.turn_key@,
            session_id: self.session_id@,
            scope: self.scope@,
            content_hash: self.content_hash@,
            content: text_view(self.content),
            availability: self.availability,
        }
    }
}

/// A candidate as it is kept for review; the confidence is that of the item, as
/// the bits of a number.
#[derive(Debug, Clone, PartialEq, Eq)]
pub struct ExtractionAuditCandidateRow {
    pub id: u64,
    pub run_id: u64,
    pub profile_id: String,
    pub item_local_id: String,
    pub idempotency_key: String,
    pub content: String,
    pub kind: CandidateKind,
    pub confidence: u64,
    pub entity_tags: Vec<String>,
    pub subject: Option<String>,
    pub relation: Option<String>,
    pub object: Option<String>,
    pub evidence_object: Option<String>,
    pub evidence_span: Option<String>,
    pub evidence_source_node_id: Option<u64>,
    pub evidence_span_start: Option<u64>,
    pub evidence_span_end: Option<u64>,
    pub evidence_span_sha256: Option<String>,
    pub valid_from_ms: Option<u64>,
    pub valid_until_ms: Option<u64>,
    pub source_session_id: String,
    pub source_scope: String,
    pub source_turn_keys: Vec<String>,
    pub source_content_hashes: Vec<String>,
    pub source_node_ids: Vec<u64>,
    pub sources: Vec<ExtractionAuditSource>,
    pub support: Option<AuditSupport>,
    pub contamination: Option<ContaminationCategory>,
    pub reviewed_at: Option<u64>,
    pub reviewed_by: Option<String>,
}

/// A relation as it is kept for review.
#[derive(Debug, Clone, PartialEq, Eq)]
pub struct ExtractionAuditRelationRow {
    pub id: u64,
    pub run_id: u64,
    pub profile_id: String,
    pub from_item_local_id: String,
    pub to_item_local_id: String,
    pub candidate_from: u64,
    pub candidate_to: u64,
    pub relation_type: RelationKind,
    pub verdict: Option<RelationVerdict>,
    pub reviewed_at: Option<u64>,
    pub reviewed_by: Option<String>,
}

/// The rows that are kept for review.
#[derive(Debug, Clone, PartialEq, Eq)]
pub struct ExtractionAuditResult {
    pub candidates: Vec<ExtractionAuditCandidateRow>,
    pub relations: Vec<ExtractionAuditRelationRow>,
}

/// How staging an extraction ended.
#[derive(Debug, Clone, Copy, PartialEq, Eq, Structural)]
pub enum StageExtractionResult {
    Staged { run_id: u64 },
    AlreadyStaged { run_id: u64 },
}

/// One item of an extraction. The confidence is given by the bits of its
/// double-precision number.
#[derive(Debug, Clone, PartialEq, Eq)]
pub struct ExtractionItem {
    pub item_local_id: String,
    pub content: String,
    pub subject: Option<String>,
    pub relation: Option<String>,
    pub object: Option<String>,
    pub evidence_object: Option<String>,
    pub evidence_span: Option<String>,
    pub kind: CandidateKind,
    pub confidence: u64,
    pub entity_tags: Vec<String>,
    pub valid_from_ms: Option<u64>,
    pub valid_until_ms: Option<u64>,
    pub source_node_ids: Vec<u64>,
}

/// One relation of an extraction.
#[derive(Debug, Clone, PartialEq, Eq)]
pub struct ExtractionRelation {
    pub from_item_local_id: String,
    pub to_item_local_id: String,
    pub relation_type: RelationKind,
}

/// An extraction whose form was checked.
#[derive(Debug, Clone, PartialEq, Eq)]
pub struct ValidatedExtraction {
    pub items: Vec<ExtractionItem>,
    pub relations: Vec<ExtractionRelation>,
}

/// An item by its characters.
pub struct ItemView {
    pub item_local_id: Seq<char>,
    pub content: Seq<char>,
    pub subject: Option<Seq<char>>,
    pub relation: Option<Seq<char>>,
    pub object: Option<Seq<char>>,
    pub evidence_object: Option<Seq<char>>,
    pub evidence_span: Option<Seq<char>>,
    pub kind: CandidateKind,
    pub confidence: u64,
    pub entity_tags: Seq<Seq<char>>,
    pub valid_from_ms: Option<u64>,
    pub valid_until_ms: Option<u64>,
    pub source_node_ids: Seq<u64>,
}

impl View for ExtractionItem {
    type V = ItemView;

    open spec fn view(&self) -> ItemView {
        ItemView {
            item_local_id: self.item_local_id@,
            content: self.content@,
            subject: text_view(self.subject),
            relation: text_view(self.relation),
            object: text_view(self.object),
            evidence_object: text_view(self.evidence_object),
            evidence_span: text_view(self.evidence_span),
            kind: self.kind,
            confidence: self.confidence,
            entity_tags: crate::text::views(self.entity_tags@),
            valid_from_ms: self.valid_from_ms,
            valid_until_ms: self.valid_until_ms,
            source_node_ids: self.source_node_ids@,
        }
    }
}

impl View for ExtractionRelation {
    type V = (Seq<char>, Seq<char>, RelationKind);

    open spec fn view(&self) -> (Seq<char>, Seq<char>, RelationKind) {
        (self.from_item_local_id@, self.to_item_local_id@, self.relation_type)
    }
}

impl View for ValidatedExtraction {
    type V = (Seq<ItemView>, Seq<(Seq<char>, Seq<char>, RelationKind)>);

    open spec fn view(&self) -> (Seq<ItemView>, Seq<(Seq<char>, Seq<char>, RelationKind)>) {
        (
            self.items@.map_values(|i: ExtractionItem| i@),
            self.relations@.map_values(|r: ExtractionRelation| r@),
        )
    }
}

/// Whether two texts that may be absent are the same.
pub fn same_optional(a: &Option<String>, b: &Option<String>) -> (r: bool)
    ensures
        r == (text_view(*a) == text_view(*b)),
{
    match (a, b) {
        (Some(x), Some(y)) => same(x.as_str(), y.as_str()),
        (None, None) => true,
        _ => false,
    }
}

fn same_number(a: Option<u64>, b: Option<u64>) -> (r: bool)
    ensures
        r == (a == b),
{
    match (a, b) {
        (Some(x), Some(y)) => x == y,
        (None, None) => true,
        _ => false,
    }
}

fn same_texts(a: &Vec<String>, b: &Vec<String>) -> (r: bool)
    ensures
        r == (crate::text::views(a@) == crate::text::views(b@)),
{
    if a.len() != b.len() {
        assert(crate::text::views(a@).len() != crate::text::views(b@).len());
        return false;
    }
    let mut i: usize = 0;
    while i < a.len()
        invariant
            0 <= i <= a@.len() == b@.len(),
            forall|j: int| 0 <= j < i ==> (#[trigger] a@[j])@ == b@[j]@,
        decreases a@.len() - i,
    {
        if !same(a[i].as_str(), b[i].as_str()) {
            assert(crate::text::views(a@)[i as int] != crate::text::views(b@)[i as int]);
            return false;
        }
        i += 1;
    }
    assert(crate::text::views(a@) =~= crate::text::views(b@));
    true
}

fn same_ids(a: &Vec<u64>, b: &Vec<u64>) -> (r: bool)
    ensures
        r == (a@ == b@),
{
    if a.len() != b.len() {
        return false;
    }
    let mut i: usize = 0;
    while i < a.len()
        invariant
            0 <= i <= a@.len() == b@.len(),
            forall|j: int| 0 <= j < i ==> #[trigger] a@[j] == b@[j],
        decreases a@.len() - i,
    {
        if a[i] != b[i] {
            return false;
        }
        i += 1;
    }
    assert(a@ =~= b@);
    true
}

fn same_item(a: &ExtractionItem, b: &ExtractionItem) -> (r: bool)
    ensures
        r == (a@ == b@),
{
    same(a.item_local_id.as_str(), b.item_local_id.as_str()) && same(
        a.content.as_str(),
        b.content.as_str(),
    ) && same_optional(&a.subject, &b.subject) && same_optional(&a.relation, &b.relation)
        && same_optional(&a.object, &b.object) && same_optional(
        &a.evidence_object,
        &b.evidence_object,
    ) && same_optional(&a.evidence_span, &b.evidence_span) && a.kind == b.kind && a.confidence
        == b.confidence && same_texts(&a.entity_tags, &b.entity_tags) && same_number(
        a.valid_from_ms,
        b.valid_from_ms,
    ) && same_number(a.valid_until_ms, b.valid_until_ms) && same_ids(
        &a.source_node_ids,
        &b.source_node_ids,
    )
}

fn same_relation(a: &ExtractionRelation, b: &ExtractionRelation) -> (r: bool)
    ensures
        r == (a@ == b@),
{
    same(a.from_item_local_id.as_str(), b.from_item_local_id.as_str()) && same(
        a.to_item_local_id.as_str(),
        b.to_item_local_id.as_str(),
    ) && a.relation_type == b.relation_type
}

impl ValidatedExtraction {
    /// Whether two extractions hold the same items and relations, in order.
    pub fn same_as(&self, other: &Self) -> (r: bool)
        ensures
            r == (self@ == other@),
    {
        let ghost a = self.items@.map_values(|i: ExtractionItem| i@);
        let ghost b = other.items@.map_values(|i: ExtractionItem| i@);
        let ghost c = self.relations@.map_values(|r: ExtractionRelation| r@);
        let ghost d = other.relations@.map_values(|r: ExtractionRelation| r@);
        if self.items.len() != other.items.len() {
            assert(a.len() != b.len());
            return false;
        }
        if self.relations.len() != other.relations.len() {
            assert(c.len() != d.len());
            return false;
        }
        let mut i: usize = 0;
        while i < self.items.len()
            invariant
                0 <= i <= self.items@.len() == other.items@.len(),
                a == self.items@.map_values(|i: ExtractionItem| i@),
                b == other.items@.map_values(|i: ExtractionItem| i@),
                forall|j: int| 0 <= j < i ==> #[trigger] a[j] == b[j],
            decreases self.items@.len() - i,
        {
            if !same_item(&self.items[i], &other.items[i]) {
                assert(a[i as int] != b[i as int]);
                return false;
            }
            i += 1;
        }
        assert(a =~= b);
        let mut k: usize = 0;
        while k < self.relations.len()
            invariant
                0 <= k <= self.relations@.len() == other.relations@.len(),
                c == self.relations@.map_values(|r: ExtractionRelation| r@),
                d == other.relations@.map_values(|r: ExtractionRelation| r@),
                forall|j: int| 0 <= j < k ==> #[trigger] c[j] == d[j],
            decreases self.relations@.len() - k,
        {
            if !same_relation(&self.relations[k], &other.relations[k]) {
                assert(c[k as int] != d[k as int]);
                return false;
            }
            k += 1;
        }
        assert(c =~= d);
        true
    }
}

/// The name under which a review is recorded: the given one without white
/// space around it, or the fallback where nothing is left.
pub fn resolve_reviewer(reviewer: Option<&str>, fallback: &str) -> (r: String)
    ensures
        r@ == (match reviewer {
            Some(name) => if trim(name@).len() > 0 {
                trim(name@)
            } else {
                fallback@
            },
            None => fallback@,
        }),
{
    match reviewer {
        Some(name) => {
            let t = trimmed(name);
            if t.as_str().is_empty() {
                fallback.to_owned()
            } else {
                t
            }
        },
        None => fallback.to_owned(),
    }
}

/// A failure is recorded under the name of its kind.
pub proof fn failures_go_by_their_name(kind: ExtractionErrorKind)
    ensures
        kind == ExtractionErrorKind::Spawn ==> kind.label() == "spawn"@,
        kind == ExtractionErrorKind::Timeout ==> kind.label() == "timeout"@,
        kind == ExtractionErrorKind::InvalidJson ==> kind.label() == "invalid-json"@,
        kind == ExtractionErrorKind::SchemaReject ==> kind.label() == "schema-reject"@,
{
}

/// Two sources count as the same only where every field of the one is that of the
/// other.
pub proof fn same_sources_agree_in_every_field(a: ExtractionSource, b: ExtractionSource)
    ensures
        a@ == b@ <==> a.node_id == b.node_id && a.turn_key@ == b.turn_key@ && a.session_id@
            == b.session_id@ && a.scope@ == b.scope@ && a.content@ == b.content@ && a.content_hash@
            == b.content_hash@ && a.at_ms == b.at_ms,
{
}

/// So do two sources as an auditor sees them.
pub proof fn same_audit_sources_agree_in_every_field(
    a: ExtractionAuditSource,
    b: ExtractionAuditSource,
)
    ensures
        a@ == b@ <==> a.node_id == b.node_id && a.turn_key@ == b.turn_key@ && a.session_id@
            == b.session_id@ && a.scope@ == b.scope@ && text_view(a.content) == text_view(b.content)
            && a.content_hash@ == b.content_hash@ && a.availability == b.availability,
        a.content is None ==> text_view(a.content) is None,
        a.content matches Some(t) ==> text_view(a.content) == Some(t@),
{
}

/// Two items count as the same only where every field of the one is that of the
/// other.
pub proof fn same_items_agree_in_every_field(a: ExtractionItem, b: ExtractionItem)
    ensures
        a@ == b@ <==> {
            &&& a.item_local_id@ == b.item_local_id@
            &&& a.content@ == b.content@
            &&& text_view(a.subject) == text_view(b.subject)
            &&& text_view(a.relation) == text_view(b.relation)
            &&& text_view(a.object) == text_view(b.object)
            &&& text_view(a.evidence_object) == text_view(b.evidence_object)
            &&& text_view(a.evidence_span) == text_view(b.evidence_span)
            &&& a.kind == b.kind
            &&& a.confidence == b.confidence
            &&& crate::text::views(a.entity_tags@) == crate::text::views(b.entity_tags@)
            &&& a.valid_from_ms == b.valid_from_ms
            &&& a.valid_until_ms == b.valid_until_ms
            &&& a.source_node_ids@ == b.source_node_ids@
        },
{
}

/// Two extractions count as the same only where their items and their relations
/// are the same, one for one.
pub proof fn same_extractions_agree_in_every_entry(a: ValidatedExtraction, b: ValidatedExtraction)
    ensures
        a@ == b@ <==> {
            &&& a.items@.len() == b.items@.len()
            &&& forall|i: int| 0 <= i < a.items@.len() ==> (#[trigger] a.items@[i])@ == b.items@[i]@
            &&& a.relations@.len() == b.relations@.len()
            &&& forall|i: int|
                0 <= i < a.relations@.len() ==> {
                    let x = #[trigger] a.relations@[i];
                    let y = b.relations@[i];
                    x.from_item_local_id@ == y.from_item_local_id@ && x.to_item_local_id@
                        == y.to_item_local_id@ && x.relation_type == y.relation_type
                }
        },
{
    let p = a.items@.map_values(|i: ExtractionItem| i@);
    let q = b.items@.map_values(|i: ExtractionItem| i@);
    let r = a.relations@.map_values(|r: ExtractionRelation| r@);
    let s = b.relations@.map_values(|r: ExtractionRelation| r@);
    if a@ == b@ {
        assert(p == q && r == s);
        assert(p.len() == q.len() && r.len() == s.len());
        assert forall|i: int| 0 <= i < a.items@.len() implies (#[trigger] a.items@[i])@
            == b.items@[i]@ by {
            assert(p[i] == q[i]);
        }
        assert forall|i: int| 0 <= i < a.relations@.len() implies ({
            let x = #[trigger] a.relations@[i];
            let y = b.relations@[i];
            x.from_item_local_id@ == y.from_item_local_id@ && x.to_item_local_id@
                == y.to_item_local_id@ && x.relation_type == y.relation_type
        }) by {
            assert(r[i] == s[i]);
        }
    } else {
        if a.items@.len() == b.items@.len() && a.relations@.len() == b.relations@.len() && (forall|
            i: int,
        |
            0 <= i < a.items@.len() ==> (#[trigger] a.items@[i])@ == b.items@[i]@) && (forall|
            i: int,
        |
            0 <= i < a.relations@.len() ==> {
                let x = #[trigger] a.relations@[i];
                let y = b.relations@[i];
                x.from_item_local_id@ == y.from_item_local_id@ && x.to_item_local_id@
                    == y.to_item_local_id@ && x.relation_type == y.relation_type
            }) {
            assert(p =~= q);
            assert(r =~= s);
        }
    }
}

}
