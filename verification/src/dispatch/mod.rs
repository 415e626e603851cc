//! Answering requests.
//!
//! A request is answered in up to three phases, so that the registry is never
//! held while the store works. `dispatch_registry` and `opened` run under the
//! registry: they count, decide and say what is to be done. The store then
//! works without the registry. The functions named `finish_..` and
//! `commit_recall` run under the registry again: they count what came of it
//! and give the reply.

use crate::delivery::{batch_size, first_ids, indexed, later_ids, pending_json};
use crate::extract::{
    text_view, AuditSupport, ContaminationCategory, ExtractionErrorKind, ExtractionSource,
    ExtractorProfileComponents, RelationVerdict, ValidatedExtraction,
};
use crate::memory::{MemoryRegistry, NamespaceKey, Ops, RegistryView};
use crate::notes::{
    bad_filter, build_note_options, decision_views, decisions, filter_capture_decisions,
    parse_metadata_filter, parse_relation, read_scope, relation_of, requested_scope, requested_tags,
    unknown_relation, NoteOptions, Relation, TurnDecision,
};
use crate::proto::{
    failure, invalid, success, EngineError, EngineErrorKind, ErrKind, RecallEventKind, Reply,
    Request, Response, TurnInput,
};
use crate::scope::ScopePath;
use crate::store::Graph;
use crate::text::{split_once, views};
use vstd::prelude::*;

pub mod account;
pub mod enrich;
pub mod extract;
pub mod finish;
pub mod graph;
pub mod laws;
pub mod payload;
pub mod promote;
pub mod render;
pub mod requests;
pub mod reviews;
pub mod runtime;
pub mod scan;
pub mod shown;

verus! {

/// A recall that is to be made.
#[derive(Debug)]
pub struct RecallJob {
    pub query: String,
    pub limit: usize,
    pub reinforce: bool,
    pub gate_threshold: Option<u64>,
    pub cosine_gate: Option<u64>,
    pub knowledge_only: bool,
    pub scope: Option<String>,
    pub tag: Option<String>,
    pub event_kind: RecallEventKind,
}

/// A note that is to be stored.
#[derive(Debug)]
pub struct RememberJob {
    pub content: String,
    pub options: NoteOptions,
}

/// Two nodes that are to be linked.
#[derive(Debug)]
pub struct RelateJob {
    pub from_id: u64,
    pub to_id: u64,
    pub label: String,
    pub relation: Relation,
}

/// A conversation that is to be stored.
#[derive(Debug)]
pub struct IngestJob {
    pub session: String,
    pub turns: Vec<TurnInput>,
    pub capture: bool,
    pub scope: ScopePath,
}

/// Memories that are to be listed; the metadata filter as it was given.
#[derive(Debug)]
pub struct ListJob {
    pub min_salience: Option<u64>,
    pub limit: usize,
    pub node_type: Option<String>,
    pub tag: Option<String>,
    pub scope: Option<String>,
    pub metadata: Option<String>,
}

/// Memories that are to be listed; the metadata filter by key and value, and
/// the least salience as the bits of a number.
#[derive(Debug)]
pub struct ListFilter {
    pub min_salience: u64,
    pub limit: usize,
    pub node_type: Option<String>,
    pub tag: Option<String>,
    pub scope: Option<String>,
    pub metadata: Option<(String, String)>,
}

/// Where a part of the graph is to be shown from.
#[derive(Debug)]
pub enum GraphStart {
    Seeds { ids: Vec<u64> },
    Query { text: String },
}

/// What the store is to be asked.
#[derive(Debug)]
pub enum Job {
    Recall { job: RecallJob },
    Remember { job: RememberJob },
    Relate { job: RelateJob },
    Ingest { job: IngestJob },
    Stats { recall: bool },
    Pull { limit: Option<u32> },
    Scan { profile: ExtractorProfileComponents, min_turns: u32, max_turns: u32 },
    Stage {
        profile: ExtractorProfileComponents,
        llm_duration_ms: u64,
        sources: Vec<ExtractionSource>,
        extraction: ValidatedExtraction,
    },
    RecordFailure {
        profile: ExtractorProfileComponents,
        turn_count: u32,
        llm_invoked: bool,
        error_kind: ExtractionErrorKind,
        duration_ms: u64,
    },
    AuditList { limit: u32 },
    CandidateAudit {
        candidate_id: u64,
        support: AuditSupport,
        contamination: Option<ContaminationCategory>,
        reviewer: String,
    },
    RelationAudit { relation_id: u64, verdict: RelationVerdict, reviewer: String },
    PromoteCandidate { candidate_id: u64 },
    PromoteRelation { relation_id: u64 },
    Update { id: u64, new_content: String },
    Forget { id: u64, reason: String, hard: bool },
    Supersede { new_id: u64, old_id: u64 },
    List { job: ListJob },
    Get { id: u64 },
    Graph { start: GraphStart, depth: u32, budget: u32 },
}

/// What the store is to do, without the registry.
#[derive(Debug)]
pub enum Work {
    /// What a request asks for as it stands.
    Run { job: Job },
    /// Store the turns that are new.
    Ingest { session: String, scope: ScopePath, turns: Vec<TurnDecision> },
    /// Deliver these turns, which have left the queue.
    Deliver { claimed: Vec<u64> },
    /// List the memories that pass the filter.
    List { filter: ListFilter },
}

/// How a request goes on.
#[derive(Debug)]
pub enum Step {
    /// It is answered.
    Reply { response: Response },
    /// The namespace is to be opened, with its policy store where `policy`
    /// says so; `opened` goes on from there.
    Open { key: NamespaceKey, policy: bool, job: Job },
    /// The store is to work on the namespace.
    Work { key: NamespaceKey, work: Work },
}

/// Whether a step is the given reply.
pub open spec fn replies(step: Step, reply: Reply) -> bool {
    step matches Step::Reply { response } && response@ == reply
}

/// Whether a step asks to open a namespace for the given job.
pub open spec fn opens(step: Step, key: Seq<char>, policy: bool, job: Job) -> bool {
    step matches Step::Open { key: k, policy: p, job: j } && k@ == key && p == policy && j == job
}

/// The number of memories that a recall looks for where it names none.
pub const DEFAULT_RECALL_LIMIT: u32 = 20;

/// The number of memories that a list shows where it names none.
pub const DEFAULT_LIST_LIMIT: u32 = 100;

/// The least salience that a list asks for where it names none: zero, as the
/// bits of a number.
pub const DEFAULT_MIN_SALIENCE: u64 = 0;

/// The number of rows that a review lists where it names none.
pub const DEFAULT_AUDIT_LIMIT: u32 = 100;

/// The number of nodes that a part of the graph shows where it names none.
pub const DEFAULT_GRAPH_BUDGET: u32 = 250;

/// The number of nodes that a part of the graph shows at most.
pub const MAX_GRAPH_BUDGET: u32 = 2000;

/// How far a part of the graph reaches where it does not say.
pub const DEFAULT_GRAPH_DEPTH: u32 = 1;

/// How far a part of the graph reaches at most.
pub const MAX_GRAPH_DEPTH: u32 = 3;

/// What follows an optional value, or the default.
pub open spec fn or_default<T>(v: Option<T>, default: T) -> T {
    match v {
        Some(x) => x,
        None => default,
    }
}

/// The smaller of a value and its cap.
pub open spec fn capped(v: u32, cap: u32) -> u32 {
    if v < cap {
        v
    } else {
        cap
    }
}

/// Whether a recall strengthens what it finds: as it says, or else by default.
pub open spec fn reinforcing(reinforce: Option<bool>, default: bool) -> bool {
    or_default(reinforce, default)
}

/// The counters after a recall was asked for.
pub open spec fn recall_counted(ops: Ops, reinforces: bool) -> Ops {
    Ops {
        recalls: (ops.recalls + 1) as u64,
        reinforcing_recalls: if reinforces {
            (ops.reinforcing_recalls + 1) as u64
        } else {
            ops.reinforcing_recalls
        },
        ..ops
    }
}

/// The counters after a note was to be stored.
pub open spec fn remember_counted(ops: Ops) -> Ops {
    Ops { remembers: (ops.remembers + 1) as u64, ..ops }
}

/// The counters after two nodes were to be linked.
pub open spec fn relate_counted(ops: Ops) -> Ops {
    Ops { relates: (ops.relates + 1) as u64, ..ops }
}

/// The counters after turns were to be delivered.
pub open spec fn pull_counted(ops: Ops) -> Ops {
    Ops { extraction_pulls: (ops.extraction_pulls + 1) as u64, ..ops }
}

/// How a recall begins: it is counted, and its namespace opened with its
/// policy store.
pub open spec fn recall_begun(
    before: RegistryView,
    query: String,
    limit: Option<u32>,
    namespace: Option<String>,
    reinforce: Option<bool>,
    gate_threshold: Option<u64>,
    cosine_gate: Option<u64>,
    knowledge_only: Option<bool>,
    scope: Option<String>,
    tag: Option<String>,
    event_kind: Option<RecallEventKind>,
    after: RegistryView,
    step: Step,
) -> bool {
    let reinforces = reinforcing(reinforce, before.reinforce_on_recall);
    &&& after == before.with_ops(recall_counted(before.ops, reinforces))
    &&& opens(
        step,
        before.key(text_view(namespace)),
        true,
        Job::Recall {
            job: RecallJob {
                query,
                limit: or_default(limit, DEFAULT_RECALL_LIMIT) as usize,
                reinforce: reinforces,
                gate_threshold,
                cosine_gate,
                knowledge_only: or_default(knowledge_only, false),
                scope,
                tag,
                event_kind: or_default(event_kind, RecallEventKind::Unknown),
            },
        },
    )
}

/// How storing a note begins: it is counted; a bad scope is the caller's
/// fault, and otherwise the namespace is opened.
pub open spec fn remember_begun(
    before: RegistryView,
    content: String,
    namespace: Option<String>,
    tags: Option<Vec<String>>,
    metadata: Option<Vec<(String, String)>>,
    scope: Option<String>,
    after: RegistryView,
    step: Step,
) -> bool {
    let counted = before.with_ops(remember_counted(before.ops));
    match requested_scope(scope) {
        Err(message) => after == counted.with_ops(counted.ops.failed()) && replies(
            step,
            invalid(message),
        ),
        Ok(path) => {
            &&& after == counted
            &&& step matches Step::Open { key, policy, job: Job::Remember { job } }
            &&& key@ == before.key(text_view(namespace))
            &&& !policy
            &&& job.content == content
            &&& views(job.options.tags@) == requested_tags(tags)
            &&& job.options.metadata@ == (match metadata {
                Some(m) => m@,
                None => Seq::empty(),
            })
            &&& job.options.scope@ == path
        },
    }
}

/// How linking two nodes begins: it is counted; an unknown relation is the
/// caller's fault, and otherwise the namespace is opened.
pub open spec fn relate_begun(
    before: RegistryView,
    from_id: u64,
    to_id: u64,
    relation: String,
    namespace: Option<String>,
    after: RegistryView,
    step: Step,
) -> bool {
    let counted = before.with_ops(relate_counted(before.ops));
    match relation_of(relation@) {
        None => after == counted.with_ops(counted.ops.failed()) && replies(
            step,
            invalid(unknown_relation(relation@)),
        ),
        Some(parsed) => {
            &&& after == counted
            &&& step matches Step::Open { key, policy, job: Job::Relate { job } }
            &&& key@ == before.key(text_view(namespace))
            &&& !policy
            &&& job.from_id == from_id
            &&& job.to_id == to_id
            &&& job.label == relation
            &&& job.relation@ == parsed
        },
    }
}

/// How storing a conversation begins: a bad scope is the caller's fault, and
/// otherwise the namespace is opened.
pub open spec fn ingest_begun(
    before: RegistryView,
    session: String,
    turns: Vec<TurnInput>,
    namespace: Option<String>,
    capture: Option<bool>,
    scope: Option<String>,
    after: RegistryView,
    step: Step,
) -> bool {
    match requested_scope(scope) {
        Err(message) => after == before.with_ops(before.ops.ingest_failed()) && replies(
            step,
            invalid(message),
        ),
        Ok(path) => {
            &&& after == before
            &&& step matches Step::Open { key, policy, job: Job::Ingest { job } }
            &&& key@ == before.key(text_view(namespace))
            &&& !policy
            &&& job.session == session
            &&& job.turns == turns
            &&& job.capture == or_default(capture, false)
            &&& job.scope@ == path
        },
    }
}

/// What to tell a caller who says neither where to start nor what to look for.
pub open spec fn no_graph_start() -> Seq<char> {
    "graph requires seed(s) or q"@
}

/// How showing a part of the graph begins: it starts from what a query finds,
/// or else from the given nodes; without either it is the caller's fault.
pub open spec fn graph_begun(
    before: RegistryView,
    seeds: Option<Vec<u64>>,
    query: Option<String>,
    depth: Option<u32>,
    limit: Option<u32>,
    namespace: Option<String>,
    after: RegistryView,
    step: Step,
) -> bool {
    let (d, b) = (
        capped(or_default(depth, DEFAULT_GRAPH_DEPTH), MAX_GRAPH_DEPTH),
        capped(or_default(limit, DEFAULT_GRAPH_BUDGET), MAX_GRAPH_BUDGET),
    );
    let key = before.key(text_view(namespace));
    if query is Some {
        &&& after == before
        &&& opens(
            step,
            key,
            false,
            Job::Graph { start: GraphStart::Query { text: query->0 }, depth: d, budget: b },
        )
    } else if seeds is Some && seeds->0@.len() > 0 {
        &&& after == before
        &&& opens(
            step,
            key,
            false,
            Job::Graph { start: GraphStart::Seeds { ids: seeds->0 }, depth: d, budget: b },
        )
    } else {
        &&& after == before.with_ops(before.ops.failed())
        &&& replies(step, invalid(no_graph_start()))
    }
}

/// How any request begins: what it changes in the registry, and how it goes
/// on.
pub open spec fn begun(before: RegistryView, req: Request, after: RegistryView, step: Step) -> bool {
    match req {
        Request::Recall {
            query,
            limit,
            namespace,
            reinforce,
            gate_threshold,
            cosine_gate,
            knowledge_only,
            scope,
            tag,
            event_kind,
        } => recall_begun(
            before,
            query,
            limit,
            namespace,
            reinforce,
            gate_threshold,
            cosine_gate,
            knowledge_only,
            scope,
            tag,
            event_kind,
            after,
            step,
        ),
        Request::Remember { content, namespace, tags, metadata, scope } => remember_begun(
            before,
            content,
            namespace,
            tags,
            metadata,
            scope,
            after,
            step,
        ),
        Request::Relate { from_id, to_id, relation, namespace } => relate_begun(
            before,
            from_id,
            to_id,
            relation,
            namespace,
            after,
            step,
        ),
        Request::Ingest { session, turns, namespace, capture, scope } => ingest_begun(
            before,
            session,
            turns,
            namespace,
            capture,
            scope,
            after,
            step,
        ),
        Request::Stats { namespace, recall } => after == before && opens(
            step,
            before.key(text_view(namespace)),
            recall == Some(true),
            Job::Stats { recall: recall == Some(true) },
        ),
        Request::PullPending { limit, namespace } => {
            &&& after == before.with_ops(pull_counted(before.ops))
            &&& opens(step, before.key(text_view(namespace)), false, Job::Pull { limit })
        },
        Request::ExtractionStatus { namespace } => after == before && replies(
            step,
            success(pending_json(before.queue(before.key(text_view(namespace))).len())),
        ),
        Request::ExtractionScan { namespace, profile, min_turns, max_turns } => after == before
            && opens(
            step,
            before.key(text_view(namespace)),
            true,
            Job::Scan { profile, min_turns, max_turns },
        ),
        Request::StageExtraction { namespace, profile, llm_duration_ms, sources, extraction } => after
            == before && opens(
            step,
            before.key(text_view(namespace)),
            true,
            Job::Stage { profile, llm_duration_ms, sources, extraction },
        ),
        Request::RecordExtractionFailure {
            namespace,
            profile,
            turn_count,
            llm_invoked,
            error_kind,
            duration_ms,
        } => after == before && opens(
            step,
            before.key(text_view(namespace)),
            true,
            Job::RecordFailure { profile, turn_count, llm_invoked, error_kind, duration_ms },
        ),
        Request::ExtractionAuditList { namespace, limit } => after == before && opens(
            step,
            before.key(text_view(namespace)),
            true,
            Job::AuditList { limit: or_default(limit, DEFAULT_AUDIT_LIMIT) },
        ),
        Request::UpdateExtractionCandidateAudit {
            namespace,
            candidate_id,
            support,
            contamination,
            reviewer,
        } => after == before && opens(
            step,
            before.key(text_view(namespace)),
            true,
            Job::CandidateAudit { candidate_id, support, contamination, reviewer },
        ),
        Request::UpdateExtractionRelationAudit { namespace, relation_id, verdict, reviewer } => after
            == before && opens(
            step,
            before.key(text_view(namespace)),
            true,
            Job::RelationAudit { relation_id, verdict, reviewer },
        ),
        Request::Update { id, new_content, namespace } => after == before && opens(
            step,
            before.key(text_view(namespace)),
            false,
            Job::Update { id, new_content },
        ),
        Request::Forget { id, reason, hard, namespace } => {
            &&& after == before
            &&& step matches Step::Open { key, policy, job: Job::Forget { id: i, reason: r, hard: h } }
            &&& key@ == before.key(text_view(namespace))
            &&& !policy
            &&& i == id
            &&& h == or_default(hard, false)
            &&& r@ == (match reason {
                Some(given) => given@,
                None => "forgotten via MCP"@,
            })
        },
        Request::Supersede { new_id, old_id, namespace } => after == before && opens(
            step,
            before.key(text_view(namespace)),
            false,
            Job::Supersede { new_id, old_id },
        ),
        Request::List { min_salience, limit, node_type, tag, namespace, scope, metadata } => after
            == before && opens(
            step,
            before.key(text_view(namespace)),
            false,
            Job::List {
                job: ListJob {
                    min_salience,
                    limit: or_default(limit, DEFAULT_LIST_LIMIT) as usize,
                    node_type,
                    tag,
                    scope,
                    metadata,
                },
            },
        ),
        Request::Get { id, namespace } => after == before && opens(
            step,
            before.key(text_view(namespace)),
            false,
            Job::Get { id },
        ),
        Request::Graph { seeds, query, depth, limit, namespace } => graph_begun(
            before,
            seeds,
            query,
            depth,
            limit,
            namespace,
            after,
            step,
        ),
    }
}

fn key_for(registry: &MemoryRegistry, namespace: &Option<String>) -> (r: NamespaceKey)
    ensures
        r@ == registry@.key(text_view(*namespace)),
{
    match namespace {
        Some(n) => registry.canonical_ns_key(Some(n.as_str())),
        None => registry.canonical_ns_key(None),
    }
}

fn begin_recall(
    registry: &mut MemoryRegistry,
    query: String,
    limit: Option<u32>,
    namespace: Option<String>,
    reinforce: Option<bool>,
    gate_threshold: Option<u64>,
    cosine_gate: Option<u64>,
    knowledge_only: Option<bool>,
    scope: Option<String>,
    tag: Option<String>,
    event_kind: Option<RecallEventKind>,
) -> (step: Step)
    requires
        old(registry)@.ops.room(),
    ensures
        recall_begun(
            old(registry)@,
            query,
            limit,
            namespace,
            reinforce,
            gate_threshold,
            cosine_gate,
            knowledge_only,
            scope,
            tag,
            event_kind,
            final(registry)@,
            step,
        ),
{
    let limit: usize = match limit {
        Some(l) => l as usize,
        None => DEFAULT_RECALL_LIMIT as usize,
    };
    let reinforces = match reinforce {
        Some(r) => r,
        None => registry.reinforces(),
    };
    let mut ops = registry.ops();
    ops.recalls = ops.recalls + 1;
    if reinforces {
        ops.reinforcing_recalls = ops.reinforcing_recalls + 1;
    }
    registry.set_ops(ops);
    let key = key_for(registry, &namespace);
    let job = RecallJob {
        query,
        limit,
        reinforce: reinforces,
        gate_threshold,
        cosine_gate,
        knowledge_only: match knowledge_only {
            Some(k) => k,
            None => false,
        },
        scope,
        tag,
        event_kind: match event_kind {
            Some(k) => k,
            None => RecallEventKind::Unknown,
        },
    };
    Step::Open { key, policy: true, job: Job::Recall { job } }
}

fn begin_remember(
    registry: &mut MemoryRegistry,
    content: String,
    namespace: Option<String>,
    tags: Option<Vec<String>>,
    metadata: Option<Vec<(String, String)>>,
    scope: Option<String>,
) -> (step: Step)
    requires
        old(registry)@.ops.room(),
    ensures
        remember_begun(
            old(registry)@,
            content,
            namespace,
            tags,
            metadata,
            scope,
            final(registry)@,
            step,
        ),
{
    let mut ops = registry.ops();
    ops.remembers = ops.remembers + 1;
    registry.set_ops(ops);
    match build_note_options(tags, metadata, scope) {
        Ok(options) => {
            let key = key_for(registry, &namespace);
            let job = RememberJob { content, options };
            Step::Open { key, policy: false, job: Job::Remember { job } }
        },
        Err(message) => {
            ops.dispatch_errors = ops.dispatch_errors + 1;
            registry.set_ops(ops);
            Step::Reply { response: Response::invalid_params(message) }
        },
    }
}

fn begin_relate(
    registry: &mut MemoryRegistry,
    from_id: u64,
    to_id: u64,
    relation: String,
    namespace: Option<String>,
) -> (step: Step)
    requires
        old(registry)@.ops.room(),
    ensures
        relate_begun(
            old(registry)@,
            from_id,
            to_id,
            relation,
            namespace,
            final(registry)@,
            step,
        ),
{
    let mut ops = registry.ops();
    ops.relates = ops.relates + 1;
    registry.set_ops(ops);
    match parse_relation(relation.as_str()) {
        Ok(parsed) => {
            let key = key_for(registry, &namespace);
            let job = RelateJob { from_id, to_id, label: relation, relation: parsed };
            Step::Open { key, policy: false, job: Job::Relate { job } }
        },
        Err(message) => {
            ops.dispatch_errors = ops.dispatch_errors + 1;
            registry.set_ops(ops);
            Step::Reply { response: Response::invalid_params(message) }
        },
    }
}

fn count_ingest_failure(registry: &mut MemoryRegistry)
    requires
        old(registry)@.ops.room(),
    ensures
        final(registry)@ == old(registry)@.with_ops(old(registry)@.ops.ingest_failed()),
{
    let mut ops = registry.ops();
    ops.dispatch_errors = ops.dispatch_errors + 1;
    ops.ingest_errors = ops.ingest_errors + 1;
    registry.set_ops(ops);
}

fn begin_ingest(
    registry: &mut MemoryRegistry,
    session: String,
    turns: Vec<TurnInput>,
    namespace: Option<String>,
    capture: Option<bool>,
    scope: Option<String>,
) -> (step: Step)
    requires
        old(registry)@.ops.room(),
    ensures
        ingest_begun(
            old(registry)@,
            session,
            turns,
            namespace,
            capture,
            scope,
            final(registry)@,
            step,
        ),
{
    match read_scope(&scope) {
        Ok(path) => {
            let key = key_for(registry, &namespace);
            let job = IngestJob {
                session,
                turns,
                capture: match capture {
                    Some(c) => c,
                    None => false,
                },
                scope: path,
            };
            Step::Open { key, policy: false, job: Job::Ingest { job } }
        },
        Err(message) => {
            count_ingest_failure(registry);
            Step::Reply { response: Response::invalid_params(message) }
        },
    }
}

/// The number of nodes that a part of the graph shows.
pub fn graph_budget(limit: Option<u32>) -> (r: u32)
    ensures
        r == capped(or_default(limit, DEFAULT_GRAPH_BUDGET), MAX_GRAPH_BUDGET),
{
    let wanted: u32 = match limit {
        Some(l) => l,
        None => DEFAULT_GRAPH_BUDGET,
    };
    if wanted < MAX_GRAPH_BUDGET {
        wanted
    } else {
        MAX_GRAPH_BUDGET
    }
}

fn begin_graph(
    registry: &mut MemoryRegistry,
    seeds: Option<Vec<u64>>,
    query: Option<String>,
    depth: Option<u32>,
    limit: Option<u32>,
    namespace: Option<String>,
) -> (step: Step)
    requires
        old(registry)@.ops.room(),
    ensures
        graph_begun(
            old(registry)@,
            seeds,
            query,
            depth,
            limit,
            namespace,
            final(registry)@,
            step,
        ),
{
    let key = key_for(registry, &namespace);
    let budget = graph_budget(limit);
    let wanted: u32 = match depth {
        Some(d) => d,
        None => DEFAULT_GRAPH_DEPTH,
    };
    let depth: u32 = if wanted < MAX_GRAPH_DEPTH {
        wanted
    } else {
        MAX_GRAPH_DEPTH
    };
    if let Some(text) = query {
        return Step::Open {
            key,
            policy: false,
            job: Job::Graph { start: GraphStart::Query { text }, depth, budget },
        };
    }
    if let Some(ids) = seeds {
        if ids.len() > 0 {
            return Step::Open {
                key,
                policy: false,
                job: Job::Graph { start: GraphStart::Seeds { ids }, depth, budget },
            };
        }
    }
    registry.count_failure();
    Step::Reply { response: Response::invalid_params("graph requires seed(s) or q".to_owned()) }
}

/// Begins to answer a request.
pub fn dispatch_registry(registry: &mut MemoryRegistry, req: Request) -> (step: Step)
    requires
        old(registry)@.ops.room(),
    ensures
        begun(old(registry)@, req, final(registry)@, step),
{
    match req {
        Request::Recall {
            query,
            limit,
            namespace,
            reinforce,
            gate_threshold,
            cosine_gate,
            knowledge_only,
            scope,
            tag,
            event_kind,
        } => begin_recall(
            registry,
            query,
            limit,
            namespace,
            reinforce,
            gate_threshold,
            cosine_gate,
            knowledge_only,
            scope,
            tag,
            event_kind,
        ),
        Request::Remember { content, namespace, tags, metadata, scope } => begin_remember(
            registry,
            content,
            namespace,
            tags,
            metadata,
            scope,
        ),
        Request::Relate { from_id, to_id, relation, namespace } => begin_relate(
            registry,
            from_id,
            to_id,
            relation,
            namespace,
        ),
        Request::Ingest { session, turns, namespace, capture, scope } => begin_ingest(
            registry,
            session,
            turns,
            namespace,
            capture,
            scope,
        ),
        Request::Stats { namespace, recall } => {
            let wanted = match recall {
                Some(r) => r,
                None => false,
            };
            let key = key_for(registry, &namespace);
            Step::Open { key, policy: wanted, job: Job::Stats { recall: wanted } }
        },
        Request::PullPending { limit, namespace } => {
            let mut ops = registry.ops();
            ops.extraction_pulls = ops.extraction_pulls + 1;
            registry.set_ops(ops);
            let key = key_for(registry, &namespace);
            Step::Open { key, policy: false, job: Job::Pull { limit } }
        },
        Request::ExtractionStatus { namespace } => {
            let text = match &namespace {
                Some(n) => registry.extraction_status(Some(n.as_str())),
                None => registry.extraction_status(None),
            };
            Step::Reply { response: Response::ok(text) }
        },
        Request::ExtractionScan { namespace, profile, min_turns, max_turns } => {
            let key = key_for(registry, &namespace);
            Step::Open { key, policy: true, job: Job::Scan { profile, min_turns, max_turns } }
        },
        Request::StageExtraction { namespace, profile, llm_duration_ms, sources, extraction } => {
            let key = key_for(registry, &namespace);
            Step::Open {
                key,
                policy: true,
                job: Job::Stage { profile, llm_duration_ms, sources, extraction },
            }
        },
        Request::RecordExtractionFailure {
            namespace,
            profile,
            turn_count,
            llm_invoked,
            error_kind,
            duration_ms,
        } => {
            let key = key_for(registry, &namespace);
            Step::Open {
                key,
                policy: true,
                job: Job::RecordFailure { profile, turn_count, llm_invoked, error_kind, duration_ms },
            }
        },
        Request::ExtractionAuditList { namespace, limit } => {
            let key = key_for(registry, &namespace);
            let limit: u32 = match limit {
                Some(l) => l,
                None => DEFAULT_AUDIT_LIMIT,
            };
            Step::Open { key, policy: true, job: Job::AuditList { limit } }
        },
        Request::UpdateExtractionCandidateAudit {
            namespace,
            candidate_id,
            support,
            contamination,
            reviewer,
        } => {
            let key = key_for(registry, &namespace);
            Step::Open {
                key,
                policy: true,
                job: Job::CandidateAudit { candidate_id, support, contamination, reviewer },
            }
        },
        Request::UpdateExtractionRelationAudit { namespace, relation_id, verdict, reviewer } => {
            let key = key_for(registry, &namespace);
            Step::Open {
                key,
                policy: true,
                job: Job::RelationAudit { relation_id, verdict, reviewer },
            }
        },
        Request::Update { id, new_content, namespace } => {
            let key = key_for(registry, &namespace);
            Step::Open { key, policy: false, job: Job::Update { id, new_content } }
        },
        Request::Forget { id, reason, hard, namespace } => {
            let key = key_for(registry, &namespace);
            let reason = match reason {
                Some(given) => given,
                None => "forgotten via MCP".to_owned(),
            };
            let hard = match hard {
                Some(h) => h,
                None => false,
            };
            Step::Open { key, policy: false, job: Job::Forget { id, reason, hard } }
        },
        Request::Supersede { new_id, old_id, namespace } => {
            let key = key_for(registry, &namespace);
            Step::Open { key, policy: false, job: Job::Supersede { new_id, old_id } }
        },
        Request::List { min_salience, limit, node_type, tag, namespace, scope, metadata } => {
            let key = key_for(registry, &namespace);
            let limit: usize = match limit {
                Some(l) => l as usize,
                None => DEFAULT_LIST_LIMIT as usize,
            };
            let job = ListJob { min_salience, limit, node_type, tag, scope, metadata };
            Step::Open { key, policy: false, job: Job::List { job } }
        },
        Request::Get { id, namespace } => {
            let key = key_for(registry, &namespace);
            Step::Open { key, policy: false, job: Job::Get { id } }
        },
        Request::Graph { seeds, query, depth, limit, namespace } => begin_graph(
            registry,
            seeds,
            query,
            depth,
            limit,
            namespace,
        ),
    }
}

/// Begins to turn a reviewed candidate into a stored fact.
pub fn dispatch_promote_candidate(
    registry: &MemoryRegistry,
    namespace: Option<String>,
    candidate_id: u64,
) -> (step: Step)
    ensures
        opens(
            step,
            registry@.key(text_view(namespace)),
            true,
            Job::PromoteCandidate { candidate_id },
        ),
{
    let key = key_for(registry, &namespace);
    Step::Open { key, policy: true, job: Job::PromoteCandidate { candidate_id } }
}

/// Begins to turn a reviewed relation into a stored one.
pub fn dispatch_promote_relation(
    registry: &MemoryRegistry,
    namespace: Option<String>,
    relation_id: u64,
) -> (step: Step)
    ensures
        opens(
            step,
            registry@.key(text_view(namespace)),
            true,
            Job::PromoteRelation { relation_id },
        ),
{
    let key = key_for(registry, &namespace);
    Step::Open { key, policy: true, job: Job::PromoteRelation { relation_id } }
}

/// What a namespace holds when it is opened for the first time.
pub struct FirstOpen {
    pub graph: Graph,
    pub now_ms: u64,
    pub ttl: u64,
}

/// Whether a job belongs to extraction and its review.
pub open spec fn is_extraction(job: Job) -> bool {
    match job {
        Job::Scan { .. } | Job::Stage { .. } | Job::RecordFailure { .. } | Job::AuditList { .. }
        | Job::CandidateAudit { .. } | Job::RelationAudit { .. } | Job::PromoteCandidate { .. }
        | Job::PromoteRelation { .. } => true,
        _ => false,
    }
}

/// The reply of extraction to a failure of the store: an input that cannot be
/// used is the caller's fault.
pub open spec fn extraction_reply(e: EngineError) -> Reply {
    if e.kind == EngineErrorKind::InvalidInput {
        invalid(e.message@)
    } else {
        failure(e.message@)
    }
}

/// How a request ends whose namespace could not be opened: it is a failed
/// request.
pub open spec fn open_failed(
    before: RegistryView,
    job: Job,
    e: EngineError,
    after: RegistryView,
    step: Step,
) -> bool {
    &&& after == before.with_ops(
        if job is Ingest {
            before.ops.ingest_failed()
        } else {
            before.ops.failed()
        },
    )
    &&& replies(
        step,
        if is_extraction(job) {
            extraction_reply(e)
        } else {
            failure(e.message@)
        },
    )
}

/// The registry once a namespace is open: where it was opened for the first
/// time, its nodes were read.
pub open spec fn once_open(
    before: RegistryView,
    key: Seq<char>,
    first: Option<FirstOpen>,
) -> RegistryView {
    match first {
        Some(f) => indexed(before, key, f.graph, f.now_ms as nat, f.ttl as nat),
        None => before,
    }
}

/// The number of turns that a delivery may hold.
pub open spec fn pull_limit(limit: Option<u32>) -> Option<usize> {
    match limit {
        Some(l) => Some(l as usize),
        None => None,
    }
}

/// Whether a step asks the store to work on a namespace.
pub open spec fn works(step: Step, key: Seq<char>, work: Work) -> bool {
    step matches Step::Work { key: k, work: w } && k@ == key && w == work
}

/// How a request goes on whose namespace is open, from the registry `open`: a
/// conversation is reduced to its new turns, a delivery takes its turns out of
/// the queue, a list reads its filter, and every other job is done as it
/// stands.
pub open spec fn open_continued(
    open: RegistryView,
    key: Seq<char>,
    job: Job,
    after: RegistryView,
    step: Step,
) -> bool {
    match job {
        Job::Ingest { job } => {
            &&& after == open
            &&& step matches Step::Work { key: k, work: Work::Ingest { session, scope, turns } }
            &&& k@ == key
            &&& session == job.session
            &&& scope == job.scope
            &&& decision_views(turns@) == decisions(
                open.seen_turn_keys,
                job.session@,
                job.turns@,
                job.capture,
            )
        },
        Job::Pull { limit } => {
            let n = batch_size(pull_limit(limit), open.queue(key).len()) as int;
            &&& after == open.with_queue(key, open.queue(key).skip(n))
            &&& step matches Step::Work { key: k, work: Work::Deliver { claimed } }
            &&& k@ == key
            &&& claimed@ == open.queue(key).take(n)
        },
        Job::List { job } => {
            let pair = match job.metadata {
                Some(m) => split_once(m@, '='),
                None => None,
            };
            if job.metadata is Some && pair is None {
                &&& after == open.with_ops(open.ops.failed())
                &&& replies(step, invalid(bad_filter(job.metadata->0@)))
            } else {
                &&& after == open
                &&& step matches Step::Work { key: k, work: Work::List { filter } }
                &&& k@ == key
                &&& filter.min_salience == or_default(job.min_salience, DEFAULT_MIN_SALIENCE)
                &&& filter.limit == job.limit
                &&& filter.node_type == job.node_type
                &&& filter.tag == job.tag
                &&& filter.scope == job.scope
                &&& match filter.metadata {
                    Some((k, v)) => pair == Some((k@, v@)),
                    None => pair is None,
                }
            }
        },
        _ => after == open && works(step, key, Work::Run { job }),
    }
}

/// How a request goes on once it is known whether its namespace is open.
pub open spec fn went_on(
    before: RegistryView,
    key: Seq<char>,
    job: Job,
    result: Result<Option<FirstOpen>, EngineError>,
    after: RegistryView,
    step: Step,
) -> bool {
    match result {
        Err(e) => open_failed(before, job, e, after, step),
        Ok(first) => open_continued(once_open(before, key, first), key, job, after, step),
    }
}

/// The reply of extraction to a failure of the store.
pub fn extraction_error_response(e: EngineError) -> (r: Response)
    ensures
        r@ == extraction_reply(e),
{
    match e.kind {
        EngineErrorKind::InvalidInput => Response::invalid_params(e.message),
        _ => Response::internal(e.message),
    }
}

fn fail_open(registry: &mut MemoryRegistry, job: Job, e: EngineError) -> (step: Step)
    requires
        old(registry)@.ops.room(),
    ensures
        open_failed(old(registry)@, job, e, final(registry)@, step),
{
    match job {
        Job::Scan { .. } | Job::Stage { .. } | Job::RecordFailure { .. } | Job::AuditList { .. }
        | Job::CandidateAudit { .. } | Job::RelationAudit { .. } | Job::PromoteCandidate { .. }
        | Job::PromoteRelation { .. } => {
            registry.count_failure();
            Step::Reply { response: extraction_error_response(e) }
        },
        Job::Ingest { .. } => {
            count_ingest_failure(registry);
            Step::Reply { response: Response::internal(e.message) }
        },
        _ => {
            registry.count_failure();
            Step::Reply { response: Response::internal(e.message) }
        },
    }
}

/// Goes on with a request once it is known whether its namespace is open.
pub fn opened(
    registry: &mut MemoryRegistry,
    key: NamespaceKey,
    job: Job,
    result: Result<Option<FirstOpen>, EngineError>,
) -> (step: Step)
    requires
        old(registry)@.ops.room(),
    ensures
        went_on(old(registry)@, key@, job, result, final(registry)@, step),
{
    match result {
        Err(e) => {
            return fail_open(registry, job, e);
        },
        Ok(first) => {
            if let Some(f) = first {
                registry.index_namespace(&key, &f.graph, f.now_ms, f.ttl);
            }
        },
    }
    match job {
        Job::Ingest { job } => {
            let turns = filter_capture_decisions(
                registry,
                job.session.as_str(),
                &job.turns,
                job.capture,
            );
            Step::Work {
                key,
                work: Work::Ingest { session: job.session, scope: job.scope, turns },
            }
        },
        Job::Pull { limit } => {
            let wanted: Option<usize> = match limit {
                Some(l) => Some(l as usize),
                None => None,
            };
            let ids = registry.queue_ids(&key);
            let claimed = first_ids(&ids, wanted);
            let rest = later_ids(&ids, claimed.len());
            registry.set_queue(&key, rest);
            Step::Work { key, work: Work::Deliver { claimed } }
        },
        Job::List { job } => {
            let metadata: Option<(String, String)> = match job.metadata {
                None => None,
                Some(m) => match parse_metadata_filter(m.as_str()) {
                    Ok(pair) => Some(pair),
                    Err(message) => {
                        registry.count_failure();
                        return Step::Reply { response: Response::invalid_params(message) };
                    },
                },
            };
            let min_salience: u64 = match job.min_salience {
                Some(bits) => bits,
                None => DEFAULT_MIN_SALIENCE,
            };
            let filter = ListFilter {
                min_salience,
                limit: job.limit,
                node_type: job.node_type,
                tag: job.tag,
                scope: job.scope,
                metadata,
            };
            Step::Work { key, work: Work::List { filter } }
        },
        other => Step::Work { key, work: Work::Run { job: other } },
    }
}

/// A request whose namespace cannot be opened fails, and is counted as failed,
/// that of a conversation also among those. The service is at fault, except where
/// extraction or its review is told that its input cannot be used.
pub proof fn unopened_namespaces_fail_the_request(
    before: RegistryView,
    job: Job,
    e: EngineError,
    after: RegistryView,
    step: Step,
)
    requires
        before.ops.room(),
        open_failed(before, job, e, after, step),
    ensures
        step matches Step::Reply { response } && (response@ matches Reply::Fault { kind, message }
            && message == e.message@ && (kind == ErrKind::InvalidParams <==> e.kind
            == EngineErrorKind::InvalidInput && (job is Scan || job is Stage || job is RecordFailure
            || job is AuditList || job is CandidateAudit || job is RelationAudit || job
            is PromoteCandidate || job is PromoteRelation))),
        after.ops == (Ops {
            dispatch_errors: (before.ops.dispatch_errors + 1) as u64,
            ingest_errors: (before.ops.ingest_errors + (if job is Ingest {
                1int
            } else {
                0int
            })) as u64,
            ..before.ops
        }),
        crate::dispatch::requests::only_counters_differ(before, after),
{
}

/// Extraction puts an input that cannot be used down to the caller, and every
/// other failure of the store down to the service.
pub proof fn extraction_faults_are_put_down(e: EngineError)
    ensures
        extraction_reply(e) == (Reply::Fault {
            kind: if e.kind == EngineErrorKind::InvalidInput {
                ErrKind::InvalidParams
            } else {
                ErrKind::Internal
            },
            message: e.message@,
        }),
{
}

/// A namespace that is opened for the first time is read: the turns that its
/// nodes bear are known, and those that are still to deliver, at the time of the
/// opening, are queued. Nothing else changes, and a namespace that was open
/// before is not read again.
pub proof fn namespaces_are_read_when_first_opened(
    before: RegistryView,
    key: Seq<char>,
    first: FirstOpen,
    other: Seq<char>,
    turn_key: Seq<char>,
)
    requires
        other != key,
    ensures
        once_open(before, key, None) == before,
        ({
            let after = once_open(before, key, Some(first));
            &&& after.unextracted[key] == first.graph.nodes@.filter(
                |n: crate::store::Node|
                    crate::capture::requeues(
                        crate::capture::state_of(n.meta("anamnesis:extracted"@)),
                        first.now_ms as nat,
                        first.ttl as nat,
                    ),
            ).map_values(|n: crate::store::Node| n.id)
            &&& after.unextracted[other] == before.unextracted[other]
            &&& after.seen_turn_keys.contains(turn_key) <==> before.seen_turn_keys.contains(turn_key)
                || exists|k: int|
                0 <= k < first.graph.nodes@.len() && (#[trigger] first.graph.nodes@[k]).meta(
                    "anamnesis:turn_key"@,
                ) == Some(turn_key)
            &&& after.ops == before.ops
            &&& after.migrations == before.migrations
            &&& after.default_namespace == before.default_namespace
            &&& after.reinforce_on_recall == before.reinforce_on_recall
            &&& after.auto_migrate_embeddings == before.auto_migrate_embeddings
        }),
{
    crate::delivery::queues_are_rebuilt_from_marks(
        first.graph.nodes@,
        first.now_ms as nat,
        first.ttl as nat,
    );
    crate::delivery::known_turns_are_those_stored(first.graph.nodes@, turn_key);
}

}
