//! What the store is asked for a request: exactly what the request says, field
//! by field, and the documented value where it leaves a field open.

use crate::daemon::sanitized;
use crate::dispatch::{begun, went_on, FirstOpen, GraphStart, Job, ListJob, Step, Work};
use crate::extract::{
    AuditSupport, ContaminationCategory, ExtractionErrorKind, ExtractionSource,
    ExtractorProfileComponents, RelationVerdict, ValidatedExtraction,
};
use crate::memory::{Ops, RegistryView};
use crate::notes::{relation_label, Relation};
use crate::proto::{ErrKind, RecallEventKind, Reply, Request, TurnInput};
use crate::scope::parse_fault;
use crate::text::{decimal, views};
use vstd::prelude::*;

verus! {

/// Whether `key` is the name under which the namespace of a request is kept:
/// that of the namespace it names, or of the default one.
pub open spec fn names_namespace(before: RegistryView, namespace: Option<String>, key: Seq<char>) -> bool {
    match namespace {
        Some(n) => key == sanitized(n@),
        None => key == sanitized(before.default_namespace),
    }
}

/// Whether nothing but the counters differs between two registries.
pub open spec fn only_counters_differ(before: RegistryView, after: RegistryView) -> bool {
    &&& after.reinforce_on_recall == before.reinforce_on_recall
    &&& after.auto_migrate_embeddings == before.auto_migrate_embeddings
    &&& after.default_namespace == before.default_namespace
    &&& after.seen_turn_keys == before.seen_turn_keys
    &&& after.unextracted == before.unextracted
    &&& after.migrations == before.migrations
}

/// Whether a step refuses a request and puts it down to the caller.
pub open spec fn refuses(step: Step) -> bool {
    step matches Step::Reply { response } && (response@ matches Reply::Fault { kind, .. } && kind
        == ErrKind::InvalidParams)
}

/// Whether a step tells the caller this.
pub open spec fn told(step: Step, message: Seq<char>) -> bool {
    step matches Step::Reply { response } && (response@ matches Reply::Fault { message: m, .. } && m
        == message)
}

/// A recall asks the store for what the request says: its query, its filters
/// and its gates, twenty memories where it names no number, strengthening as it
/// says or else by default. The recall is counted.
pub proof fn recalls_ask_for_what_was_asked(
    before: RegistryView,
    query: String,
    limit: Option<u32>,
    namespace: Option<String>,
    reinforce: Option<bool>,
    gate_threshold: Option<u64>,
    cosine_gate: Option<u64>,
    knowledge_only: Option<bool>,
    scope: Option<String>,
    tag: Option<String>,
    event_kind: Option<RecallEventKind>,
    after: RegistryView,
    step: Step,
)
    requires
        before.ops.room(),
        begun(
            before,
            Request::Recall {
                query,
                limit,
                namespace,
                reinforce,
                gate_threshold,
                cosine_gate,
                knowledge_only,
                scope,
                tag,
                event_kind,
            },
            after,
            step,
        ),
    ensures
        step matches Step::Open { key, policy, job: Job::Recall { job } } && {
            &&& names_namespace(before, namespace, key@)
            &&& policy
            &&& job.query == query
            &&& job.scope == scope
            &&& job.tag == tag
            &&& job.gate_threshold == gate_threshold
            &&& job.cosine_gate == cosine_gate
            &&& limit matches Some(n) ==> job.limit == n
            &&& limit is None ==> job.limit == 20
            &&& reinforce matches Some(b) ==> job.reinforce == b
            &&& reinforce is None ==> job.reinforce == before.reinforce_on_recall
            &&& job.knowledge_only <==> knowledge_only == Some(true)
            &&& event_kind matches Some(k) ==> job.event_kind == k
            &&& event_kind is None ==> job.event_kind == RecallEventKind::Unknown
            &&& after.ops == Ops {
                recalls: (before.ops.recalls + 1) as u64,
                reinforcing_recalls: (before.ops.reinforcing_recalls + (if job.reinforce {
                    1int
                } else {
                    0int
                })) as u64,
                ..before.ops
            }
        },
        only_counters_differ(before, after),
{
}

/// A note is stored with its content, its metadata, its tags that are not
/// empty and its scope; a scope that cannot be read refuses it. Either way the
/// request is counted.
pub proof fn notes_are_stored_as_asked(
    before: RegistryView,
    content: String,
    namespace: Option<String>,
    tags: Option<Vec<String>>,
    metadata: Option<Vec<(String, String)>>,
    scope: Option<String>,
    after: RegistryView,
    step: Step,
)
    requires
        before.ops.room(),
        begun(before, Request::Remember { content, namespace, tags, metadata, scope }, after, step),
    ensures
        refuses(step) || (step matches Step::Open { key, policy, job: Job::Remember { job } } && {
            &&& names_namespace(before, namespace, key@)
            &&& !policy
            &&& job.content == content
            &&& tags matches Some(t) ==> views(job.options.tags@) == views(t@).filter(
                |s: Seq<char>| s.len() > 0,
            )
            &&& tags is None ==> job.options.tags@.len() == 0
            &&& metadata matches Some(m) ==> job.options.metadata@ == m@
            &&& metadata is None ==> job.options.metadata@.len() == 0
            &&& scope matches Some(s) ==> job.options.scope@ == s@
            &&& scope is None ==> job.options.scope@ == "universal"@
        }),
        refuses(step) <==> (scope matches Some(s) && parse_fault(s@) is Some),
        scope matches Some(s) ==> (parse_fault(s@) matches Some(e) ==> told(step, e.text())),
        after.ops == (Ops {
            remembers: (before.ops.remembers + 1) as u64,
            dispatch_errors: (before.ops.dispatch_errors + (if refuses(step) {
                1int
            } else {
                0int
            })) as u64,
            ..before.ops
        }),
        only_counters_differ(before, after),
{
    if let Some(t) = tags {
        crate::notes::kept_tags_are_those_with_text(views(t@));
    }
    if let Step::Open { job: Job::Remember { job }, .. } = step {
        if tags is None {
            assert(views(job.options.tags@).len() == job.options.tags@.len());
        }
    }
}

/// Two nodes are linked in the direction that the request gives, by the relation
/// whose label it gives; a label that names no relation refuses it.
pub proof fn links_are_made_as_asked(
    before: RegistryView,
    from_id: u64,
    to_id: u64,
    relation: String,
    namespace: Option<String>,
    after: RegistryView,
    step: Step,
)
    requires
        before.ops.room(),
        begun(before, Request::Relate { from_id, to_id, relation, namespace }, after, step),
    ensures
        refuses(step) || (step matches Step::Open { key, policy, job: Job::Relate { job } } && {
            &&& names_namespace(before, namespace, key@)
            &&& !policy
            &&& job.from_id == from_id
            &&& job.to_id == to_id
            &&& job.label == relation
            &&& relation_label(job.relation) == relation@
        }),
        refuses(step) <==> (forall|r: Relation|
            (r matches Relation::Custom { label } ==> label@.len() > 0) ==> #[trigger] relation_label(
                r,
            ) != relation@),
        refuses(step) ==> told(step, "unknown relation: "@ + relation@),
        after.ops == (Ops {
            relates: (before.ops.relates + 1) as u64,
            dispatch_errors: (before.ops.dispatch_errors + (if refuses(step) {
                1int
            } else {
                0int
            })) as u64,
            ..before.ops
        }),
        only_counters_differ(before, after),
{
    if let Step::Open { job: Job::Relate { job }, .. } = step {
        crate::notes::parsed_relations_have_their_label(relation@, job.relation);
        let read = job.relation;
        assert(relation_label(read) == relation@);
        assert(read matches Relation::Custom { label } ==> label@.len() > 0);
    } else {
        assert forall|r: Relation|
            (r matches Relation::Custom { label } ==> label@.len()
                > 0) implies #[trigger] relation_label(r) != relation@ by {
            crate::notes::labels_are_read_back(r);
        }
    }
}

/// A conversation is stored as the request gives it; its turns are captured
/// exactly where the request says so.
pub proof fn conversations_are_stored_as_asked(
    before: RegistryView,
    session: String,
    turns: Vec<TurnInput>,
    namespace: Option<String>,
    capture: Option<bool>,
    scope: Option<String>,
    after: RegistryView,
    step: Step,
)
    requires
        before.ops.room(),
        begun(before, Request::Ingest { session, turns, namespace, capture, scope }, after, step),
    ensures
        refuses(step) || (step matches Step::Open { key, policy, job: Job::Ingest { job } } && {
            &&& names_namespace(before, namespace, key@)
            &&& !policy
            &&& job.session == session
            &&& job.turns == turns
            &&& job.capture <==> capture == Some(true)
            &&& scope matches Some(s) ==> job.scope@ == s@
            &&& scope is None ==> job.scope@ == "universal"@
            &&& after.ops == before.ops
        }),
        refuses(step) <==> (scope matches Some(s) && parse_fault(s@) is Some),
        scope matches Some(s) ==> (parse_fault(s@) matches Some(e) ==> told(step, e.text())),
        refuses(step) ==> after.ops == (Ops {
            dispatch_errors: (before.ops.dispatch_errors + 1) as u64,
            ingest_errors: (before.ops.ingest_errors + 1) as u64,
            ..before.ops
        }),
        only_counters_differ(before, after),
{
}

/// An account covers past recalls exactly where the request says so; a delivery
/// takes the limit of the request and is counted; the status tells how many
/// turns wait in the namespace of the request. None of them changes what is
/// queued or known.
pub proof fn accounts_and_deliveries_are_as_asked(
    before: RegistryView,
    namespace: Option<String>,
    recall: Option<bool>,
    limit: Option<u32>,
    after: RegistryView,
    step: Step,
)
    requires
        before.ops.room(),
    ensures
        begun(before, Request::Stats { namespace, recall }, after, step) ==> {
            &&& step matches Step::Open { key, policy, job: Job::Stats { recall: r } }
            &&& names_namespace(before, namespace, key@)
            &&& policy <==> recall == Some(true)
            &&& r <==> recall == Some(true)
            &&& after == before
        },
        begun(before, Request::PullPending { limit, namespace }, after, step) ==> {
            &&& step matches Step::Open { key, policy, job: Job::Pull { limit: l } }
            &&& names_namespace(before, namespace, key@)
            &&& !policy
            &&& l == limit
            &&& after.ops == Ops {
                extraction_pulls: (before.ops.extraction_pulls + 1) as u64,
                ..before.ops
            }
            &&& only_counters_differ(before, after)
        },
        begun(before, Request::ExtractionStatus { namespace }, after, step) ==> after == before,
{
}

/// The status of a namespace tells how many of its turns wait.
pub proof fn status_tells_how_many_turns_wait(
    before: RegistryView,
    namespace: Option<String>,
    key: Seq<char>,
    after: RegistryView,
    step: Step,
)
    requires
        begun(before, Request::ExtractionStatus { namespace }, after, step),
        names_namespace(before, namespace, key),
    ensures
        step matches Step::Reply { response } && (response@ matches Reply::Done { text } && text
            == "{\"pending\":"@ + decimal(before.unextracted[key].len()) + "}"@),
{
}

/// A scan, a staging and a failed run are handed to the store as the request
/// gives them, with the policy store.
pub proof fn extraction_is_done_as_asked(
    before: RegistryView,
    namespace: Option<String>,
    profile: ExtractorProfileComponents,
    min_turns: u32,
    max_turns: u32,
    duration_ms: u64,
    sources: Vec<ExtractionSource>,
    extraction: ValidatedExtraction,
    turn_count: u32,
    llm_invoked: bool,
    error_kind: ExtractionErrorKind,
    after: RegistryView,
    step: Step,
)
    ensures
        begun(
            before,
            Request::ExtractionScan { namespace, profile, min_turns, max_turns },
            after,
            step,
        ) ==> {
            &&& step matches Step::Open {
                key,
                policy,
                job: Job::Scan { profile: p, min_turns: low, max_turns: high },
            }
            &&& names_namespace(before, namespace, key@)
            &&& policy
            &&& p == profile
            &&& low == min_turns
            &&& high == max_turns
            &&& after == before
        },
        begun(
            before,
            Request::StageExtraction {
                namespace,
                profile,
                llm_duration_ms: duration_ms,
                sources,
                extraction,
            },
            after,
            step,
        ) ==> {
            &&& step matches Step::Open {
                key,
                policy,
                job: Job::Stage { profile: p, llm_duration_ms: d, sources: s, extraction: x },
            }
            &&& names_namespace(before, namespace, key@)
            &&& policy
            &&& p == profile
            &&& d == duration_ms
            &&& s == sources
            &&& x == extraction
            &&& after == before
        },
        begun(
            before,
            Request::RecordExtractionFailure {
                namespace,
                profile,
                turn_count,
                llm_invoked,
                error_kind,
                duration_ms,
            },
            after,
            step,
        ) ==> {
            &&& step matches Step::Open {
                key,
                policy,
                job: Job::RecordFailure {
                    profile: p,
                    turn_count: n,
                    llm_invoked: l,
                    error_kind: k,
                    duration_ms: d,
                },
            }
            &&& names_namespace(before, namespace, key@)
            &&& policy
            &&& p == profile
            &&& n == turn_count
            &&& l == llm_invoked
            &&& k == error_kind
            &&& d == duration_ms
            &&& after == before
        },
{
}

/// A review lists as many rows as the request says, one hundred where it names
/// no number, and a judgement is the one that the request gives.
pub proof fn reviews_are_done_as_asked(
    before: RegistryView,
    namespace: Option<String>,
    limit: Option<u32>,
    id: u64,
    support: AuditSupport,
    contamination: Option<ContaminationCategory>,
    verdict: RelationVerdict,
    reviewer: String,
    after: RegistryView,
    step: Step,
)
    ensures
        begun(before, Request::ExtractionAuditList { namespace, limit }, after, step) ==> {
            &&& step matches Step::Open { key, policy, job: Job::AuditList { limit: n } }
            &&& names_namespace(before, namespace, key@)
            &&& policy
            &&& limit matches Some(l) ==> n == l
            &&& limit is None ==> n == 100
            &&& after == before
        },
        begun(
            before,
            Request::UpdateExtractionCandidateAudit {
                namespace,
                candidate_id: id,
                support,
                contamination,
                reviewer,
            },
            after,
            step,
        ) ==> {
            &&& step matches Step::Open {
                key,
                policy,
                job: Job::CandidateAudit {
                    candidate_id,
                    support: s,
                    contamination: c,
                    reviewer: r,
                },
            }
            &&& names_namespace(before, namespace, key@)
            &&& policy
            &&& candidate_id == id
            &&& s == support
            &&& c == contamination
            &&& r == reviewer
            &&& after == before
        },
        begun(
            before,
            Request::UpdateExtractionRelationAudit {
                namespace,
                relation_id: id,
                verdict,
                reviewer,
            },
            after,
            step,
        ) ==> {
            &&& step matches Step::Open {
                key,
                policy,
                job: Job::RelationAudit { relation_id, verdict: v, reviewer: r },
            }
            &&& names_namespace(before, namespace, key@)
            &&& policy
            &&& relation_id == id
            &&& v == verdict
            &&& r == reviewer
            &&& after == before
        },
{
}

/// A change, a removal, a supersession and a look at a memory name the memories
/// that the request names. A memory is removed for good only where the request
/// says so.
pub proof fn memories_are_changed_as_asked(
    before: RegistryView,
    namespace: Option<String>,
    id: u64,
    new_content: String,
    reason: Option<String>,
    hard: Option<bool>,
    new_id: u64,
    old_id: u64,
    after: RegistryView,
    step: Step,
)
    ensures
        begun(before, Request::Update { id, new_content, namespace }, after, step) ==> {
            &&& step matches Step::Open { key, policy, job: Job::Update { id: i, new_content: c } }
            &&& names_namespace(before, namespace, key@)
            &&& !policy
            &&& i == id
            &&& c == new_content
            &&& after == before
        },
        begun(before, Request::Forget { id, reason, hard, namespace }, after, step) ==> {
            &&& step matches Step::Open { key, policy, job: Job::Forget { id: i, reason: r, hard: h } }
            &&& names_namespace(before, namespace, key@)
            &&& !policy
            &&& i == id
            &&& h <==> hard == Some(true)
            &&& reason matches Some(given) ==> r@ == given@
            &&& reason is None ==> r@ == "forgotten via MCP"@
            &&& after == before
        },
        begun(before, Request::Supersede { new_id, old_id, namespace }, after, step) ==> {
            &&& step matches Step::Open { key, policy, job: Job::Supersede { new_id: n, old_id: o } }
            &&& names_namespace(before, namespace, key@)
            &&& !policy
            &&& n == new_id
            &&& o == old_id
            &&& after == before
        },
        begun(before, Request::Get { id, namespace }, after, step) ==> {
            &&& step matches Step::Open { key, policy, job: Job::Get { id: i } }
            &&& names_namespace(before, namespace, key@)
            &&& !policy
            &&& i == id
            &&& after == before
        },
{
}

/// A list is filtered as the request says, and shows one hundred memories where
/// it names no number.
pub proof fn lists_are_filtered_as_asked(
    before: RegistryView,
    min_salience: Option<u64>,
    limit: Option<u32>,
    node_type: Option<String>,
    tag: Option<String>,
    namespace: Option<String>,
    scope: Option<String>,
    metadata: Option<String>,
    after: RegistryView,
    step: Step,
)
    requires
        begun(
            before,
            Request::List { min_salience, limit, node_type, tag, namespace, scope, metadata },
            after,
            step,
        ),
    ensures
        step matches Step::Open { key, policy, job: Job::List { job } } && {
            &&& names_namespace(before, namespace, key@)
            &&& !policy
            &&& job.min_salience == min_salience
            &&& limit matches Some(n) ==> job.limit == n
            &&& limit is None ==> job.limit == 100
            &&& job.node_type == node_type
            &&& job.tag == tag
            &&& job.scope == scope
            &&& job.metadata == metadata
        },
        after == before,
{
}

/// A part of the graph starts from what the query finds, or else from the given
/// nodes, and without either it is refused. It reaches as far and holds as many
/// nodes as the request says, but never further than three steps and never more
/// than two thousand nodes; one step and two hundred and fifty nodes where the
/// request does not say.
pub proof fn graphs_start_where_asked(
    before: RegistryView,
    seeds: Option<Vec<u64>>,
    query: Option<String>,
    depth: Option<u32>,
    limit: Option<u32>,
    namespace: Option<String>,
    after: RegistryView,
    step: Step,
)
    requires
        before.ops.room(),
        begun(before, Request::Graph { seeds, query, depth, limit, namespace }, after, step),
    ensures
        refuses(step) <==> query is None && (seeds is None || seeds->0@.len() == 0),
        refuses(step) ==> told(step, "graph requires seed(s) or q"@) && after.ops == (Ops {
            dispatch_errors: (before.ops.dispatch_errors + 1) as u64,
            ..before.ops
        }),
        !refuses(step) ==> {
            &&& step matches Step::Open { key, policy, job: Job::Graph { start, depth: d, budget } }
            &&& names_namespace(before, namespace, key@)
            &&& !policy
            &&& query matches Some(q) ==> start == (GraphStart::Query { text: q })
            &&& query is None ==> (seeds matches Some(ids) && start == (GraphStart::Seeds { ids }))
            &&& d <= 3
            &&& budget <= 2000
            &&& depth is None ==> d == 1
            &&& limit is None ==> budget == 250
            &&& depth matches Some(n) ==> d <= n && (n <= 3 ==> d == n) && (n > 3 ==> d == 3)
            &&& limit matches Some(n) ==> budget <= n && (n <= 2000 ==> budget == n) && (n > 2000
                ==> budget == 2000)
            &&& after == before
        },
        only_counters_differ(before, after),
{
}

/// Once a namespace is open, the store is asked to do what the job says, in that
/// namespace: a conversation under its own session and scope, a list with its
/// own filter, and every other job as it stands.
pub proof fn open_namespaces_are_worked_on_as_asked(
    before: RegistryView,
    key: Seq<char>,
    job: Job,
    first: Option<FirstOpen>,
    after: RegistryView,
    step: Step,
)
    requires
        went_on(before, key, job, Ok(first), after, step),
        step is Work,
    ensures
        step matches Step::Work { key: k, .. } && k@ == key,
        step matches Step::Work { work: Work::Run { job: done }, .. } ==> done == job,
        job matches Job::Ingest { job: asked } ==> (step matches Step::Work {
            work: Work::Ingest { session, scope, .. },
            ..
        } && session == asked.session && scope == asked.scope),
        job is Pull ==> (step matches Step::Work { work, .. } && work is Deliver),
        job is List ==> (step matches Step::Work { work, .. } && work is List),
        !(job is Ingest || job is Pull || job is List) ==> (step matches Step::Work { work, .. }
            && work is Run),
        first is None && !(job is Pull) ==> after == before,
{
}

/// The filter of a list is the one of the request: its least salience, or zero,
/// its limit, its type, its tag, its scope, and its metadata as a key and a value
/// around the first equals sign. A metadata filter without an equals sign, and
/// only that, refuses the list.
pub proof fn list_filters_are_read_as_given(
    before: RegistryView,
    key: Seq<char>,
    job: ListJob,
    first: Option<FirstOpen>,
    after: RegistryView,
    step: Step,
)
    requires
        went_on(before, key, Job::List { job }, Ok(first), after, step),
    ensures
        refuses(step) <==> (job.metadata matches Some(m) && !m@.contains('=')),
        refuses(step) ==> told(step, "metadata filter must be key=value: "@ + job.metadata->0@),
        !refuses(step) ==> {
            &&& step matches Step::Work { key: k, work: Work::List { filter } }
            &&& k@ == key
            &&& job.min_salience matches Some(bits) ==> filter.min_salience == bits
            &&& job.min_salience is None ==> filter.min_salience == 0
            &&& filter.limit == job.limit
            &&& filter.node_type == job.node_type
            &&& filter.tag == job.tag
            &&& filter.scope == job.scope
            &&& job.metadata is None ==> filter.metadata is None
            &&& job.metadata matches Some(m) ==> (filter.metadata matches Some((name, value)) && m@
                == name@ + seq!['='] + value@ && !name@.contains('='))
        },
{
    if let Some(m) = job.metadata {
        crate::text::splitting_is_undone(m@, '=');
    }
}

}
