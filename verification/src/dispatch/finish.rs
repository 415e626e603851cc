//! The last phase of a request: what came of the store's work is counted, and
//! the reply is given.

use crate::delivery::{delivered_json, delivered_text, item_ids, unmarked, PullItem};
use crate::dispatch::render::{
    format_recall_stats, format_stats, is_empty_recall, list_json, recall_stats_text, recall_text,
    render_list, render_recall, render_view, stats_text, view_json, MemoryStats, MemoryView,
    PackagedRecall, RecallStats,
};
use crate::dispatch::{RecallJob, RelateJob};
use crate::extract::text_view;
use crate::memory::{MemoryRegistry, NamespaceKey, Ops, RegistryView};
use crate::notes::{format_usage_report, usage_report};
use crate::proto::{failure, invalid, success, EngineError, RecallEventKind, Reply, Response};
use crate::text::{chars_of, decimal, push_decimal};
use vstd::prelude::*;
use vstd::string::StringExecFns;

verus! {

/// How a recall fared at the gates. Scores are given by the bits of their
/// double-precision form.
#[derive(Debug)]
pub struct RecallGateTrace {
    pub has_hits: bool,
    pub readout_pass: bool,
    pub cosine_pass: bool,
    pub eligible: bool,
    pub top_score: Option<u64>,
    pub top_cosine: Option<u64>,
    pub gate_threshold: Option<u64>,
    pub cosine_gate: Option<u64>,
    pub result_node_ids: Vec<u64>,
    pub auto_extract_node_count: usize,
}

/// What the store found in a recall.
#[derive(Debug)]
pub struct RecallOutcome {
    pub packaged: PackagedRecall,
    pub trace: RecallGateTrace,
}

/// What is recorded of a recall: never its query, only how long it was.
#[derive(Debug, Clone)]
pub struct RecallEvent {
    pub at_ms: u64,
    pub namespace: String,
    pub event_kind: RecallEventKind,
    pub query_chars: u64,
    pub scope: Option<String>,
    pub knowledge_only: bool,
    pub has_hits: bool,
    pub readout_pass: bool,
    pub cosine_pass: bool,
    pub eligible: bool,
    pub top_score: Option<u64>,
    pub top_cosine: Option<u64>,
    pub gate_threshold: Option<u64>,
    pub cosine_gate: Option<u64>,
    pub result_node_ids: Vec<u64>,
    pub auto_extract_node_count: u64,
}

/// Whether an event records the given recall.
pub open spec fn records(
    event: RecallEvent,
    key: Seq<char>,
    job: RecallJob,
    trace: RecallGateTrace,
    now_ms: u64,
) -> bool {
    &&& event.at_ms == now_ms
    &&& event.namespace@ == key
    &&& event.event_kind == job.event_kind
    &&& event.query_chars == job.query@.len()
    &&& text_view(event.scope) == text_view(job.scope)
    &&& event.knowledge_only == job.knowledge_only
    &&& event.has_hits == trace.has_hits
    &&& event.readout_pass == trace.readout_pass
    &&& event.cosine_pass == trace.cosine_pass
    &&& event.eligible == trace.eligible
    &&& event.top_score == trace.top_score
    &&& event.top_cosine == trace.top_cosine
    &&& event.gate_threshold == trace.gate_threshold
    &&& event.cosine_gate == trace.cosine_gate
    &&& event.result_node_ids@ == trace.result_node_ids@
    &&& event.auto_extract_node_count == trace.auto_extract_node_count
}

/// What is recorded of a recall says when and where it was made, how long its
/// query was, how it was filtered, and how it fared at the gates, each as it was.
pub proof fn events_record_what_happened(
    event: RecallEvent,
    key: Seq<char>,
    job: RecallJob,
    trace: RecallGateTrace,
    now_ms: u64,
)
    requires
        records(event, key, job, trace, now_ms),
    ensures
        event.at_ms == now_ms,
        event.namespace@ == key,
        event.event_kind == job.event_kind,
        event.query_chars == job.query@.len(),
        job.scope is None <==> event.scope is None,
        job.scope is Some ==> event.scope->0@ == job.scope->0@,
        event.knowledge_only == job.knowledge_only,
        event.has_hits == trace.has_hits,
        event.readout_pass == trace.readout_pass,
        event.cosine_pass == trace.cosine_pass,
        event.eligible == trace.eligible,
        event.top_score == trace.top_score,
        event.top_cosine == trace.top_cosine,
        event.gate_threshold == trace.gate_threshold,
        event.cosine_gate == trace.cosine_gate,
        event.result_node_ids@ == trace.result_node_ids@,
        event.auto_extract_node_count == trace.auto_extract_node_count,
{
}

/// The event that records a recall.
pub fn persist_recall_event(
    key: &NamespaceKey,
    job: &RecallJob,
    trace: RecallGateTrace,
    now_ms: u64,
) -> (event: RecallEvent)
    ensures
        records(event, key@, *job, trace, now_ms),
{
    let count: usize = chars_of(job.query.as_str()).len();
    RecallEvent {
        at_ms: now_ms,
        namespace: key.as_str().to_owned(),
        event_kind: job.event_kind,
        query_chars: count as u64,
        scope: job.scope.clone(),
        knowledge_only: job.knowledge_only,
        has_hits: trace.has_hits,
        readout_pass: trace.readout_pass,
        cosine_pass: trace.cosine_pass,
        eligible: trace.eligible,
        top_score: trace.top_score,
        top_cosine: trace.top_cosine,
        gate_threshold: trace.gate_threshold,
        cosine_gate: trace.cosine_gate,
        result_node_ids: trace.result_node_ids,
        auto_extract_node_count: trace.auto_extract_node_count as u64,
    }
}

/// The answer to a recall, before it is counted.
#[derive(Debug)]
pub enum RecallAnswer {
    /// The recall was made; `event` is to be recorded where that is possible,
    /// and the answer stays the same where it is not.
    Answered { response: Response, empty: bool, event: RecallEvent },
    /// The recall failed; nothing is to be recorded.
    Failed { response: Response },
}

/// Whether an answer is that of the given recall.
pub open spec fn answers_recall(
    answer: RecallAnswer,
    key: Seq<char>,
    job: RecallJob,
    now_ms: u64,
    result: Result<RecallOutcome, EngineError>,
) -> bool {
    match result {
        Ok(outcome) => {
            &&& answer matches RecallAnswer::Answered { response, empty, event }
            &&& response@ == success(recall_text(outcome.packaged))
            &&& empty == is_empty_recall(outcome.packaged)
            &&& records(event, key, job, outcome.trace, now_ms)
        },
        Err(e) => answer matches RecallAnswer::Failed { response } && response@ == failure(
            e.message@,
        ),
    }
}

/// Answers a recall from what the store found, without the registry.
pub fn answer_recall(
    key: &NamespaceKey,
    job: &RecallJob,
    now_ms: u64,
    result: Result<RecallOutcome, EngineError>,
) -> (answer: RecallAnswer)
    ensures
        answers_recall(answer, key@, *job, now_ms, result),
{
    match result {
        Ok(outcome) => {
            let (text, empty) = render_recall(&outcome.packaged);
            let event = persist_recall_event(key, job, outcome.trace, now_ms);
            RecallAnswer::Answered { response: Response::ok(text), empty, event }
        },
        Err(e) => RecallAnswer::Failed { response: Response::internal(e.message) },
    }
}

/// The counters after a recall found nothing to show.
pub open spec fn empty_counted(ops: Ops) -> Ops {
    Ops { empty_recalls: (ops.empty_recalls + 1) as u64, ..ops }
}

/// The registry after a recall was answered.
pub open spec fn recall_committed(before: RegistryView, answer: RecallAnswer) -> RegistryView {
    match answer {
        RecallAnswer::Answered { empty, .. } => if empty {
            before.with_ops(empty_counted(before.ops))
        } else {
            before
        },
        RecallAnswer::Failed { .. } => before.with_ops(before.ops.failed()),
    }
}

/// A recall that the store made is answered with what it found, and recorded; one
/// that failed is answered with its cause, and not recorded. A recall that found
/// nothing is counted as empty, one that failed as failed, and nothing else
/// changes.
pub proof fn recalls_are_answered_and_counted(
    before: RegistryView,
    answer: RecallAnswer,
    key: Seq<char>,
    job: RecallJob,
    now_ms: u64,
    result: Result<RecallOutcome, EngineError>,
)
    requires
        before.ops.room(),
        answers_recall(answer, key, job, now_ms, result),
    ensures
        result matches Ok(outcome) ==> {
            &&& answer matches RecallAnswer::Answered { response, event, .. }
            &&& response@ == (Reply::Done { text: recall_text(outcome.packaged) })
            &&& records(event, key, job, outcome.trace, now_ms)
            &&& recall_committed(before, answer).ops == Ops {
                empty_recalls: (before.ops.empty_recalls + (if is_empty_recall(outcome.packaged) {
                    1int
                } else {
                    0int
                })) as u64,
                ..before.ops
            }
        },
        result matches Err(e) ==> {
            &&& answer matches RecallAnswer::Failed { response }
            &&& response@ == (Reply::Fault {
                kind: crate::proto::ErrKind::Internal,
                message: e.message@,
            })
            &&& recall_committed(before, answer).ops == Ops {
                dispatch_errors: (before.ops.dispatch_errors + 1) as u64,
                ..before.ops
            }
        },
        crate::dispatch::requests::only_counters_differ(before, recall_committed(before, answer)),
{
}

/// Counts what came of a recall and gives the reply, whether or not the event
/// could be recorded.
pub fn commit_recall(registry: &mut MemoryRegistry, answer: RecallAnswer) -> (r: Response)
    requires
        old(registry)@.ops.room(),
    ensures
        final(registry)@ == recall_committed(old(registry)@, answer),
        r@ == (match answer {
            RecallAnswer::Answered { response, .. } => response@,
            RecallAnswer::Failed { response } => response@,
        }),
{
    match answer {
        RecallAnswer::Answered { response, empty, .. } => {
            if empty {
                let mut ops = registry.ops();
                ops.empty_recalls = ops.empty_recalls + 1;
                registry.set_ops(ops);
            }
            response
        },
        RecallAnswer::Failed { response } => {
            registry.count_failure();
            response
        },
    }
}

/// The registry after a job that is counted only where it fails.
pub open spec fn counted<T, E>(before: RegistryView, result: Result<T, E>) -> RegistryView {
    match result {
        Ok(_) => before,
        Err(_) => before.with_ops(before.ops.failed()),
    }
}

/// What is told of a note that was stored.
pub open spec fn stored_text(id: u64) -> Seq<char> {
    "stored node "@ + decimal(id as nat)
}

/// What is told of a note that was stored.
pub fn stored(id: u64) -> (r: String)
    ensures
        r@ == stored_text(id),
{
    let mut text = "stored node ".to_owned();
    push_decimal(&mut text, id);
    text
}

/// Gives the reply to a note.
pub fn finish_remember(registry: &mut MemoryRegistry, result: Result<u64, EngineError>) -> (r:
    Response)
    requires
        old(registry)@.ops.room(),
    ensures
        final(registry)@ == counted(old(registry)@, result),
        r@ == (match result {
            Ok(id) => success(stored_text(id)),
            Err(e) => failure(e.message@),
        }),
{
    match result {
        Ok(id) => Response::ok(stored(id)),
        Err(e) => {
            registry.count_failure();
            Response::internal(e.message)
        },
    }
}

/// What is told of two nodes that were linked.
pub open spec fn linked_text(from_id: u64, to_id: u64, label: Seq<char>, edge: u64) -> Seq<char> {
    "linked node "@ + decimal(from_id as nat) + " -> node "@ + decimal(to_id as nat) + " ("@ + label
        + ") as edge "@ + decimal(edge as nat)
}

/// What is told of two nodes that were linked.
pub fn linked(from_id: u64, to_id: u64, label: &str, edge: u64) -> (r: String)
    ensures
        r@ == linked_text(from_id, to_id, label@, edge),
{
    let mut text = "linked node ".to_owned();
    push_decimal(&mut text, from_id);
    text.append(" -> node ");
    push_decimal(&mut text, to_id);
    text.append(" (");
    text.append(label);
    text.append(") as edge ");
    push_decimal(&mut text, edge);
    text
}

/// Gives the reply to a link; a node that does not exist is the caller's fault.
pub fn finish_relate(
    registry: &mut MemoryRegistry,
    job: &RelateJob,
    result: Result<u64, EngineError>,
) -> (r: Response)
    requires
        old(registry)@.ops.room(),
    ensures
        final(registry)@ == counted(old(registry)@, result),
        r@ == (match result {
            Ok(edge) => success(linked_text(job.from_id, job.to_id, job.label@, edge)),
            Err(e) => classified(e),
        }),
{
    match result {
        Ok(edge) => Response::ok(linked(job.from_id, job.to_id, job.label.as_str(), edge)),
        Err(e) => bump_and_classify(registry, e),
    }
}

/// How much of a conversation was stored.
#[derive(Debug, Clone, Copy, PartialEq, Eq, Structural)]
pub struct IngestSummary {
    pub episodic: u64,
    pub semantic: u64,
}

/// What the store did with a conversation: the captured turns that it stored
/// for good, and how it ended.
#[derive(Debug)]
pub struct IngestOutcome {
    pub committed: Vec<(u64, String)>,
    pub summary: Result<IngestSummary, EngineError>,
}

/// The nodes of the turns that were stored for good.
pub open spec fn committed_ids(v: Seq<(u64, String)>) -> Seq<u64> {
    v.map_values(|c: (u64, String)| c.0)
}

/// The keys of the turns that were stored for good.
pub open spec fn committed_keys(v: Seq<(u64, String)>) -> Set<Seq<char>>
    decreases v.len(),
{
    if v.len() == 0 {
        Set::empty()
    } else {
        committed_keys(v.drop_last()).insert(v.last().1@)
    }
}

/// The registry after a conversation was stored: what was stored for good is
/// known and queued however it ended, and a failure is counted.
pub open spec fn ingested(before: RegistryView, key: Seq<char>, outcome: IngestOutcome) -> RegistryView {
    let kept = RegistryView {
        ops: Ops {
            captured_turns: (before.ops.captured_turns + outcome.committed@.len()) as u64,
            ..before.ops
        },
        seen_turn_keys: before.seen_turn_keys.union(committed_keys(outcome.committed@)),
        unextracted: before.unextracted.insert(
            key,
            before.queue(key) + committed_ids(outcome.committed@),
        ),
        ..before
    };
    match outcome.summary {
        Ok(_) => kept,
        Err(_) => kept.with_ops(kept.ops.ingest_failed()),
    }
}

/// What was stored of a conversation is known from then on and waits at the end
/// of the queue of its own namespace, in its order, whether or not the rest
/// failed; what was known and what waited before stays.
pub proof fn stored_turns_are_known_and_queued(
    before: RegistryView,
    key: Seq<char>,
    outcome: IngestOutcome,
    turn_key: Seq<char>,
    other: Seq<char>,
    i: int,
)
    requires
        before.ops.room(),
        before.ops.captured_turns + outcome.committed@.len() <= u64::MAX,
        0 <= i < outcome.committed@.len(),
        other != key,
    ensures
        ({
            let after = ingested(before, key, outcome);
            let n = before.unextracted[key].len();
            &&& after.seen_turn_keys.contains(turn_key) <==> before.seen_turn_keys.contains(
                turn_key,
            ) || exists|k: int|
                0 <= k < outcome.committed@.len() && (#[trigger] outcome.committed@[k]).1@
                    == turn_key
            &&& after.unextracted[key].len() == n + outcome.committed@.len()
            &&& after.unextracted[key].take(n as int) == before.unextracted[key]
            &&& after.unextracted[key][n + i] == outcome.committed@[i].0
            &&& after.unextracted[other] == before.unextracted[other]
            &&& after.ops.captured_turns == before.ops.captured_turns + outcome.committed@.len()
            &&& after.ops.recalls == before.ops.recalls
            &&& after.ops.reinforcing_recalls == before.ops.reinforcing_recalls
            &&& after.ops.empty_recalls == before.ops.empty_recalls
            &&& after.ops.remembers == before.ops.remembers
            &&& after.ops.relates == before.ops.relates
            &&& after.ops.extraction_pulls == before.ops.extraction_pulls
            &&& after.migrations == before.migrations
            &&& after.default_namespace == before.default_namespace
            &&& after.reinforce_on_recall == before.reinforce_on_recall
            &&& after.auto_migrate_embeddings == before.auto_migrate_embeddings
        }),
{
    lemma_committed_keys(outcome.committed@, turn_key);
    let after = ingested(before, key, outcome);
    let n = before.unextracted[key].len();
    assert(after.unextracted[key] == before.unextracted[key] + committed_ids(outcome.committed@));
    assert(after.unextracted[key].take(n as int) =~= before.unextracted[key]);
}

proof fn lemma_committed_keys(v: Seq<(u64, String)>, key: Seq<char>)
    ensures
        committed_keys(v).contains(key) <==> exists|k: int|
            0 <= k < v.len() && (#[trigger] v[k]).1@ == key,
    decreases v.len(),
{
    if v.len() > 0 {
        let fewer = v.drop_last();
        lemma_committed_keys(fewer, key);
        assert(v[v.len() - 1] == v.last());
        assert(forall|k: int| 0 <= k < fewer.len() ==> fewer[k] == v[k]);
        if committed_keys(fewer).contains(key) {
            let k = choose|k: int| 0 <= k < fewer.len() && (#[trigger] fewer[k]).1@ == key;
            assert(v[k].1@ == key);
        }
        if exists|k: int| 0 <= k < v.len() && (#[trigger] v[k]).1@ == key {
            let k = choose|k: int| 0 <= k < v.len() && (#[trigger] v[k]).1@ == key;
            if k < fewer.len() {
                assert(fewer[k].1@ == key);
            }
        }
    }
}

/// Takes note of what was stored of a conversation and gives the reply.
pub fn finish_ingest(
    registry: &mut MemoryRegistry,
    key: &NamespaceKey,
    outcome: IngestOutcome,
) -> (r: Response)
    requires
        old(registry)@.ops.room(),
        old(registry)@.ops.captured_turns + outcome.committed@.len() <= u64::MAX,
    ensures
        final(registry)@ == ingested(old(registry)@, key@, outcome),
        r@ == (match outcome.summary {
            Ok(s) => success(
                "ingested "@ + decimal(s.episodic as nat) + " turns ("@ + decimal(s.semantic as nat)
                    + " semantic nodes)"@,
            ),
            Err(e) => failure(e.message@),
        }),
{
    let ghost before = registry@;
    let committed = outcome.committed;
    let mut ops = registry.ops();
    ops.captured_turns = ops.captured_turns + committed.len() as u64;
    registry.set_ops(ops);
    let ghost counted = registry@;
    let mut queue = registry.queue_ids(key);
    let mut i: usize = 0;
    assert(committed@.take(0) =~= Seq::<(u64, String)>::empty());
    assert(counted.seen_turn_keys.union(committed_keys(committed@.take(0)))
        =~= counted.seen_turn_keys);
    assert(queue@ =~= before.queue(key@) + committed_ids(committed@.take(0)));
    while i < committed.len()
        invariant
            0 <= i <= committed@.len(),
            registry@ == (RegistryView {
                seen_turn_keys: counted.seen_turn_keys.union(
                    committed_keys(committed@.take(i as int)),
                ),
                ..counted
            }),
            queue@ == before.queue(key@) + committed_ids(committed@.take(i as int)),
        decreases committed@.len() - i,
    {
        let ghost upto = committed@.take(i + 1);
        let ghost seen = registry@.seen_turn_keys;
        assert(upto.drop_last() =~= committed@.take(i as int));
        assert(upto.last() == committed@[i as int]);
        registry.see(committed[i].1.clone());
        assert(seen.insert(committed@[i as int].1@) =~= counted.seen_turn_keys.union(
            committed_keys(upto),
        ));
        queue.push(committed[i].0);
        assert(committed_ids(upto) =~= committed_ids(committed@.take(i as int)).push(
            committed@[i as int].0,
        ));
        assert(queue@ =~= before.queue(key@) + committed_ids(upto));
        i += 1;
    }
    assert(committed@.take(i as int) =~= committed@);
    registry.set_queue(key, queue);
    match outcome.summary {
        Ok(s) => {
            let mut text = "ingested ".to_owned();
            push_decimal(&mut text, s.episodic);
            text.append(" turns (");
            push_decimal(&mut text, s.semantic);
            text.append(" semantic nodes)");
            Response::ok(text)
        },
        Err(e) => {
            let mut ops = registry.ops();
            ops.dispatch_errors = ops.dispatch_errors + 1;
            ops.ingest_errors = ops.ingest_errors + 1;
            registry.set_ops(ops);
            Response::internal(e.message)
        },
    }
}

/// What the store tells of a namespace.
#[derive(Debug)]
pub struct StatsOutcome {
    pub stats: MemoryStats,
    pub total: u64,
    pub stale: u64,
    /// What is known about past recalls; nothing where it could not be read.
    pub recall_stats: Option<RecallStats>,
}

/// The account of a namespace and of the service.
pub open spec fn account(r: RegistryView, key: Seq<char>, outcome: StatsOutcome) -> Seq<char> {
    stats_text(outcome.stats) + "\n"@ + usage_report(
        r.ops,
        r.queue(key).len(),
        r.seen_turn_keys.len(),
        outcome.total as nat,
        outcome.stale as nat,
    )
}

/// The account of a namespace and of the service, with that of past recalls
/// behind it where it was asked for.
pub open spec fn full_account(
    r: RegistryView,
    key: Seq<char>,
    recall: bool,
    outcome: StatsOutcome,
) -> Seq<char> {
    if recall {
        account(r, key, outcome) + "\n"@ + recall_stats_text(outcome.recall_stats)
    } else {
        account(r, key, outcome)
    }
}

/// Gives the account of a namespace and of the service.
pub fn finish_stats(
    registry: &mut MemoryRegistry,
    key: &NamespaceKey,
    recall: bool,
    result: Result<StatsOutcome, EngineError>,
) -> (r: Response)
    requires
        old(registry)@.ops.room(),
    ensures
        final(registry)@ == counted(old(registry)@, result),
        r@ == (match result {
            Ok(outcome) => success(full_account(old(registry)@, key@, recall, outcome)),
            Err(e) => failure(e.message@),
        }),
{
    match result {
        Ok(outcome) => {
            let mut text = format_stats(&outcome.stats);
            text.append("\n");
            let usage = format_usage_report(
                &registry.ops(),
                registry.queue_len(key),
                registry.seen_len(),
                outcome.total,
                outcome.stale,
            );
            text.append(usage.as_str());
            if recall {
                text.append("\n");
                let telemetry = format_recall_stats(&outcome.recall_stats);
                text.append(telemetry.as_str());
            }
            Response::ok(text)
        },
        Err(e) => {
            registry.count_failure();
            Response::internal(e.message)
        },
    }
}

/// Ends a delivery of which the first `written` marks were written: the turns
/// that were not marked go back to the front of the queue.
pub fn finish_pull(
    registry: &mut MemoryRegistry,
    key: &NamespaceKey,
    plan: &Vec<PullItem>,
    written: usize,
) -> (r: Response)
    requires
        written <= plan@.len(),
    ensures
        final(registry)@ == old(registry)@.with_queue(
            key@,
            item_ids(plan@).skip(written as int) + old(registry)@.queue(key@),
        ),
        r@ == success(delivered_json(plan@.take(written as int))),
{
    let mut restored = unmarked(plan, written);
    let mut waiting = registry.queue_ids(key);
    restored.append(&mut waiting);
    registry.set_queue(key, restored);
    Response::ok(delivered_text(plan, written))
}

/// The reply to a failure of the store: a node that does not exist and an
/// input that cannot be used are the caller's fault.
pub open spec fn classified(e: EngineError) -> Reply {
    if e.caller_fault() {
        invalid(e.message@)
    } else {
        failure(e.message@)
    }
}

/// A node that does not exist and an input that cannot be used are put down to
/// the caller, with the cause; anything else is a failure of the service.
pub proof fn faults_are_put_down_to_who_is_at_fault(e: EngineError)
    ensures
        e.kind == crate::proto::EngineErrorKind::InvalidInput || e.kind
            == crate::proto::EngineErrorKind::NotFound ==> classified(e) == (Reply::Fault {
            kind: crate::proto::ErrKind::InvalidParams,
            message: e.message@,
        }),
        e.kind == crate::proto::EngineErrorKind::Storage ==> classified(e) == (Reply::Fault {
            kind: crate::proto::ErrKind::Internal,
            message: e.message@,
        }),
{
}

/// Counts a failure of the store, and gives the reply to it.
pub fn bump_and_classify(registry: &mut MemoryRegistry, e: EngineError) -> (r: Response)
    requires
        old(registry)@.ops.room(),
    ensures
        final(registry)@ == old(registry)@.with_ops(old(registry)@.ops.failed()),
        r@ == classified(e),
{
    registry.count_failure();
    if e.is_caller_error() {
        Response::invalid_params(e.message)
    } else {
        Response::internal(e.message)
    }
}

/// Gives the reply to a change of content.
pub fn finish_update(
    registry: &mut MemoryRegistry,
    id: u64,
    result: Result<(), EngineError>,
) -> (r: Response)
    requires
        old(registry)@.ops.room(),
    ensures
        final(registry)@ == counted(old(registry)@, result),
        r@ == (match result {
            Ok(_) => success("updated node "@ + decimal(id as nat)),
            Err(e) => classified(e),
        }),
{
    match result {
        Ok(_) => {
            let mut text = "updated node ".to_owned();
            push_decimal(&mut text, id);
            Response::ok(text)
        },
        Err(e) => bump_and_classify(registry, e),
    }
}

/// What is told of a node that was forgotten.
pub open spec fn forgotten_text(id: u64, hard: bool) -> Seq<char> {
    "forgot node "@ + decimal(id as nat) + (if hard {
        " (hard delete)"@
    } else {
        " (soft delete)"@
    })
}

/// Gives the reply to forgetting a node.
pub fn finish_forget(
    registry: &mut MemoryRegistry,
    id: u64,
    hard: bool,
    result: Result<(), EngineError>,
) -> (r: Response)
    requires
        old(registry)@.ops.room(),
    ensures
        final(registry)@ == counted(old(registry)@, result),
        r@ == (match result {
            Ok(_) => success(forgotten_text(id, hard)),
            Err(e) => classified(e),
        }),
{
    match result {
        Ok(_) => {
            let mut text = "forgot node ".to_owned();
            push_decimal(&mut text, id);
            if hard {
                text.append(" (hard delete)");
            } else {
                text.append(" (soft delete)");
            }
            Response::ok(text)
        },
        Err(e) => bump_and_classify(registry, e),
    }
}

/// What is told of a node that took the place of another.
pub open spec fn superseded_text(new_id: u64, old_id: u64, edge: u64) -> Seq<char> {
    "superseded "@ + decimal(old_id as nat) + " by "@ + decimal(new_id as nat) + " (edge "@
        + decimal(edge as nat) + ")"@
}

/// Gives the reply to one node taking the place of another.
pub fn finish_supersede(
    registry: &mut MemoryRegistry,
    new_id: u64,
    old_id: u64,
    result: Result<u64, EngineError>,
) -> (r: Response)
    requires
        old(registry)@.ops.room(),
    ensures
        final(registry)@ == counted(old(registry)@, result),
        r@ == (match result {
            Ok(edge) => success(superseded_text(new_id, old_id, edge)),
            Err(e) => classified(e),
        }),
{
    match result {
        Ok(edge) => {
            let mut text = "superseded ".to_owned();
            push_decimal(&mut text, old_id);
            text.append(" by ");
            push_decimal(&mut text, new_id);
            text.append(" (edge ");
            push_decimal(&mut text, edge);
            text.append(")");
            Response::ok(text)
        },
        Err(e) => bump_and_classify(registry, e),
    }
}

/// Gives the list of memories that was asked for.
pub fn finish_list(
    registry: &mut MemoryRegistry,
    result: Result<Vec<MemoryView>, EngineError>,
) -> (r: Response)
    requires
        old(registry)@.ops.room(),
    ensures
        final(registry)@ == counted(old(registry)@, result),
        r@ == (match result {
            Ok(list) => success(list_json(list@)),
            Err(e) => classified(e),
        }),
{
    match result {
        Ok(list) => Response::ok(render_list(&list)),
        Err(e) => bump_and_classify(registry, e),
    }
}

/// Shows the memory that was asked for.
pub fn finish_get(registry: &mut MemoryRegistry, result: Result<MemoryView, EngineError>) -> (r:
    Response)
    requires
        old(registry)@.ops.room(),
    ensures
        final(registry)@ == counted(old(registry)@, result),
        r@ == (match result {
            Ok(view) => success(view_json(view)),
            Err(e) => classified(e),
        }),
{
    match result {
        Ok(view) => Response::ok(render_view(&view)),
        Err(e) => bump_and_classify(registry, e),
    }
}

}
