//! What holds of the service as a whole, whatever it is asked.

use crate::delivery::{batch_size, item_ids, PullItem};
use crate::dispatch::extract::{fault_reply, AuditFault};
use crate::dispatch::finish::{
    account, classified, counted, full_account, ingested, recall_committed, IngestOutcome,
    RecallAnswer, RecallEvent, StatsOutcome,
};
use crate::dispatch::render::recall_stats_text;
use crate::dispatch::{
    begun, extraction_reply, open_continued, opens, pull_limit, replies, went_on,
    FirstOpen, Job, Step, Work,
};
use crate::extract::text_view;
use crate::memory::{Ops, RegistryView};
use crate::proto::{failure, EngineError, EngineErrorKind, Reply, Request};
use vstd::prelude::*;

verus! {

/// Whether the counters fit together: a failed ingest is a failed request, and
/// a recall that strengthens what it finds is a recall.
pub open spec fn consistent(ops: Ops) -> bool {
    ops.ingest_errors <= ops.dispatch_errors && ops.reinforcing_recalls <= ops.recalls
}

/// Whether a step ends a request with a fault.
pub open spec fn is_fault(step: Step) -> bool {
    step matches Step::Reply { response } && response@ is Fault
}

/// A request that is refused at its beginning counts as one failed request,
/// and as a failed ingest where it is one; one that is not refused counts as
/// neither.
pub proof fn early_refusals_count_once(
    before: RegistryView,
    req: Request,
    after: RegistryView,
    step: Step,
)
    requires
        before.ops.room(),
        begun(before, req, after, step),
    ensures
        after.ops.dispatch_errors == before.ops.dispatch_errors + (if is_fault(step) {
            1int
        } else {
            0int
        }),
        after.ops.ingest_errors == before.ops.ingest_errors + (if is_fault(step) && req is Ingest {
            1int
        } else {
            0int
        }),
{
}

/// A request that is refused once its namespace is open, or whose namespace
/// could not be opened, counts as one failed request, and as a failed ingest
/// where it is one; any other counts as neither.
pub proof fn late_refusals_count_once(
    before: RegistryView,
    key: Seq<char>,
    job: Job,
    result: Result<Option<FirstOpen>, EngineError>,
    after: RegistryView,
    step: Step,
)
    requires
        before.ops.room(),
        went_on(before, key, job, result, after, step),
    ensures
        after.ops.dispatch_errors == before.ops.dispatch_errors + (if is_fault(step) {
            1int
        } else {
            0int
        }),
        after.ops.ingest_errors == before.ops.ingest_errors + (if is_fault(step) && job is Ingest {
            1int
        } else {
            0int
        }),
{
}

/// The counters fit together however a request begins.
pub proof fn beginning_keeps_counters_consistent(
    before: RegistryView,
    req: Request,
    after: RegistryView,
    step: Step,
)
    requires
        before.ops.room(),
        consistent(before.ops),
        begun(before, req, after, step),
    ensures
        consistent(after.ops),
{
}

/// The counters fit together however a request goes on once its namespace is
/// open.
pub proof fn opening_keeps_counters_consistent(
    before: RegistryView,
    key: Seq<char>,
    job: Job,
    result: Result<Option<FirstOpen>, EngineError>,
    after: RegistryView,
    step: Step,
)
    requires
        before.ops.room(),
        consistent(before.ops),
        went_on(before, key, job, result, after, step),
    ensures
        consistent(after.ops),
{
}

/// The counters fit together however a request ends.
pub proof fn finishing_keeps_counters_consistent<T, E>(
    before: RegistryView,
    key: Seq<char>,
    result: Result<T, E>,
    answer: RecallAnswer,
    outcome: IngestOutcome,
)
    requires
        before.ops.room(),
        consistent(before.ops),
    ensures
        consistent(counted(before, result).ops),
        consistent(recall_committed(before, answer).ops),
        consistent(ingested(before, key, outcome).ops),
{
}

/// A request that fails at its end counts as one failed request, and one that
/// does not fail counts as none.
pub proof fn failures_count_once<T, E>(
    before: RegistryView,
    key: Seq<char>,
    result: Result<T, E>,
    answer: RecallAnswer,
    outcome: IngestOutcome,
)
    requires
        before.ops.room(),
    ensures
        counted(before, result).ops.dispatch_errors == before.ops.dispatch_errors + (if result
            is Err {
            1int
        } else {
            0int
        }),
        recall_committed(before, answer).ops.dispatch_errors == before.ops.dispatch_errors + (
        if answer is Failed {
            1int
        } else {
            0int
        }),
        ingested(before, key, outcome).ops.dispatch_errors == before.ops.dispatch_errors + (
        if outcome.summary is Err {
            1int
        } else {
            0int
        }),
        ingested(before, key, outcome).ops.ingest_errors == before.ops.ingest_errors + (
        if outcome.summary is Err {
            1int
        } else {
            0int
        }),
{
}

/// From its beginning to its end, one failed request is counted once, whatever
/// was asked. A request that reaches the store was not counted as failed before;
/// it ends as one failed request exactly where its work failed, and as a failed
/// ingest exactly where it is an ingest besides.
pub proof fn one_failed_request_is_one_error<T, E>(
    before: RegistryView,
    req: Request,
    begun_at: RegistryView,
    step: Step,
    key: Seq<char>,
    job: Job,
    first: Result<Option<FirstOpen>, EngineError>,
    open: RegistryView,
    next: Step,
    result: Result<T, E>,
    answer: RecallAnswer,
    outcome: IngestOutcome,
)
    requires
        before.ops.room(),
        begun(before, req, begun_at, step),
        step is Open,
        went_on(begun_at, key, job, first, open, next),
        next is Work,
    ensures
        counted(open, result).ops.dispatch_errors == before.ops.dispatch_errors + (if result is Err {
            1int
        } else {
            0int
        }),
        counted(open, result).ops.ingest_errors == before.ops.ingest_errors,
        recall_committed(open, answer).ops.dispatch_errors == before.ops.dispatch_errors + (
        if answer is Failed {
            1int
        } else {
            0int
        }),
        recall_committed(open, answer).ops.ingest_errors == before.ops.ingest_errors,
        ingested(open, key, outcome).ops.dispatch_errors == before.ops.dispatch_errors + (
        if outcome.summary is Err {
            1int
        } else {
            0int
        }),
        ingested(open, key, outcome).ops.ingest_errors == before.ops.ingest_errors + (
        if outcome.summary is Err {
            1int
        } else {
            0int
        }),
{
}

/// A delivery takes the turns it claims from the front of the queue, and
/// nothing else changes: the claimed turns followed by the rest are the queue
/// as it was.
pub proof fn claiming_keeps_every_turn(
    open: RegistryView,
    key: Seq<char>,
    limit: Option<u32>,
    after: RegistryView,
    step: Step,
)
    requires
        open_continued(open, key, Job::Pull { limit }, after, step),
    ensures
        step matches Step::Work { work: Work::Deliver { claimed }, .. } && claimed@ + after.queue(
            key,
        ) == open.queue(key),
        after == open.with_queue(key, after.queue(key)),
{
    let n = batch_size(pull_limit(limit), open.queue(key).len()) as int;
    assert(open.queue(key).take(n) + open.queue(key).skip(n) =~= open.queue(key));
}

/// However many marks of a delivery were written, the turns that were
/// delivered followed by the queue as it is then are the claimed turns
/// followed by the queue as it was: no turn is lost and none is queued twice.
pub proof fn unwritten_turns_return_to_the_front(
    before: RegistryView,
    key: Seq<char>,
    plan: Seq<PullItem>,
    written: int,
)
    requires
        0 <= written <= plan.len(),
    ensures
        ({
            let after = before.with_queue(
                key,
                item_ids(plan).skip(written) + before.queue(key),
            );
            item_ids(plan.take(written)) + after.queue(key) == item_ids(plan) + before.queue(key)
        }),
{
    let after = before.with_queue(key, item_ids(plan).skip(written) + before.queue(key));
    assert(item_ids(plan.take(written)) + after.queue(key) =~= item_ids(plan) + before.queue(key));
}

/// Work on one namespace leaves the queue of every other as it is.
pub proof fn namespaces_are_isolated(
    before: RegistryView,
    key: Seq<char>,
    other: Seq<char>,
    job: Job,
    result: Result<Option<FirstOpen>, EngineError>,
    after: RegistryView,
    step: Step,
    outcome: IngestOutcome,
    ids: Seq<u64>,
)
    requires
        key != other,
        went_on(before, key, job, result, after, step),
    ensures
        after.queue(other) == before.queue(other),
        ingested(before, key, outcome).queue(other) == before.queue(other),
        before.with_queue(key, ids).queue(other) == before.queue(other),
{
}

/// What was captured stays captured: the turns of a conversation that were
/// stored for good join the end of the queue, and their keys are known, even
/// where storing the rest failed.
pub proof fn stored_turns_are_kept_on_failure(
    before: RegistryView,
    key: Seq<char>,
    outcome: IngestOutcome,
)
    ensures
        ingested(before, key, outcome).queue(key) == before.queue(key)
            + crate::dispatch::finish::committed_ids(outcome.committed@),
        before.seen_turn_keys.subset_of(ingested(before, key, outcome).seen_turn_keys),
        forall|i: int|
            0 <= i < outcome.committed@.len() ==> ingested(
                before,
                key,
                outcome,
            ).seen_turn_keys.contains((#[trigger] outcome.committed@[i]).1@),
{
    lemma_committed_keys(outcome.committed@);
}

proof fn lemma_committed_keys(v: Seq<(u64, String)>)
    ensures
        forall|i: int|
            0 <= i < v.len() ==> crate::dispatch::finish::committed_keys(v).contains(
                (#[trigger] v[i]).1@,
            ),
    decreases v.len(),
{
    if v.len() > 0 {
        lemma_committed_keys(v.drop_last());
        assert forall|i: int| 0 <= i < v.len() implies crate::dispatch::finish::committed_keys(
            v,
        ).contains((#[trigger] v[i]).1@) by {
            if i < v.len() - 1 {
                assert(v.drop_last()[i] == v[i]);
            }
        }
    }
}

/// Asking for the account of past recalls only adds to the account: what
/// stands before it is the same.
pub proof fn recall_account_is_appended(r: RegistryView, key: Seq<char>, outcome: StatsOutcome)
    ensures
        full_account(r, key, false, outcome) == account(r, key, outcome),
        full_account(r, key, true, outcome) == account(r, key, outcome) + "\n"@
            + recall_stats_text(outcome.recall_stats),
{
}

/// Leaving open whether an account covers past recalls is the same as asking
/// for one that does not: both requests leave the registry as it is, and the
/// store is asked the same.
pub proof fn plain_accounts_are_asked_alike(
    before: RegistryView,
    namespace: Option<String>,
    after_open: RegistryView,
    step_open: Step,
    after_no: RegistryView,
    step_no: Step,
)
    requires
        begun(before, Request::Stats { namespace, recall: None }, after_open, step_open),
        begun(before, Request::Stats { namespace, recall: Some(false) }, after_no, step_no),
    ensures
        after_open == before,
        after_no == before,
        opens(step_open, before.key(text_view(namespace)), false, Job::Stats { recall: false }),
        opens(step_no, before.key(text_view(namespace)), false, Job::Stats { recall: false }),
{
}

/// A failure of the store that is no fault of the caller is never put down to
/// the caller, whatever was asked: neither where a namespace cannot be opened
/// nor where the store fails later.
pub proof fn store_failures_are_internal(
    before: RegistryView,
    key: Seq<char>,
    job: Job,
    e: EngineError,
    after: RegistryView,
    step: Step,
)
    requires
        e.kind == EngineErrorKind::Storage,
        went_on(before, key, job, Err(e), after, step),
    ensures
        replies(step, failure(e.message@)),
        classified(e) == failure(e.message@),
        extraction_reply(e) == failure(e.message@),
{
}

/// Whatever fails is answered with a fault, so that what is counted as failed
/// is what is answered so.
pub proof fn failures_are_answered_with_faults(e: EngineError, fault: AuditFault)
    ensures
        classified(e) is Fault,
        extraction_reply(e) is Fault,
        fault_reply(fault) is Fault,
{
}

/// What is recorded of a recall has no influence on what is counted of it.
pub proof fn telemetry_does_not_change_counters(
    before: RegistryView,
    response: crate::proto::Response,
    empty: bool,
    a: RecallEvent,
    b: RecallEvent,
)
    ensures
        recall_committed(before, RecallAnswer::Answered { response, empty, event: a })
            == recall_committed(before, RecallAnswer::Answered { response, empty, event: b }),
{
}

}
