//! Answering requests while namespaces may have to be migrated first.
//!
//! Before a namespace is used for the first time, someone has to look whether
//! its vectors fit the model in use. Where they do not, a background job makes
//! them anew, and until it is done the namespace is not served.

use crate::dispatch::{begun, dispatch_registry, replies, Step};
use crate::extract::text_view;
use crate::memory::{
    opt_view, MemoryRegistry, MigrationView, NamespaceKey, NamespaceMigrationState, RegistryView,
};
use crate::proto::{failure, ErrKind, Reply, Request, Response};
use vstd::prelude::*;
use vstd::string::StringExecFns;

verus! {

/// A registry, and whether its namespaces are migrated where they have to be.
#[derive(Debug)]
pub struct DispatchRuntime {
    registry: MemoryRegistry,
    migrates: bool,
}

/// What a runtime holds.
pub struct RuntimeView {
    pub registry: RegistryView,
    pub migrates: bool,
}

impl View for DispatchRuntime {
    type V = RuntimeView;

    closed spec fn view(&self) -> RuntimeView {
        RuntimeView { registry: self.registry@, migrates: self.migrates }
    }
}

impl DispatchRuntime {
    /// A runtime that serves every namespace as it is.
    pub fn without_auto_migration(registry: MemoryRegistry) -> (r: Self)
        ensures
            r@.registry == registry@,
            !r@.migrates,
    {
        DispatchRuntime { registry, migrates: false }
    }

    /// A runtime that migrates namespaces where they have to be.
    pub fn daemon(registry: MemoryRegistry) -> (r: Self)
        ensures
            r@.registry == registry@,
            r@.migrates,
    {
        DispatchRuntime { registry, migrates: true }
    }

    /// The registry.
    pub fn registry(&self) -> (r: &MemoryRegistry)
        ensures
            r@ == self@.registry,
    {
        &self.registry
    }

    /// The registry, for the later phases of a request.
    pub fn registry_mut(&mut self) -> (r: &mut MemoryRegistry)
        ensures
            r@ == old(self)@.registry,
            final(self)@.registry == final(r)@,
            final(self)@.migrates == old(self)@.migrates,
    {
        &mut self.registry
    }
}

/// The namespace that a request names.
pub open spec fn named_namespace(req: Request) -> Option<Seq<char>> {
    text_view(
        match req {
            Request::Recall { namespace, .. } => namespace,
            Request::Remember { namespace, .. } => namespace,
            Request::Relate { namespace, .. } => namespace,
            Request::Ingest { namespace, .. } => namespace,
            Request::Stats { namespace, .. } => namespace,
            Request::PullPending { namespace, .. } => namespace,
            Request::ExtractionStatus { namespace } => namespace,
            Request::ExtractionScan { namespace, .. } => namespace,
            Request::StageExtraction { namespace, .. } => namespace,
            Request::RecordExtractionFailure { namespace, .. } => namespace,
            Request::ExtractionAuditList { namespace, .. } => namespace,
            Request::UpdateExtractionCandidateAudit { namespace, .. } => namespace,
            Request::UpdateExtractionRelationAudit { namespace, .. } => namespace,
            Request::Update { namespace, .. } => namespace,
            Request::Forget { namespace, .. } => namespace,
            Request::Supersede { namespace, .. } => namespace,
            Request::List { namespace, .. } => namespace,
            Request::Get { namespace, .. } => namespace,
            Request::Graph { namespace, .. } => namespace,
        },
    )
}

/// The namespace that a request names.
pub fn request_namespace(req: &Request) -> (r: Option<&str>)
    ensures
        opt_view(r) == named_namespace(*req),
{
    let namespace = match req {
        Request::Recall { namespace, .. } => namespace,
        Request::Remember { namespace, .. } => namespace,
        Request::Relate { namespace, .. } => namespace,
        Request::Ingest { namespace, .. } => namespace,
        Request::Stats { namespace, .. } => namespace,
        Request::PullPending { namespace, .. } => namespace,
        Request::ExtractionStatus { namespace } => namespace,
        Request::ExtractionScan { namespace, .. } => namespace,
        Request::StageExtraction { namespace, .. } => namespace,
        Request::RecordExtractionFailure { namespace, .. } => namespace,
        Request::ExtractionAuditList { namespace, .. } => namespace,
        Request::UpdateExtractionCandidateAudit { namespace, .. } => namespace,
        Request::UpdateExtractionRelationAudit { namespace, .. } => namespace,
        Request::Update { namespace, .. } => namespace,
        Request::Forget { namespace, .. } => namespace,
        Request::Supersede { namespace, .. } => namespace,
        Request::List { namespace, .. } => namespace,
        Request::Get { namespace, .. } => namespace,
        Request::Graph { namespace, .. } => namespace,
    };
    match namespace {
        Some(n) => Some(n.as_str()),
        None => None,
    }
}

/// How a request goes on.
#[derive(Debug)]
pub enum Phase {
    /// As without migrations.
    Go { step: Step },
    /// Someone is to look whether the vectors of the namespace fit;
    /// `inspected` goes on from there.
    Inspect { key: NamespaceKey, req: Request },
    /// A job is to be started that migrates the namespace; `spawned` goes on
    /// from there.
    Start { key: NamespaceKey },
}

/// Whether a phase is the given reply.
pub open spec fn refuses(phase: Phase, message: Seq<char>) -> bool {
    phase matches Phase::Go { step } && replies(step, failure(message))
}

/// Whether a request went on as without migrations.
pub open spec fn serves(before: RegistryView, req: Request, after: RegistryView, phase: Phase) -> bool {
    phase matches Phase::Go { step } && begun(before, req, after, step)
}

/// What is told while a namespace is being migrated.
pub open spec fn in_progress() -> Seq<char> {
    "namespace embedding migration is in progress; retry after migration"@
}

/// How a request goes on with a namespace whose state is known: it is served,
/// or refused while a migration runs or after one failed.
pub open spec fn goes_by_state(
    before: RegistryView,
    state: MigrationView,
    req: Request,
    after: RegistryView,
    phase: Phase,
) -> bool {
    match state {
        MigrationView::Ready => serves(before, req, after, phase),
        MigrationView::Migrating => after == before && refuses(phase, in_progress()),
        MigrationView::Failed { message } => after == before && refuses(phase, message),
    }
}

/// How a request begins in a runtime, where `is_open` says whether its
/// namespace is in use already.
pub open spec fn entered(
    before: RuntimeView,
    is_open: bool,
    req: Request,
    after: RuntimeView,
    phase: Phase,
) -> bool {
    let key = before.registry.key(named_namespace(req));
    &&& after.migrates == before.migrates
    &&& if !before.migrates {
        serves(before.registry, req, after.registry, phase)
    } else {
        match before.registry.migration(key) {
            Some(state) => goes_by_state(before.registry, state, req, after.registry, phase),
            None => if is_open {
                serves(before.registry, req, after.registry, phase)
            } else {
                &&& after.registry == before.registry
                &&& phase matches Phase::Inspect { key: k, req: q }
                &&& k@ == key
                &&& q == req
            },
        }
    }
}

/// Begins to answer a request where namespaces are served as they are.
pub fn dispatch(registry: &mut MemoryRegistry, req: Request) -> (step: Step)
    requires
        old(registry)@.ops.room(),
    ensures
        begun(old(registry)@, req, final(registry)@, step),
{
    dispatch_registry(registry, req)
}

fn known_state(registry: &mut MemoryRegistry, key: &NamespaceKey, req: Request) -> (r: Result<
    Phase,
    Request,
>)
    requires
        old(registry)@.ops.room(),
    ensures
        match old(registry)@.migration(key@) {
            Some(state) => r matches Ok(phase) && goes_by_state(
                old(registry)@,
                state,
                req,
                final(registry)@,
                phase,
            ),
            None => r == Err::<Phase, Request>(req) && final(registry)@ == old(registry)@,
        },
{
    let refusal = match registry.namespace_migration_state(key) {
        None => {
            return Err(req);
        },
        Some(NamespaceMigrationState::Ready) => None,
        Some(NamespaceMigrationState::Migrating) => Some(
            "namespace embedding migration is in progress; retry after migration".to_owned(),
        ),
        Some(NamespaceMigrationState::Failed { message }) => Some(message.clone()),
    };
    match refusal {
        Some(message) => Ok(
            Phase::Go { step: Step::Reply { response: Response::internal(message) } },
        ),
        None => Ok(Phase::Go { step: dispatch_registry(registry, req) }),
    }
}

/// Begins to answer a request. A namespace that is migrated, or could not be,
/// is not served, and one of which nothing is known is looked at first.
pub fn dispatch_two_phase(runtime: &mut DispatchRuntime, is_open: bool, req: Request) -> (phase:
    Phase)
    requires
        old(runtime)@.registry.ops.room(),
    ensures
        entered(old(runtime)@, is_open, req, final(runtime)@, phase),
{
    if !runtime.migrates {
        let step = dispatch_registry(&mut runtime.registry, req);
        return Phase::Go { step };
    }
    let key = runtime.registry.canonical_ns_key(request_namespace(&req));
    match known_state(&mut runtime.registry, &key, req) {
        Ok(phase) => phase,
        Err(req) => if is_open {
            let step = dispatch_registry(&mut runtime.registry, req);
            Phase::Go { step }
        } else {
            Phase::Inspect { key, req }
        },
    }
}

/// What looking at a namespace showed.
#[derive(Debug, Clone, Copy, PartialEq, Eq, Structural)]
pub enum NamespaceCompatibility {
    /// Its vectors fit the model in use.
    Ready,
    /// They do not.
    Mismatch,
}

/// What is told where a namespace would have to be migrated and that is
/// switched off.
pub open spec fn not_migrated(key: Seq<char>) -> Seq<char> {
    "namespace \""@ + key + "\" needs an embedding migration, and ANAMNESIS_AUTO_MIGRATE_EMBEDDINGS is off"@
}

/// Whether a job is to be started for a namespace that does not fit.
pub open spec fn starts_job(r: RegistryView, key: Seq<char>) -> bool {
    r.migration(key) is None && r.auto_migrate_embeddings
}

/// The registry after a namespace was found not to fit.
pub open spec fn scheduled(r: RegistryView, key: Seq<char>) -> RegistryView {
    if starts_job(r, key) {
        r.with_migration(key, MigrationView::Migrating)
    } else {
        r
    }
}

/// How a request goes on after its namespace was looked at.
pub open spec fn looked_at(
    before: RegistryView,
    key: Seq<char>,
    req: Request,
    result: Result<NamespaceCompatibility, String>,
    after: RegistryView,
    phase: Phase,
) -> bool {
    match result {
        Err(message) => after == before && refuses(phase, message@),
        Ok(NamespaceCompatibility::Ready) => serves(before, req, after, phase),
        Ok(NamespaceCompatibility::Mismatch) => match before.migration(key) {
            Some(state) => goes_by_state(before, state, req, after, phase),
            None => {
                &&& after == scheduled(before, key)
                &&& if starts_job(before, key) {
                    phase matches Phase::Start { key: k } && k@ == key
                } else {
                    refuses(phase, not_migrated(key))
                }
            },
        },
    }
}

/// Goes on with a request after its namespace was looked at. Where it does not
/// fit, the first to learn of it starts the job that migrates it.
pub fn inspected(
    runtime: &mut DispatchRuntime,
    key: NamespaceKey,
    req: Request,
    result: Result<NamespaceCompatibility, String>,
) -> (phase: Phase)
    requires
        old(runtime)@.registry.ops.room(),
    ensures
        final(runtime)@.migrates == old(runtime)@.migrates,
        looked_at(
            old(runtime)@.registry,
            key@,
            req,
            result,
            final(runtime)@.registry,
            phase,
        ),
{
    match result {
        Err(message) => Phase::Go { step: Step::Reply { response: Response::internal(message) } },
        Ok(NamespaceCompatibility::Ready) => {
            let step = dispatch_registry(&mut runtime.registry, req);
            Phase::Go { step }
        },
        Ok(NamespaceCompatibility::Mismatch) => match known_state(
            &mut runtime.registry,
            &key,
            req,
        ) {
            Ok(phase) => phase,
            Err(_) => if runtime.registry.auto_migrates() {
                runtime.registry.set_migration(&key, NamespaceMigrationState::Migrating);
                Phase::Start { key }
            } else {
                let mut message = "namespace \"".to_owned();
                message.append(key.as_str());
                message.append(
                    "\" needs an embedding migration, and ANAMNESIS_AUTO_MIGRATE_EMBEDDINGS is off",
                );
                Phase::Go { step: Step::Reply { response: Response::internal(message) } }
            },
        },
    }
}

/// What is told when the migration of a namespace was started.
pub open spec fn migration_started(key: Seq<char>) -> Seq<char> {
    "namespace \""@ + key + "\" is migrating its embedding space; retry after migration"@
}

/// Ends a request for whose namespace a job was to be started. Where that
/// failed, the migration has failed.
pub fn spawned(runtime: &mut DispatchRuntime, key: &NamespaceKey, result: Result<(), String>) -> (r:
    Response)
    ensures
        final(runtime)@.migrates == old(runtime)@.migrates,
        match result {
            Ok(_) => final(runtime)@.registry == old(runtime)@.registry && r@ == failure(
                migration_started(key@),
            ),
            Err(message) => final(runtime)@.registry == old(runtime)@.registry.with_migration(
                key@,
                MigrationView::Failed { message: message@ },
            ) && r@ == failure(message@),
        },
{
    match result {
        Ok(_) => {
            let mut message = "namespace \"".to_owned();
            message.append(key.as_str());
            message.append("\" is migrating its embedding space; retry after migration");
            Response::internal(message)
        },
        Err(message) => {
            runtime.registry.finish_namespace_migration(key, Err(message.clone()));
            Response::internal(message)
        },
    }
}

/// What can happen to the migrations of a registry.
pub enum MigrationEvent {
    /// A namespace was found not to fit.
    Mismatch { key: Seq<char> },
    /// The migration of a namespace ended.
    Ended { key: Seq<char>, state: MigrationView },
}

/// The registry after one event.
pub open spec fn after_event(r: RegistryView, e: MigrationEvent) -> RegistryView {
    match e {
        MigrationEvent::Mismatch { key } => scheduled(r, key),
        MigrationEvent::Ended { key, state } => r.with_migration(key, state),
    }
}

/// The registry after a sequence of events.
pub open spec fn after_events(r: RegistryView, events: Seq<MigrationEvent>) -> RegistryView
    decreases events.len(),
{
    if events.len() == 0 {
        r
    } else {
        after_event(after_events(r, events.drop_last()), events.last())
    }
}

/// How many jobs a sequence of events starts for a namespace.
pub open spec fn jobs_started(r: RegistryView, events: Seq<MigrationEvent>, key: Seq<char>) -> nat
    decreases events.len(),
{
    if events.len() == 0 {
        0
    } else {
        let before = after_events(r, events.drop_last());
        jobs_started(r, events.drop_last(), key) + (if events.last() == (MigrationEvent::Mismatch {
            key,
        }) && starts_job(before, key) {
            1nat
        } else {
            0nat
        })
    }
}

/// However often a namespace is found not to fit, and whatever becomes of its
/// migration, at most one job is ever started for it; and as soon as one was
/// started, its state is known.
pub proof fn one_job_per_namespace(r: RegistryView, events: Seq<MigrationEvent>, key: Seq<char>)
    ensures
        jobs_started(r, events, key) <= 1,
        jobs_started(r, events, key) == 1 ==> after_events(r, events).migration(key) is Some,
    decreases events.len(),
{
    if events.len() > 0 {
        one_job_per_namespace(r, events.drop_last(), key);
    }
}

/// The first mismatch of a namespace of which nothing is known starts a job,
/// unless migration is switched off.
pub proof fn first_mismatch_starts_a_job(r: RegistryView, key: Seq<char>)
    requires
        r.migration(key) is None,
        r.auto_migrate_embeddings,
    ensures
        jobs_started(r, seq![MigrationEvent::Mismatch { key }], key) == 1,
        scheduled(r, key).migration(key) == Some(MigrationView::Migrating),
{
    let events = seq![MigrationEvent::Mismatch { key }];
    assert(events.drop_last() =~= Seq::<MigrationEvent>::empty());
    reveal_with_fuel(jobs_started, 2);
}

/// While a namespace is being migrated, no request to it is served: it is
/// refused, and the registry stays as it is.
pub proof fn migrating_namespace_is_not_served(
    before: RuntimeView,
    is_open: bool,
    req: Request,
    after: RuntimeView,
    phase: Phase,
)
    requires
        before.migrates,
        before.registry.migration(before.registry.key(named_namespace(req))) == Some(
            MigrationView::Migrating,
        ),
        entered(before, is_open, req, after, phase),
    ensures
        after.registry == before.registry,
        refuses(phase, in_progress()),
{
}

/// The namespace whose state decides over a request is the one that the request
/// is then served from.
pub proof fn the_checked_namespace_is_the_served_one(
    before: RegistryView,
    req: Request,
    after: RegistryView,
    step: Step,
)
    requires
        begun(before, req, after, step),
    ensures
        step matches Step::Open { key, .. } ==> key@ == before.key(named_namespace(req)),
        req matches Request::Recall { namespace, .. } ==> named_namespace(req) == text_view(
            namespace,
        ),
{
}

/// A namespace that fits, or that is open already, is served as if there were no
/// migrations; one whose migration failed is refused with the cause; one of which
/// nothing is known is looked at first, and the request waits as it is.
pub proof fn namespaces_are_served_by_their_state(
    before: RuntimeView,
    is_open: bool,
    req: Request,
    after: RuntimeView,
    phase: Phase,
)
    requires
        entered(before, is_open, req, after, phase),
    ensures
        after.migrates == before.migrates,
        ({
            let key = before.registry.key(named_namespace(req));
            let known = before.registry.migrations.contains_key(key);
            let state = before.registry.migrations[key];
            &&& !before.migrates || (known && state is Ready) || (!known && is_open) ==> (
            phase matches Phase::Go { step } && begun(before.registry, req, after.registry, step))
            &&& before.migrates && known && state is Migrating ==> {
                &&& after.registry == before.registry
                &&& phase matches Phase::Go { step: Step::Reply { response } }
                &&& response@ == (Reply::Fault {
                    kind: ErrKind::Internal,
                    message:
                        "namespace embedding migration is in progress; retry after migration"@,
                })
            }
            &&& before.migrates && known ==> (state matches MigrationView::Failed { message } ==> {
                &&& after.registry == before.registry
                &&& phase matches Phase::Go { step: Step::Reply { response } }
                &&& response@ == (Reply::Fault { kind: ErrKind::Internal, message })
            })
            &&& before.migrates && !known && !is_open ==> {
                &&& after.registry == before.registry
                &&& phase matches Phase::Inspect { key: k, req: q }
                &&& k@ == key
                &&& q == req
            }
        }),
{
}

/// A namespace that was looked at and fits is served; one that does not fit and
/// of which nothing was known is migrated where that is switched on, and refused
/// where it is switched off; and where it could not be looked at, the cause is
/// told.
pub proof fn namespaces_are_migrated_where_needed(
    before: RegistryView,
    key: Seq<char>,
    req: Request,
    result: Result<NamespaceCompatibility, String>,
    after: RegistryView,
    phase: Phase,
)
    requires
        looked_at(before, key, req, result, after, phase),
    ensures
        result matches Ok(found) && found is Ready ==> (phase matches Phase::Go { step } && begun(
            before,
            req,
            after,
            step,
        )),
        result matches Ok(found) && found is Mismatch && !before.migrations.contains_key(key)
            && before.auto_migrate_embeddings ==> {
            &&& phase matches Phase::Start { key: k }
            &&& k@ == key
            &&& after.migrations == before.migrations.insert(key, MigrationView::Migrating)
            &&& after.ops == before.ops
            &&& after.unextracted == before.unextracted
            &&& after.seen_turn_keys == before.seen_turn_keys
        },
        result matches Ok(found) && found is Mismatch && !before.migrations.contains_key(key)
            && !before.auto_migrate_embeddings ==> {
            &&& after == before
            &&& phase matches Phase::Go { step: Step::Reply { response } }
            &&& response@ is Fault
        },
        result matches Err(message) ==> {
            &&& after == before
            &&& phase matches Phase::Go { step: Step::Reply { response } }
            &&& response@ == (Reply::Fault { kind: ErrKind::Internal, message: message@ })
        },
{
}

/// The migration of one namespace leaves the others as they stand.
pub proof fn migrations_are_isolated(r: RegistryView, e: MigrationEvent, other: Seq<char>)
    requires
        match e {
            MigrationEvent::Mismatch { key } => key != other,
            MigrationEvent::Ended { key, .. } => key != other,
        },
    ensures
        after_event(r, e).migration(other) == r.migration(other),
        after_event(r, e).queue(other) == r.queue(other),
{
}

/// A caller whose namespace is being migrated, or would have to be, is told which
/// one it is.
pub proof fn started_migrations_are_told(key: Seq<char>)
    ensures
        migration_started(key) == "namespace \""@ + key
            + "\" is migrating its embedding space; retry after migration"@,
        not_migrated(key) == "namespace \""@ + key
            + "\" needs an embedding migration, and ANAMNESIS_AUTO_MIGRATE_EMBEDDINGS is off"@,
        in_progress() == "namespace embedding migration is in progress; retry after migration"@,
{
}

}
