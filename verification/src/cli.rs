//! The command line: what a command asks of the service, where it runs, and
//! what it prints.

use crate::extract::{
    resolve_reviewer, text_view, AuditSupport, ContaminationCategory, RelationVerdict,
};
use crate::json::{json_bool, push_json_bool};
use crate::memory::NamespaceKey;
use crate::proto::{EngineError, EngineErrorKind, Reply, Request, Response};
use crate::text::{
    contains_text, decimal, lemma_contains_end, lemma_contains_more, lemma_field,
    lemma_first_field, push_decimal, same, trim,
};
use vstd::prelude::*;
use vstd::string::StringExecFns;

verus! {

/// What the program was called for; nothing means to serve.
#[derive(Debug, Clone)]
pub struct Cli {
    pub command: Option<Commands>,
}

/// The commands.
#[derive(Debug, Clone)]
pub enum Commands {
    Serve { embedded: bool },
    Daemon,
    Dashboard { port: u16, namespace: Option<String> },
    Recall { query: String, limit: usize, namespace: Option<String>, embedded: bool },
    Remember { text: String, namespace: Option<String>, embedded: bool },
    Relate {
        from_id: u64,
        to_id: u64,
        relation: String,
        namespace: Option<String>,
        embedded: bool,
    },
    Extract {
        audit: bool,
        namespace: Option<String>,
        limit: u32,
        candidate: Option<u64>,
        support: Option<AuditSupport>,
        contamination: Option<ContaminationCategory>,
        relation: Option<u64>,
        relation_verdict: Option<RelationVerdict>,
        reviewer: Option<String>,
    },
    Prewarm,
    MigrateEmbeddings { namespace: Option<String> },
    Doctor,
    Stats { namespace: Option<String>, recall: bool, embedded: bool },
    Hook { event: HookEvent },
}

/// What a hook is called for.
#[derive(Debug, Clone, Copy, PartialEq, Eq, Structural)]
pub enum HookEvent {
    SessionStart,
    UserPrompt,
    Stop,
    PreCompact,
    SessionEnd,
}

/// The judgement that a word stands for.
pub open spec fn audit_support(value: Seq<char>) -> Option<AuditSupport> {
    if value == "supported"@ {
        Some(AuditSupport::Supported)
    } else if value == "partial"@ {
        Some(AuditSupport::Partial)
    } else if value == "unsupported"@ {
        Some(AuditSupport::Unsupported)
    } else {
        None
    }
}

/// Reads a judgement on a candidate.
pub fn parse_audit_support(value: &str) -> (r: Result<AuditSupport, String>)
    ensures
        match r {
            Ok(s) => audit_support(value@) == Some(s) && value@ == support_word(s),
            Err(m) => audit_support(value@) is None && m@
                == "must be supported, partial, or unsupported"@,
        },
{
    if same(value, "supported") {
        Ok(AuditSupport::Supported)
    } else if same(value, "partial") {
        Ok(AuditSupport::Partial)
    } else if same(value, "unsupported") {
        Ok(AuditSupport::Unsupported)
    } else {
        Err("must be supported, partial, or unsupported".to_owned())
    }
}

/// The finding that a word stands for.
pub open spec fn contamination_category(value: Seq<char>) -> Option<ContaminationCategory> {
    if value == "unsupported-claim"@ {
        Some(ContaminationCategory::UnsupportedClaim)
    } else if value == "prompt-injection"@ {
        Some(ContaminationCategory::PromptInjection)
    } else if value == "secret-reexposure"@ {
        Some(ContaminationCategory::SecretReexposure)
    } else if value == "foreign-scope"@ {
        Some(ContaminationCategory::ForeignScope)
    } else if value == "contradicts-source"@ {
        Some(ContaminationCategory::ContradictsSource)
    } else {
        None
    }
}

/// Reads a finding on a candidate.
pub fn parse_contamination_category(value: &str) -> (r: Result<ContaminationCategory, String>)
    ensures
        match r {
            Ok(c) => contamination_category(value@) == Some(c) && value@ == contamination_word(c),
            Err(m) => contamination_category(value@) is None && m@
                == "must be unsupported-claim, prompt-injection, secret-reexposure, foreign-scope, or contradicts-source"@,
        },
{
    if same(value, "unsupported-claim") {
        Ok(ContaminationCategory::UnsupportedClaim)
    } else if same(value, "prompt-injection") {
        Ok(ContaminationCategory::PromptInjection)
    } else if same(value, "secret-reexposure") {
        Ok(ContaminationCategory::SecretReexposure)
    } else if same(value, "foreign-scope") {
        Ok(ContaminationCategory::ForeignScope)
    } else if same(value, "contradicts-source") {
        Ok(ContaminationCategory::ContradictsSource)
    } else {
        Err(
            "must be unsupported-claim, prompt-injection, secret-reexposure, foreign-scope, or contradicts-source".to_owned(),
        )
    }
}

/// The judgement on a relation that a word stands for.
pub open spec fn relation_verdict(value: Seq<char>) -> Option<RelationVerdict> {
    if value == "correct"@ {
        Some(RelationVerdict::Correct)
    } else if value == "wrong-type"@ {
        Some(RelationVerdict::WrongType)
    } else if value == "wrong-direction"@ {
        Some(RelationVerdict::WrongDirection)
    } else if value == "invalid"@ {
        Some(RelationVerdict::Invalid)
    } else {
        None
    }
}

/// Reads a judgement on a relation.
pub fn parse_relation_verdict(value: &str) -> (r: Result<RelationVerdict, String>)
    ensures
        match r {
            Ok(v) => relation_verdict(value@) == Some(v) && value@ == verdict_word(v),
            Err(m) => relation_verdict(value@) is None && m@
                == "must be correct, wrong-type, wrong-direction, or invalid"@,
        },
{
    if same(value, "correct") {
        Ok(RelationVerdict::Correct)
    } else if same(value, "wrong-type") {
        Ok(RelationVerdict::WrongType)
    } else if same(value, "wrong-direction") {
        Ok(RelationVerdict::WrongDirection)
    } else if same(value, "invalid") {
        Ok(RelationVerdict::Invalid)
    } else {
        Err("must be correct, wrong-type, wrong-direction, or invalid".to_owned())
    }
}

/// The word for a judgement on a candidate.
pub open spec fn support_word(v: AuditSupport) -> Seq<char> {
    match v {
        AuditSupport::Supported => "supported"@,
        AuditSupport::Partial => "partial"@,
        AuditSupport::Unsupported => "unsupported"@,
    }
}

/// The word for a finding on a candidate.
pub open spec fn contamination_word(v: ContaminationCategory) -> Seq<char> {
    match v {
        ContaminationCategory::UnsupportedClaim => "unsupported-claim"@,
        ContaminationCategory::PromptInjection => "prompt-injection"@,
        ContaminationCategory::SecretReexposure => "secret-reexposure"@,
        ContaminationCategory::ForeignScope => "foreign-scope"@,
        ContaminationCategory::ContradictsSource => "contradicts-source"@,
    }
}

/// The word for a judgement on a relation.
pub open spec fn verdict_word(v: RelationVerdict) -> Seq<char> {
    match v {
        RelationVerdict::Correct => "correct"@,
        RelationVerdict::WrongType => "wrong-type"@,
        RelationVerdict::WrongDirection => "wrong-direction"@,
        RelationVerdict::Invalid => "invalid"@,
    }
}

/// Reading the word for a judgement or a finding gives it back, and what is read
/// from a word has that word.
pub proof fn judgements_are_read_back(
    s: AuditSupport,
    c: ContaminationCategory,
    v: RelationVerdict,
    word: Seq<char>,
)
    ensures
        audit_support(support_word(s)) == Some(s),
        contamination_category(contamination_word(c)) == Some(c),
        relation_verdict(verdict_word(v)) == Some(v),
        audit_support(word) == Some(s) ==> word == support_word(s),
        contamination_category(word) == Some(c) ==> word == contamination_word(c),
        relation_verdict(word) == Some(v) ==> word == verdict_word(v),
{
    reveal_strlit("supported");
    reveal_strlit("partial");
    reveal_strlit("unsupported");
    reveal_strlit("unsupported-claim");
    reveal_strlit("prompt-injection");
    reveal_strlit("secret-reexposure");
    reveal_strlit("foreign-scope");
    reveal_strlit("contradicts-source");
    reveal_strlit("correct");
    reveal_strlit("wrong-type");
    reveal_strlit("wrong-direction");
    reveal_strlit("invalid");
    assert("supported"@[0] == 's' && "partial"@[0] == 'p' && "unsupported"@[0] == 'u');
    assert("unsupported-claim"@[0] == 'u' && "prompt-injection"@[0] == 'p' && "secret-reexposure"@[0]
        == 's' && "foreign-scope"@[0] == 'f' && "contradicts-source"@[0] == 'c');
    assert("correct"@[0] == 'c' && "wrong-type"@.len() != "wrong-direction"@.len()
        && "wrong-type"@[0] == 'w' && "wrong-direction"@[0] == 'w' && "invalid"@[0] == 'i');
}

/// Whether a command asks to run without the daemon.
pub open spec fn asks_embedded(cli: Cli) -> bool {
    match cli.command {
        Some(Commands::Recall { embedded, .. }) => embedded,
        Some(Commands::Remember { embedded, .. }) => embedded,
        Some(Commands::Relate { embedded, .. }) => embedded,
        Some(Commands::Stats { embedded, .. }) => embedded,
        _ => false,
    }
}

/// Whether a command runs without the daemon: because it asks to, or because
/// the environment forbids daemons.
pub fn wants_embedded(cli: &Cli, no_daemon: bool) -> (r: bool)
    ensures
        r == (asks_embedded(*cli) || no_daemon),
{
    let flag = match &cli.command {
        Some(Commands::Recall { embedded, .. }) => *embedded,
        Some(Commands::Remember { embedded, .. }) => *embedded,
        Some(Commands::Relate { embedded, .. }) => *embedded,
        Some(Commands::Stats { embedded, .. }) => *embedded,
        _ => false,
    };
    flag || no_daemon
}

/// Whether an extract command reviews, rather than runs the worker.
pub open spec fn reviews(cli: Cli) -> bool {
    cli.command matches Some(Commands::Extract { audit, candidate, relation, .. }) && (audit
        || candidate is Some || relation is Some)
}

/// Whether an extract command reviews, rather than runs the worker.
pub fn is_extract_audit(cli: &Cli) -> (r: bool)
    ensures
        r == reviews(*cli),
{
    match &cli.command {
        Some(Commands::Extract { audit, candidate, relation, .. }) => *audit || candidate.is_some()
            || relation.is_some(),
        _ => false,
    }
}

/// How the extraction worker ended well.
#[derive(Debug, Clone, Copy, PartialEq, Eq, Structural)]
pub enum WorkerOutcome {
    Staged { run_id: u64, candidate_count: u64, relation_count: u64 },
    AlreadyStaged { run_id: u64, candidate_count: u64, relation_count: u64 },
    Noop(WorkerNoop),
}

/// Why the extraction worker had nothing to do.
#[derive(Debug, Clone, Copy, PartialEq, Eq, Structural)]
pub enum WorkerNoop {
    ModeOff,
    WorkerBusy,
    BelowThreshold,
}

/// How the extraction worker failed.
#[derive(Debug, Clone, PartialEq, Eq)]
pub enum WorkerError {
    Runtime(String),
}

impl WorkerError {
    /// What is told of the failure.
    pub open spec fn text(self) -> Seq<char> {
        match self {
            WorkerError::Runtime(message) => "extraction runtime failed: "@ + message@,
        }
    }

    /// What is told of the failure.
    pub fn message(&self) -> (r: String)
        ensures
            r@ == self.text(),
    {
        match self {
            WorkerError::Runtime(message) => {
                let mut out = "extraction runtime failed: ".to_owned();
                out.append(message.as_str());
                out
            },
        }
    }
}

/// What a run of the extraction worker prints.
#[derive(Debug, Clone, PartialEq, Eq)]
pub struct ExtractRender {
    pub exit_code: i32,
    pub stdout: String,
    pub stderr: String,
}

/// What is told of a run by its numbers.
pub open spec fn run_text(
    start: Seq<char>,
    run_id: u64,
    candidate_count: u64,
    relation_count: u64,
) -> Seq<char> {
    start + decimal(run_id as nat) + " candidate_count="@ + decimal(candidate_count as nat)
        + " relation_count="@ + decimal(relation_count as nat)
}

/// What is told of a run that ended well.
pub open spec fn outcome_text(outcome: WorkerOutcome) -> Seq<char> {
    match outcome {
        WorkerOutcome::Staged { run_id, candidate_count, relation_count } => run_text(
            "extraction staged: run_id="@,
            run_id,
            candidate_count,
            relation_count,
        ),
        WorkerOutcome::AlreadyStaged { run_id, candidate_count, relation_count } => run_text(
            "extraction already staged: run_id="@,
            run_id,
            candidate_count,
            relation_count,
        ),
        WorkerOutcome::Noop(WorkerNoop::ModeOff) => "extraction disabled"@,
        WorkerOutcome::Noop(WorkerNoop::WorkerBusy) => "extraction already running"@,
        WorkerOutcome::Noop(WorkerNoop::BelowThreshold) =>
            "extraction skipped: insufficient captured turns"@,
    }
}

fn run_line(start: &str, run_id: u64, candidate_count: u64, relation_count: u64) -> (r: String)
    ensures
        r@ == run_text(start@, run_id, candidate_count, relation_count),
{
    let mut out = start.to_owned();
    push_decimal(&mut out, run_id);
    out.append(" candidate_count=");
    push_decimal(&mut out, candidate_count);
    out.append(" relation_count=");
    push_decimal(&mut out, relation_count);
    out
}

/// What a run of the extraction worker prints: one line where it ended well,
/// and the failure otherwise.
pub fn render_extract_outcome(result: Result<WorkerOutcome, WorkerError>) -> (r: ExtractRender)
    ensures
        match result {
            Ok(outcome) => r.exit_code == 0 && r.stdout@ == outcome_text(outcome) && r.stderr@
                == Seq::<char>::empty(),
            Err(e) => r.exit_code == 1 && r.stdout@ == Seq::<char>::empty() && r.stderr@ == e.text(),
        },
{
    match result {
        Ok(outcome) => {
            let stdout = match outcome {
                WorkerOutcome::Staged { run_id, candidate_count, relation_count } => run_line(
                    "extraction staged: run_id=",
                    run_id,
                    candidate_count,
                    relation_count,
                ),
                WorkerOutcome::AlreadyStaged { run_id, candidate_count, relation_count } => run_line(
                    "extraction already staged: run_id=",
                    run_id,
                    candidate_count,
                    relation_count,
                ),
                WorkerOutcome::Noop(WorkerNoop::ModeOff) => "extraction disabled".to_owned(),
                WorkerOutcome::Noop(WorkerNoop::WorkerBusy) =>
                    "extraction already running".to_owned(),
                WorkerOutcome::Noop(WorkerNoop::BelowThreshold) =>
                    "extraction skipped: insufficient captured turns".to_owned(),
            };
            let stderr = String::new();
            assert(stderr@ =~= Seq::<char>::empty());
            ExtractRender { exit_code: 0, stdout, stderr }
        },
        Err(e) => {
            let stdout = String::new();
            assert(stdout@ =~= Seq::<char>::empty());
            ExtractRender { exit_code: 1, stdout, stderr: e.message() }
        },
    }
}

/// The namespace that an extract command names.
pub fn extract_namespace(cli: &Cli) -> (r: Option<String>)
    ensures
        text_view(r) == (match cli.command {
            Some(Commands::Extract { namespace, .. }) => text_view(namespace),
            _ => None,
        }),
{
    match &cli.command {
        Some(Commands::Extract { namespace, .. }) => namespace.clone(),
        _ => None,
    }
}

/// Whether a command lists what is to be reviewed.
pub open spec fn lists_reviews(cli: Cli) -> bool {
    cli.command matches Some(Commands::Extract { candidate, relation, .. }) && candidate is None
        && relation is None
}

/// Whether a command asks for the account with that of past recalls.
pub open spec fn asks_recall_stats(cli: Cli) -> bool {
    cli.command matches Some(Commands::Stats { recall, .. }) && recall
}

/// What a command prints of a reply, where `report` is the report that a list
/// of what is to be reviewed makes, if it is one.
pub open spec fn printed(cli: Cli, text: Seq<char>, report: Option<Seq<char>>) -> Seq<char> {
    if lists_reviews(cli) {
        match report {
            Some(r) => r,
            None => text + "\n"@,
        }
    } else if asks_recall_stats(cli) {
        text
    } else {
        text + "\n"@
    }
}

/// What a command prints of a reply: the reports and the account of past
/// recalls come with their own line ends, and anything else gets one.
pub fn format_oneshot_stdout(cli: &Cli, text: &str, report: Option<String>) -> (r: String)
    ensures
        r@ == printed(*cli, text@, text_view(report)),
{
    match &cli.command {
        Some(Commands::Extract { candidate, relation, .. }) => if candidate.is_none()
            && relation.is_none() {
            if let Some(r) = report {
                return r;
            }
        },
        Some(Commands::Stats { recall, .. }) => if *recall {
            return text.to_owned();
        },
        _ => {},
    }
    let mut out = text.to_owned();
    out.append("\n");
    out
}

/// Ends an extract command that ran the worker: what it prints, or why it
/// failed.
pub fn run_extract_worker(cli: &Cli, result: Result<WorkerOutcome, WorkerError>) -> (r: Result<
    String,
    String,
>)
    ensures
        match result {
            Ok(outcome) => r matches Ok(text) && text@ == printed(
                *cli,
                outcome_text(outcome),
                None,
            ),
            Err(e) => r matches Err(message) && message@ == e.text(),
        },
{
    let rendered = render_extract_outcome(result);
    if rendered.exit_code == 0 {
        Ok(format_oneshot_stdout(cli, rendered.stdout.as_str(), None))
    } else {
        Err(rendered.stderr)
    }
}

/// The name under which a review is recorded.
pub open spec fn reviewer_name(reviewer: Option<Seq<char>>, fallback: Seq<char>) -> Seq<char> {
    match reviewer {
        Some(name) => if trim(name).len() > 0 {
            trim(name)
        } else {
            fallback
        },
        None => fallback,
    }
}

/// Whether a request is the one that a command makes of the service, where
/// `fallback` is the auditor if none is named; nothing where it makes none.
pub open spec fn requests(cli: Cli, fallback: Seq<char>, request: Option<Request>) -> bool {
    match cli.command {
        Some(Commands::Recall { query, limit, namespace, .. }) => request == Some(
            Request::Recall {
                query,
                limit: Some(limit as u32),
                namespace,
                reinforce: None,
                gate_threshold: None,
                cosine_gate: None,
                knowledge_only: None,
                scope: None,
                tag: None,
                event_kind: None,
            },
        ),
        Some(Commands::Remember { text, namespace, .. }) => request == Some(
            Request::Remember {
                content: text,
                namespace,
                tags: None,
                metadata: None,
                scope: None,
            },
        ),
        Some(Commands::Relate { from_id, to_id, relation, namespace, .. }) => request == Some(
            Request::Relate { from_id, to_id, relation, namespace },
        ),
        Some(Commands::Stats { namespace, recall, .. }) => request == Some(
            Request::Stats {
                namespace,
                recall: if recall {
                    Some(true)
                } else {
                    None
                },
            },
        ),
        Some(Commands::Extract {
            namespace,
            limit,
            candidate,
            support,
            contamination,
            relation,
            relation_verdict,
            reviewer,
            ..
        }) => if candidate is None && relation is None {
            request == Some(Request::ExtractionAuditList { namespace, limit: Some(limit) })
        } else if candidate is Some && support is Some {
            &&& request matches Some(
                Request::UpdateExtractionCandidateAudit {
                    namespace: ns,
                    candidate_id,
                    support: s,
                    contamination: c,
                    reviewer: name,
                },
            )
            &&& ns == namespace
            &&& candidate_id == candidate->0
            &&& s == support->0
            &&& c == contamination
            &&& name@ == reviewer_name(text_view(reviewer), fallback)
        } else if relation is Some && relation_verdict is Some {
            &&& request matches Some(
                Request::UpdateExtractionRelationAudit {
                    namespace: ns,
                    relation_id,
                    verdict,
                    reviewer: name,
                },
            )
            &&& ns == namespace
            &&& relation_id == relation->0
            &&& verdict == relation_verdict->0
            &&& name@ == reviewer_name(text_view(reviewer), fallback)
        } else {
            request is None
        },
        _ => request is None,
    }
}

fn name_of(reviewer: &Option<String>, fallback: &str) -> (r: String)
    ensures
        r@ == reviewer_name(text_view(*reviewer), fallback@),
{
    match reviewer {
        Some(name) => resolve_reviewer(Some(name.as_str()), fallback),
        None => resolve_reviewer(None, fallback),
    }
}

/// The request that a command makes of the service.
pub fn oneshot_request(cli: &Cli, fallback: &str) -> (r: Option<Request>)
    ensures
        requests(*cli, fallback@, r),
{
    match &cli.command {
        Some(Commands::Recall { query, limit, namespace, .. }) => Some(
            Request::Recall {
                query: query.clone(),
                limit: Some(*limit as u32),
                namespace: namespace.clone(),
                reinforce: None,
                gate_threshold: None,
                cosine_gate: None,
                knowledge_only: None,
                scope: None,
                tag: None,
                event_kind: None,
            },
        ),
        Some(Commands::Remember { text, namespace, .. }) => Some(
            Request::Remember {
                content: text.clone(),
                namespace: namespace.clone(),
                tags: None,
                metadata: None,
                scope: None,
            },
        ),
        Some(Commands::Relate { from_id, to_id, relation, namespace, .. }) => Some(
            Request::Relate {
                from_id: *from_id,
                to_id: *to_id,
                relation: relation.clone(),
                namespace: namespace.clone(),
            },
        ),
        Some(Commands::Stats { namespace, recall, .. }) => Some(
            Request::Stats {
                namespace: namespace.clone(),
                recall: if *recall {
                    Some(true)
                } else {
                    None
                },
            },
        ),
        Some(Commands::Extract {
            namespace,
            limit,
            candidate,
            support,
            contamination,
            relation,
            relation_verdict,
            reviewer,
            ..
        }) => {
            if candidate.is_none() && relation.is_none() {
                return Some(
                    Request::ExtractionAuditList {
                        namespace: namespace.clone(),
                        limit: Some(*limit),
                    },
                );
            }
            if let (Some(candidate_id), Some(s)) = (candidate, support) {
                return Some(
                    Request::UpdateExtractionCandidateAudit {
                        namespace: namespace.clone(),
                        candidate_id: *candidate_id,
                        support: *s,
                        contamination: *contamination,
                        reviewer: name_of(reviewer, fallback),
                    },
                );
            }
            if let (Some(relation_id), Some(verdict)) = (relation, relation_verdict) {
                return Some(
                    Request::UpdateExtractionRelationAudit {
                        namespace: namespace.clone(),
                        relation_id: *relation_id,
                        verdict: *verdict,
                        reviewer: name_of(reviewer, fallback),
                    },
                );
            }
            None
        },
        _ => None,
    }
}

/// The text of a reply, or what went wrong.
pub fn call_oneshot(response: Response) -> (r: Result<String, String>)
    ensures
        match response@ {
            Reply::Done { text } => r matches Ok(t) && t@ == text,
            Reply::Fault { message, .. } => r matches Err(m) && m@ == message,
        },
{
    match response {
        Response::Done { text } => Ok(text),
        Response::Fault { message, .. } => Err(message),
    }
}

/// The request of a command that runs without the daemon, or why it cannot.
pub fn run_embedded_oneshot(cli: &Cli, fallback: &str) -> (r: Result<Request, String>)
    ensures
        match r {
            Ok(request) => requests(*cli, fallback@, Some(request)),
            Err(m) => requests(*cli, fallback@, None) && m@ == "invalid embedded one-shot command"@,
        },
{
    match oneshot_request(cli, fallback) {
        Some(request) => Ok(request),
        None => Err("invalid embedded one-shot command".to_owned()),
    }
}

/// The request of a command that runs as a client of the daemon, or why it
/// cannot.
pub fn run_oneshot_client(cli: &Cli, fallback: &str) -> (r: Result<Request, String>)
    ensures
        match r {
            Ok(request) => requests(*cli, fallback@, Some(request)),
            Err(m) => requests(*cli, fallback@, None) && m@ == "invalid one-shot client command"@,
        },
{
    match oneshot_request(cli, fallback) {
        Some(request) => Ok(request),
        None => Err("invalid one-shot client command".to_owned()),
    }
}

/// What became of a command that might end at once.
#[derive(Debug, Clone, Copy, PartialEq, Eq, Structural)]
pub enum Oneshot {
    /// It has ended.
    Done,
    /// The server is to be started.
    Serve,
    /// It runs as a client of the daemon.
    Client,
}

/// Where a command runs.
#[derive(Debug, Clone, Copy, PartialEq, Eq, Structural)]
pub enum Route {
    /// The server is to be started.
    Serve,
    /// As a client of the daemon.
    Client,
    /// Here, by way of a request to the service.
    Dispatch,
    /// Here: a note is to be stored.
    Remember,
    /// Here: two nodes are to be linked.
    Relate,
    /// Here: the account is to be printed.
    Stats,
    /// Here: the embedding model is to be fetched.
    Prewarm,
    /// Here: the setup is to be looked at.
    Doctor,
}

/// Where a command runs, where `embedded` says whether it is to run without
/// the daemon.
pub open spec fn route_of(cli: Cli, embedded: bool) -> Route {
    match cli.command {
        None => Route::Serve,
        Some(command) => match command {
            Commands::Serve { .. } | Commands::Daemon | Commands::Dashboard { .. }
            | Commands::MigrateEmbeddings { .. } => Route::Serve,
            Commands::Hook { .. } | Commands::Extract { .. } => Route::Client,
            Commands::Recall { .. } => if embedded {
                Route::Dispatch
            } else {
                Route::Client
            },
            Commands::Remember { .. } => if embedded {
                Route::Remember
            } else {
                Route::Client
            },
            Commands::Relate { .. } => if embedded {
                Route::Relate
            } else {
                Route::Client
            },
            Commands::Stats { recall, .. } => if !embedded {
                Route::Client
            } else if recall {
                Route::Dispatch
            } else {
                Route::Stats
            },
            Commands::Prewarm => Route::Prewarm,
            Commands::Doctor => Route::Doctor,
        },
    }
}

/// Decides where a command runs.
pub fn run_oneshot(cli: &Cli, embedded: bool) -> (r: Route)
    ensures
        r == route_of(*cli, embedded),
{
    match &cli.command {
        None => Route::Serve,
        Some(command) => match command {
            Commands::Serve { .. } => Route::Serve,
            Commands::Daemon => Route::Serve,
            Commands::Dashboard { .. } => Route::Serve,
            Commands::MigrateEmbeddings { .. } => Route::Serve,
            Commands::Hook { .. } => Route::Client,
            Commands::Extract { .. } => Route::Client,
            Commands::Recall { .. } => if embedded {
                Route::Dispatch
            } else {
                Route::Client
            },
            Commands::Remember { .. } => if embedded {
                Route::Remember
            } else {
                Route::Client
            },
            Commands::Relate { .. } => if embedded {
                Route::Relate
            } else {
                Route::Client
            },
            Commands::Stats { recall, .. } => if !embedded {
                Route::Client
            } else if *recall {
                Route::Dispatch
            } else {
                Route::Stats
            },
            Commands::Prewarm => Route::Prewarm,
            Commands::Doctor => Route::Doctor,
        },
    }
}

/// What a command that ran where it was to run became.
pub fn oneshot_outcome(route: Route) -> (r: Oneshot)
    ensures
        r == (match route {
            Route::Serve => Oneshot::Serve,
            Route::Client => Oneshot::Client,
            _ => Oneshot::Done,
        }),
{
    match route {
        Route::Serve => Oneshot::Serve,
        Route::Client => Oneshot::Client,
        _ => Oneshot::Done,
    }
}

/// A command asks the service for what it says: its own query, note, nodes,
/// account or review, in the namespace it names, and nothing it does not say.
pub proof fn commands_ask_for_what_they_say(
    cli: Cli,
    fallback: Seq<char>,
    request: Option<Request>,
)
    requires
        requests(cli, fallback, request),
    ensures
        cli.command matches Some(Commands::Recall { query, limit, namespace, .. }) ==> (
        request matches Some(
            Request::Recall {
                query: q,
                limit: l,
                namespace: ns,
                reinforce,
                gate_threshold,
                cosine_gate,
                knowledge_only,
                scope,
                tag,
                event_kind,
            },
        ) && q == query && l == Some(limit as u32) && ns == namespace && reinforce is None
            && gate_threshold is None && cosine_gate is None && knowledge_only is None && scope
            is None && tag is None && event_kind is None),
        cli.command matches Some(Commands::Remember { text, namespace, .. }) ==> (
        request matches Some(Request::Remember { content, namespace: ns, tags, metadata, scope })
            && content == text && ns == namespace && tags is None && metadata is None && scope
            is None),
        cli.command matches Some(
            Commands::Relate { from_id, to_id, relation, namespace, .. },
        ) ==> (request matches Some(
            Request::Relate { from_id: f, to_id: t, relation: r, namespace: ns },
        ) && f == from_id && t == to_id && r == relation && ns == namespace),
        cli.command matches Some(Commands::Stats { namespace, recall, .. }) ==> (
        request matches Some(Request::Stats { namespace: ns, recall: r }) && ns == namespace && (r
            == Some(true) <==> recall)),
        cli.command matches Some(
            Commands::Extract { namespace, limit, candidate, relation, .. },
        ) ==> (candidate is None && relation is None ==> (request matches Some(
            Request::ExtractionAuditList { namespace: ns, limit: l },
        ) && ns == namespace && l == Some(limit))),
        cli.command matches Some(
            Commands::Extract { namespace, candidate, support, contamination, reviewer, .. },
        ) ==> (candidate is Some && support is Some ==> (request matches Some(
            Request::UpdateExtractionCandidateAudit {
                namespace: ns,
                candidate_id,
                support: s,
                contamination: c,
                reviewer: name,
            },
        ) && ns == namespace && candidate_id == candidate->0 && s == support->0 && c
            == contamination && (reviewer is None ==> name@ == fallback) && (reviewer matches Some(
            given,
        ) ==> name@ == (if trim(given@).len() > 0 {
            trim(given@)
        } else {
            fallback
        })))),
        cli.command matches Some(
            Commands::Extract { namespace, candidate, relation, relation_verdict, reviewer, .. },
        ) ==> (candidate is None && relation is Some && relation_verdict is Some ==> (
        request matches Some(
            Request::UpdateExtractionRelationAudit {
                namespace: ns,
                relation_id,
                verdict,
                reviewer: name,
            },
        ) && ns == namespace && relation_id == relation->0 && verdict == relation_verdict->0 && (
        reviewer is None ==> name@ == fallback) && (reviewer matches Some(given) ==> name@ == (
        if trim(given@).len() > 0 {
            trim(given@)
        } else {
            fallback
        })))),
        cli.command is None ==> request is None,
        cli.command matches Some(c) && !(c is Recall || c is Remember || c is Relate || c is Stats
            || c is Extract) ==> request is None,
{
}

/// A command runs without the daemon where it asks to; a command that asks the
/// service runs as its client otherwise. Serving, the daemon, the dashboard and
/// migrations start a server, and the model and the setup are looked at here.
pub proof fn commands_run_where_they_should(cli: Cli, embedded: bool)
    ensures
        cli.command is None ==> route_of(cli, embedded) == Route::Serve,
        cli.command matches Some(c) ==> {
            &&& c is Serve || c is Daemon || c is Dashboard || c is MigrateEmbeddings ==> route_of(
                cli,
                embedded,
            ) == Route::Serve
            &&& c is Hook || c is Extract ==> route_of(cli, embedded) == Route::Client
            &&& !embedded && (c is Recall || c is Remember || c is Relate || c is Stats)
                ==> route_of(cli, embedded) == Route::Client
            &&& embedded && c is Recall ==> route_of(cli, embedded) == Route::Dispatch
            &&& embedded && c is Remember ==> route_of(cli, embedded) == Route::Remember
            &&& embedded && c is Relate ==> route_of(cli, embedded) == Route::Relate
            &&& embedded && (c matches Commands::Stats { recall, .. } && recall) ==> route_of(
                cli,
                embedded,
            ) == Route::Dispatch
            &&& embedded && (c matches Commands::Stats { recall, .. } && !recall) ==> route_of(
                cli,
                embedded,
            ) == Route::Stats
            &&& c is Prewarm ==> route_of(cli, embedded) == Route::Prewarm
            &&& c is Doctor ==> route_of(cli, embedded) == Route::Doctor
        },
        cli.command matches Some(Commands::Recall { embedded: e, .. }) ==> asks_embedded(cli) == e,
        cli.command matches Some(Commands::Remember { embedded: e, .. }) ==> asks_embedded(cli)
            == e,
        cli.command matches Some(Commands::Relate { embedded: e, .. }) ==> asks_embedded(cli) == e,
        cli.command matches Some(Commands::Stats { embedded: e, .. }) ==> asks_embedded(cli) == e,
        asks_embedded(cli) ==> (cli.command matches Some(c) && (c is Recall || c is Remember || c
            is Relate || c is Stats)),
        reviews(cli) <==> (cli.command matches Some(
            Commands::Extract { audit, candidate, relation, .. },
        ) && (audit || candidate is Some || relation is Some)),
{
}

/// A reply is printed as it is, on lines of its own. The account of past recalls
/// brings its own line ends, and where a review lists what is to be judged, its
/// report is printed in place of the reply.
pub proof fn replies_are_printed_as_they_are(
    cli: Cli,
    text: Seq<char>,
    report: Option<Seq<char>>,
)
    ensures
        cli.command matches Some(Commands::Stats { recall, .. }) && recall ==> printed(
            cli,
            text,
            report,
        ) == text,
        (cli.command matches Some(Commands::Extract { candidate, relation, .. }) && candidate is None
            && relation is None) ==> (report matches Some(r) ==> printed(cli, text, report) == r),
        !(cli.command matches Some(Commands::Stats { recall, .. }) && recall) && (!(
        cli.command matches Some(Commands::Extract { candidate, relation, .. }) && candidate is None
            && relation is None) || report is None) ==> printed(cli, text, report) == text
            + "\n"@,
{
}

/// A run of the extraction worker tells its number and how much it staged, each
/// under its name, and why it did nothing where it did nothing.
pub proof fn runs_tell_what_they_staged(run_id: u64, candidates: u64, relations: u64)
    ensures
        outcome_text(
            WorkerOutcome::Staged {
                run_id,
                candidate_count: candidates,
                relation_count: relations,
            },
        ) == "extraction staged: run_id="@ + decimal(run_id as nat) + " candidate_count="@
            + decimal(candidates as nat) + " relation_count="@ + decimal(relations as nat),
        outcome_text(
            WorkerOutcome::AlreadyStaged {
                run_id,
                candidate_count: candidates,
                relation_count: relations,
            },
        ) == "extraction already staged: run_id="@ + decimal(run_id as nat) + " candidate_count="@
            + decimal(candidates as nat) + " relation_count="@ + decimal(relations as nat),
        outcome_text(WorkerOutcome::Noop(WorkerNoop::ModeOff)) == "extraction disabled"@,
        outcome_text(WorkerOutcome::Noop(WorkerNoop::WorkerBusy)) == "extraction already running"@,
        outcome_text(WorkerOutcome::Noop(WorkerNoop::BelowThreshold))
            == "extraction skipped: insufficient captured turns"@,
{
}

/// The commands that run as a client of the daemon although they are to run
/// without it are the reviewing and extracting ones and the hooks; those never
/// run without it.
pub proof fn embedded_commands_need_no_daemon(cli: Cli)
    ensures
        route_of(cli, true) == Route::Client <==> (cli.command is Some && (cli.command->0 is Extract
            || cli.command->0 is Hook)),
        route_of(cli, true) == Route::Client ==> route_of(cli, false) == Route::Client,
{
}

/// Every command that runs as a client of the daemon, hooks aside, and every
/// one that runs here by way of a request, has a request to make, unless it
/// reviews without a judgement.
pub proof fn routed_commands_have_a_request(
    cli: Cli,
    embedded: bool,
    fallback: Seq<char>,
    request: Option<Request>,
)
    requires
        route_of(cli, embedded) == Route::Client || route_of(cli, embedded) == Route::Dispatch,
        !(cli.command->0 is Hook),
        requests(cli, fallback, request),
        cli.command matches Some(
            Commands::Extract { candidate, support, relation, relation_verdict, .. },
        ) ==> (candidate is Some ==> support is Some) && (relation is Some ==> relation_verdict
            is Some),
    ensures
        request is Some,
{
}

/// How a manual migration ended.
#[derive(Debug, Clone, PartialEq, Eq)]
pub enum MigrationOutcome {
    /// The vectors fit the model already.
    NoOp { model: String, dimensions: u64 },
    /// They were made anew; `resumed` and `backup` as they are shown.
    Migrated { migrated: u64, resumed: String, backup: String },
}

/// What is told of a manual migration.
pub open spec fn migration_text(namespace: Seq<char>, outcome: MigrationOutcome) -> Seq<char> {
    match outcome {
        MigrationOutcome::NoOp { model, dimensions } => "embedding migration no-op: namespace="@
            + namespace + " model="@ + model@ + " dimensions="@ + decimal(dimensions as nat)
            + " already compatible\n"@,
        MigrationOutcome::Migrated { migrated, resumed, backup } =>
            "embedding migration complete: namespace="@ + namespace + " migrated="@ + decimal(
            migrated as nat,
        ) + " resumed="@ + resumed@ + " backup="@ + backup@ + "\n"@,
    }
}

/// What is told of a manual migration.
pub fn write_migration_summary(namespace: &str, outcome: &MigrationOutcome) -> (r: String)
    ensures
        r@ == migration_text(namespace@, *outcome),
{
    match outcome {
        MigrationOutcome::NoOp { model, dimensions } => {
            let mut out = "embedding migration no-op: namespace=".to_owned();
            out.append(namespace);
            out.append(" model=");
            out.append(model.as_str());
            out.append(" dimensions=");
            push_decimal(&mut out, *dimensions);
            out.append(" already compatible\n");
            out
        },
        MigrationOutcome::Migrated { migrated, resumed, backup } => {
            let mut out = "embedding migration complete: namespace=".to_owned();
            out.append(namespace);
            out.append(" migrated=");
            push_decimal(&mut out, *migrated);
            out.append(" resumed=");
            out.append(resumed.as_str());
            out.append(" backup=");
            out.append(backup.as_str());
            out.append("\n");
            out
        },
    }
}

/// A migration by hand that is ready to begin.
#[derive(Debug)]
pub struct ManualEmbeddingMigration {
    pub namespace: NamespaceKey,
    pub db_path: String,
}

impl ManualEmbeddingMigration {
    /// The namespace that is migrated.
    pub fn namespace(&self) -> (r: &str)
        ensures
            r@ == self.namespace@,
    {
        self.namespace.as_str()
    }
}

/// What was found about a database that is to be migrated by hand.
#[derive(Debug, Clone, PartialEq, Eq)]
pub enum ManualFault {
    /// The namespace has no file.
    NotFileBacked,
    /// The file cannot be looked at.
    Missing { path: String, error: String },
    /// It is not a regular file.
    NotRegular { path: String },
    /// It is in use.
    InUse { error: String },
    /// Its full path cannot be found.
    Unresolved { path: String, error: String },
}

impl ManualFault {
    /// What is told of it.
    pub open spec fn text(self, namespace: Seq<char>) -> Seq<char> {
        match self {
            ManualFault::NotFileBacked =>
                "manual embedding migration requires a file-backed database"@,
            ManualFault::Missing { path, error } => "namespace \""@ + namespace + "\" database "@
                + path@ + " must already exist before migration: "@ + error@,
            ManualFault::NotRegular { path } => "namespace \""@ + namespace + "\" database "@ + path@
                + " is not a regular file"@,
            ManualFault::InUse { error } => "cannot migrate namespace \""@ + namespace
                + "\" while its database is in use; stop the anamnesis daemon or other owner, then retry: "@
                + error@,
            ManualFault::Unresolved { path, error } => "resolve namespace \""@ + namespace
                + "\" database "@ + path@ + ": "@ + error@,
        }
    }

    /// Whether the caller asked for something that cannot be done.
    pub open spec fn is_input(self) -> bool {
        self is NotFileBacked || self is NotRegular
    }

    /// The failure as the store would report it.
    pub fn error(&self, namespace: &NamespaceKey) -> (r: EngineError)
        ensures
            r.message@ == self.text(namespace@),
            r.kind == (if self.is_input() {
                EngineErrorKind::InvalidInput
            } else {
                EngineErrorKind::Storage
            }),
    {
        match self {
            ManualFault::NotFileBacked => EngineError::invalid_input(
                "manual embedding migration requires a file-backed database".to_owned(),
            ),
            ManualFault::Missing { path, error } => {
                let mut message = "namespace \"".to_owned();
                message.append(namespace.as_str());
                message.append("\" database ");
                message.append(path.as_str());
                message.append(" must already exist before migration: ");
                message.append(error.as_str());
                EngineError { kind: EngineErrorKind::Storage, message }
            },
            ManualFault::NotRegular { path } => {
                let mut message = "namespace \"".to_owned();
                message.append(namespace.as_str());
                message.append("\" database ");
                message.append(path.as_str());
                message.append(" is not a regular file");
                EngineError::invalid_input(message)
            },
            ManualFault::InUse { error } => {
                let mut message = "cannot migrate namespace \"".to_owned();
                message.append(namespace.as_str());
                message.append(
                    "\" while its database is in use; stop the anamnesis daemon or other owner, then retry: ",
                );
                message.append(error.as_str());
                EngineError { kind: EngineErrorKind::Storage, message }
            },
            ManualFault::Unresolved { path, error } => {
                let mut message = "resolve namespace \"".to_owned();
                message.append(namespace.as_str());
                message.append("\" database ");
                message.append(path.as_str());
                message.append(": ");
                message.append(error.as_str());
                EngineError { kind: EngineErrorKind::Storage, message }
            },
        }
    }
}

/// How far the preparation of a manual migration has come.
#[derive(Debug, Clone, PartialEq, Eq)]
pub enum ManualStage {
    /// The path of the database is to be found.
    Locate,
    /// The file is to be looked at.
    Look { path: String },
    /// The lock of the database is to be taken.
    Lock { path: String },
    /// The full path is to be found.
    Resolve { path: String },
    /// The migration can begin, at this path.
    Ready { path: String },
    /// It cannot.
    Refused { fault: ManualFault },
}

/// What came of the step that a stage asks for.
#[derive(Debug, PartialEq, Eq)]
pub enum ManualEvent {
    Located { path: Option<String> },
    Looked { is_file: Result<bool, String> },
    Locked { result: Result<(), String> },
    Resolved { path: Result<String, String> },
}

/// How the preparation goes on. An event that a stage did not ask for changes
/// nothing.
pub open spec fn manual_next(stage: ManualStage, event: ManualEvent) -> ManualStage {
    match (stage, event) {
        (ManualStage::Locate, ManualEvent::Located { path }) => match path {
            Some(path) => ManualStage::Look { path },
            None => ManualStage::Refused { fault: ManualFault::NotFileBacked },
        },
        (ManualStage::Look { path }, ManualEvent::Looked { is_file }) => match is_file {
            Ok(true) => ManualStage::Lock { path },
            Ok(false) => ManualStage::Refused { fault: ManualFault::NotRegular { path } },
            Err(error) => ManualStage::Refused { fault: ManualFault::Missing { path, error } },
        },
        (ManualStage::Lock { path }, ManualEvent::Locked { result }) => match result {
            Ok(_) => ManualStage::Resolve { path },
            Err(error) => ManualStage::Refused { fault: ManualFault::InUse { error } },
        },
        (ManualStage::Resolve { path }, ManualEvent::Resolved { path: full }) => match full {
            Ok(path) => ManualStage::Ready { path },
            Err(error) => ManualStage::Refused { fault: ManualFault::Unresolved { path, error } },
        },
        (stage, _) => stage,
    }
}

/// Prepares a manual migration step by step.
pub fn prepare_manual_migration(stage: ManualStage, event: ManualEvent) -> (r: ManualStage)
    ensures
        r == manual_next(stage, event),
{
    match (stage, event) {
        (ManualStage::Locate, ManualEvent::Located { path }) => match path {
            Some(path) => ManualStage::Look { path },
            None => ManualStage::Refused { fault: ManualFault::NotFileBacked },
        },
        (ManualStage::Look { path }, ManualEvent::Looked { is_file }) => match is_file {
            Ok(regular) => if regular {
                ManualStage::Lock { path }
            } else {
                ManualStage::Refused { fault: ManualFault::NotRegular { path } }
            },
            Err(error) => ManualStage::Refused { fault: ManualFault::Missing { path, error } },
        },
        (ManualStage::Lock { path }, ManualEvent::Locked { result }) => match result {
            Ok(_) => ManualStage::Resolve { path },
            Err(error) => ManualStage::Refused { fault: ManualFault::InUse { error } },
        },
        (ManualStage::Resolve { path }, ManualEvent::Resolved { path: full }) => match full {
            Ok(path) => ManualStage::Ready { path },
            Err(error) => ManualStage::Refused { fault: ManualFault::Unresolved { path, error } },
        },
        (stage, _) => stage,
    }
}

/// The stage after a sequence of events.
pub open spec fn manual_run(events: Seq<ManualEvent>) -> ManualStage
    decreases events.len(),
{
    if events.len() == 0 {
        ManualStage::Locate
    } else {
        manual_next(manual_run(events.drop_last()), events.last())
    }
}

/// Whether an event tells that the lock was taken.
pub open spec fn takes_lock(event: ManualEvent) -> bool {
    event matches ManualEvent::Locked { result } && result is Ok
}

/// Whether the lock was taken among the events.
pub open spec fn was_locked(events: Seq<ManualEvent>) -> bool {
    exists|i: int| 0 <= i < events.len() && takes_lock(#[trigger] events[i])
}

/// A migration by hand goes on only where each step went well, with the file it
/// was given: one without a file, one that is not there, one that is no regular
/// file and one that is in use are refused, each for its own reason, and what was
/// refused stays refused.
pub proof fn manual_migrations_go_step_by_step(stage: ManualStage, event: ManualEvent)
    ensures
        manual_next(stage, event) is Look ==> stage is Look || (stage is Locate && (
        event matches ManualEvent::Located { path } && (path matches Some(p) && manual_next(
            stage,
            event,
        ) == (ManualStage::Look { path: p })))),
        manual_next(stage, event) is Lock ==> stage is Lock || (stage matches ManualStage::Look {
            path,
        } && event == (ManualEvent::Looked { is_file: Ok(true) }) && manual_next(stage, event) == (
        ManualStage::Lock { path })),
        manual_next(stage, event) is Resolve ==> stage is Resolve || (
        stage matches ManualStage::Lock { path } && (event matches ManualEvent::Locked { result }
            && result is Ok) && manual_next(stage, event) == (ManualStage::Resolve { path })),
        manual_next(stage, event) is Ready ==> stage is Ready || (stage is Resolve && (
        event matches ManualEvent::Resolved { path } && (path matches Ok(p) && manual_next(
            stage,
            event,
        ) == (ManualStage::Ready { path: p })))),
        stage is Refused ==> manual_next(stage, event) == stage,
        stage is Ready ==> manual_next(stage, event) == stage,
        stage is Locate && event == (ManualEvent::Located { path: None }) ==> manual_next(
            stage,
            event,
        ) == (ManualStage::Refused { fault: ManualFault::NotFileBacked }),
        stage matches ManualStage::Look { path } ==> (event == (ManualEvent::Looked {
            is_file: Ok(false),
        }) ==> manual_next(stage, event) == (ManualStage::Refused {
            fault: ManualFault::NotRegular { path },
        })),
        stage matches ManualStage::Look { path } ==> (event matches ManualEvent::Looked {
            is_file: Err(error),
        } ==> manual_next(stage, event) == (ManualStage::Refused {
            fault: ManualFault::Missing { path, error },
        })),
        stage matches ManualStage::Resolve { path } ==> (event matches ManualEvent::Resolved {
            path: Err(error),
        } ==> manual_next(stage, event) == (ManualStage::Refused {
            fault: ManualFault::Unresolved { path, error },
        })),
        stage matches ManualStage::Lock { path } ==> (event matches ManualEvent::Locked {
            result: Err(error),
        } ==> manual_next(stage, event) == (ManualStage::Refused {
            fault: ManualFault::InUse { error },
        })),
{
}

/// A database is migrated by hand only after its lock was taken.
pub proof fn manual_migration_holds_the_lock(events: Seq<ManualEvent>)
    ensures
        manual_run(events) is Ready || manual_run(events) is Resolve ==> was_locked(events),
    decreases events.len(),
{
    if events.len() > 0 {
        let fewer = events.drop_last();
        manual_migration_holds_the_lock(fewer);
        if was_locked(fewer) {
            let i = choose|i: int| 0 <= i < fewer.len() && takes_lock(#[trigger] fewer[i]);
            assert(takes_lock(events[i]));
        } else if manual_run(events) is Resolve {
            assert(takes_lock(events[events.len() - 1]));
        }
    }
}

/// What looking at the lock of a database showed.
#[derive(Debug, Clone, PartialEq, Eq)]
pub enum LockProbe {
    /// There is no lock file.
    NoFile,
    /// The lock file cannot be opened.
    Unreadable { error: String },
    /// Another process holds it.
    Held,
    /// Nobody holds it.
    Free,
}

/// What is told of the lock of a database.
pub open spec fn lock_text(path: Seq<char>, probe: LockProbe) -> Seq<char> {
    match probe {
        LockProbe::NoFile => path + " (free \u{2014} no lock file yet)"@,
        LockProbe::Unreadable { error } => "cannot open "@ + path + ": "@ + error@,
        LockProbe::Held => path + " is held by another anamnesis process"@,
        LockProbe::Free => path + " (free)"@,
    }
}

/// Whether the lock of a database is free, and what is told of it.
pub fn probe_lock(path: &str, probe: &LockProbe) -> (r: (bool, String))
    ensures
        r.0 == (probe is NoFile || probe is Free),
        r.1@ == lock_text(path@, *probe),
{
    match probe {
        LockProbe::NoFile => {
            let mut out = path.to_owned();
            out.append(" (free \u{2014} no lock file yet)");
            (true, out)
        },
        LockProbe::Unreadable { error } => {
            let mut out = "cannot open ".to_owned();
            out.append(path);
            out.append(": ");
            out.append(error.as_str());
            (false, out)
        },
        LockProbe::Held => {
            let mut out = path.to_owned();
            out.append(" is held by another anamnesis process");
            (false, out)
        },
        LockProbe::Free => {
            let mut out = path.to_owned();
            out.append(" (free)");
            (true, out)
        },
    }
}

/// One line of a check of the setup.
pub open spec fn check_line(label: Seq<char>, ok: bool, detail: Seq<char>) -> Seq<char> {
    (if ok {
        "[ok] "@
    } else {
        "[!!] "@
    }) + label + ": "@ + detail + "\n"@
}

/// One line of a check of the setup.
pub fn check(label: &str, ok: bool, detail: &str) -> (r: String)
    ensures
        r@ == check_line(label@, ok, detail@),
{
    let mut out = if ok {
        "[ok] ".to_owned()
    } else {
        "[!!] ".to_owned()
    };
    out.append(label);
    out.append(": ");
    out.append(detail);
    out.append("\n");
    out
}

/// What a check of the setup looks at; paths as they are shown.
#[derive(Debug)]
pub struct Setup {
    pub default_namespace: String,
    pub reinforce_on_recall: bool,
    pub db: String,
    pub db_dir: String,
    pub db_dir_ok: bool,
    pub lock_path: String,
    pub lock: LockProbe,
    pub model_cache: String,
    pub model_cached: bool,
}

/// What is told of the directory of the databases.
pub open spec fn dir_text(setup: Setup) -> Seq<char> {
    if setup.db_dir_ok {
        setup.db_dir@
    } else {
        "cannot create "@ + setup.db_dir@
    }
}

/// What is told of the directory of the models.
pub open spec fn cache_text(setup: Setup) -> Seq<char> {
    setup.model_cache@ + " ("@ + (if setup.model_cached {
        "present"@
    } else {
        "not yet created \u{2014} model downloads on first use"@
    }) + ")"@
}

/// The report of a check of the setup.
pub open spec fn doctor_report(setup: Setup) -> Seq<char> {
    "anamnesis doctor\n====================\n"@ + check_line(
        "default namespace"@,
        true,
        setup.default_namespace@,
    ) + check_line("reinforce on recall"@, true, json_bool(setup.reinforce_on_recall))
        + "[..] default db: "@ + setup.db@ + "\n"@ + check_line(
        "db directory writable"@,
        setup.db_dir_ok,
        dir_text(setup),
    ) + check_line(
        "db lock available"@,
        setup.lock is NoFile || setup.lock is Free,
        lock_text(setup.lock_path@, setup.lock),
    ) + check_line("model cache dir"@, true, cache_text(setup))
}

/// Reports on the setup.
pub fn doctor(setup: &Setup) -> (r: String)
    ensures
        r@ == doctor_report(*setup),
{
    let mut out = "anamnesis doctor\n====================\n".to_owned();
    let line = check("default namespace", true, setup.default_namespace.as_str());
    out.append(line.as_str());
    let mut flag = String::new();
    push_json_bool(&mut flag, setup.reinforce_on_recall);
    assert(flag@ =~= json_bool(setup.reinforce_on_recall));
    let line = check("reinforce on recall", true, flag.as_str());
    out.append(line.as_str());
    out.append("[..] default db: ");
    out.append(setup.db.as_str());
    out.append("\n");
    let dir = if setup.db_dir_ok {
        setup.db_dir.clone()
    } else {
        let mut text = "cannot create ".to_owned();
        text.append(setup.db_dir.as_str());
        text
    };
    let line = check("db directory writable", setup.db_dir_ok, dir.as_str());
    out.append(line.as_str());
    let (free, detail) = probe_lock(setup.lock_path.as_str(), &setup.lock);
    let line = check("db lock available", free, detail.as_str());
    out.append(line.as_str());
    let mut cache = setup.model_cache.clone();
    cache.append(" (");
    if setup.model_cached {
        cache.append("present");
    } else {
        cache.append("not yet created \u{2014} model downloads on first use");
    }
    cache.append(")");
    let line = check("model cache dir", true, cache.as_str());
    out.append(line.as_str());
    out
}

/// A migration that found nothing to do tells which namespace it looked at and which
/// model fits it.
pub proof fn idle_migrations_tell_what_they_found(
    namespace: Seq<char>,
    model: String,
    dimensions: u64,
)
    ensures
        contains_text(migration_text(namespace, MigrationOutcome::NoOp { model, dimensions }), "embedding migration no-op: namespace="@ + namespace + " model="@),
        contains_text(migration_text(namespace, MigrationOutcome::NoOp { model, dimensions }), " model="@ + model@ + " dimensions="@),
        contains_text(migration_text(namespace, MigrationOutcome::NoOp { model, dimensions }), " dimensions="@ + decimal(dimensions as nat) + " already compatible\n"@),
{
    let s0 = "embedding migration no-op: namespace="@;
    lemma_first_field(s0, namespace, " model="@);
    let s1 = s0 + namespace + " model="@;
    lemma_field(s0 + namespace, " model="@, model@, " dimensions="@);
    let s2 = s1 + model@ + " dimensions="@;
    lemma_field(s1 + model@, " dimensions="@, decimal(dimensions as nat), " already compatible\n"@);
    let s3 = s2 + decimal(dimensions as nat) + " already compatible\n"@;
}

/// A migration that was done tells of which namespace, how many vectors it made
/// anew, where it went on and where the backup lies.
pub proof fn migrations_tell_what_they_did(
    namespace: Seq<char>,
    migrated: u64,
    resumed: String,
    backup: String,
)
    ensures
        contains_text(migration_text(namespace, MigrationOutcome::Migrated { migrated, resumed, backup }), "embedding migration complete: namespace="@ + namespace + " migrated="@),
        contains_text(migration_text(namespace, MigrationOutcome::Migrated { migrated, resumed, backup }), " migrated="@ + decimal(migrated as nat) + " resumed="@),
        contains_text(migration_text(namespace, MigrationOutcome::Migrated { migrated, resumed, backup }), " resumed="@ + resumed@ + " backup="@),
        contains_text(migration_text(namespace, MigrationOutcome::Migrated { migrated, resumed, backup }), " backup="@ + backup@ + "\n"@),
{
    let s0 = "embedding migration complete: namespace="@;
    lemma_first_field(s0, namespace, " migrated="@);
    let s1 = s0 + namespace + " migrated="@;
    lemma_field(s0 + namespace, " migrated="@, decimal(migrated as nat), " resumed="@);
    let s2 = s1 + decimal(migrated as nat) + " resumed="@;
    lemma_field(s1 + decimal(migrated as nat), " resumed="@, resumed@, " backup="@);
    let s3 = s2 + resumed@ + " backup="@;
    lemma_field(s2 + resumed@, " backup="@, backup@, "\n"@);
    let s4 = s3 + backup@ + "\n"@;
}

/// A migration by hand that cannot begin tells why, of which namespace and of
/// which file; only a namespace without a regular file of its own is the caller's
/// fault.
pub proof fn manual_migrations_tell_why_not(fault: ManualFault, namespace: Seq<char>)
    ensures
        fault.is_input() <==> fault == ManualFault::NotFileBacked || fault is NotRegular,
        fault == ManualFault::NotFileBacked ==> fault.text(namespace)
            == "manual embedding migration requires a file-backed database"@,
        fault matches ManualFault::Missing { path, error } ==> fault.text(namespace)
            == "namespace \""@ + namespace + "\" database "@ + path@
            + " must already exist before migration: "@ + error@,
        fault matches ManualFault::NotRegular { path } ==> fault.text(namespace)
            == "namespace \""@ + namespace + "\" database "@ + path@ + " is not a regular file"@,
        fault matches ManualFault::InUse { error } ==> fault.text(namespace)
            == "cannot migrate namespace \""@ + namespace
            + "\" while its database is in use; stop the anamnesis daemon or other owner, then retry: "@
            + error@,
        fault matches ManualFault::Unresolved { path, error } ==> fault.text(namespace)
            == "resolve namespace \""@ + namespace + "\" database "@ + path@ + ": "@ + error@,
{
}

/// What is told of a lock names the lock, and tells the four findings apart.
pub proof fn locks_are_told_by_their_path(path: Seq<char>, probe: LockProbe)
    ensures
        probe is NoFile ==> lock_text(path, probe) == path
            + " (free \u{2014} no lock file yet)"@,
        probe is Free ==> lock_text(path, probe) == path + " (free)"@,
        probe is Held ==> lock_text(path, probe) == path
            + " is held by another anamnesis process"@,
        probe matches LockProbe::Unreadable { error } ==> lock_text(path, probe) == "cannot open "@
            + path + ": "@ + error@,
{
}

/// The report on a setup shows each finding on a line of its own, marked by
/// whether it is as it should be: the directory where it can be written, and the
/// lock where nobody holds it.
pub proof fn reports_show_every_finding(setup: Setup)
    ensures
        ({
            let report = doctor_report(setup);
            &&& contains_text(
                report,
                "[ok] "@ + "default namespace"@ + ": "@ + setup.default_namespace@ + "\n"@,
            )
            &&& contains_text(
                report,
                "[ok] "@ + "reinforce on recall"@ + ": "@ + (if setup.reinforce_on_recall {
                    "true"@
                } else {
                    "false"@
                }) + "\n"@,
            )
            &&& contains_text(report, "[..] default db: "@ + setup.db@ + "\n"@)
            &&& setup.db_dir_ok ==> contains_text(
                report,
                "[ok] "@ + "db directory writable"@ + ": "@ + setup.db_dir@ + "\n"@,
            )
            &&& !setup.db_dir_ok ==> contains_text(
                report,
                "[!!] "@ + "db directory writable"@ + ": "@ + ("cannot create "@ + setup.db_dir@)
                    + "\n"@,
            )
            &&& setup.lock is NoFile || setup.lock is Free ==> contains_text(
                report,
                "[ok] "@ + "db lock available"@ + ": "@ + lock_text(setup.lock_path@, setup.lock)
                    + "\n"@,
            )
            &&& setup.lock is Held || setup.lock is Unreadable ==> contains_text(
                report,
                "[!!] "@ + "db lock available"@ + ": "@ + lock_text(setup.lock_path@, setup.lock)
                    + "\n"@,
            )
            &&& contains_text(
                report,
                "[ok] "@ + "model cache dir"@ + ": "@ + (setup.model_cache@ + " ("@ + (
                if setup.model_cached {
                    "present"@
                } else {
                    "not yet created \u{2014} model downloads on first use"@
                }) + ")"@) + "\n"@,
            )
        }),
{
    let h = "anamnesis doctor\n====================\n"@;
    let a = check_line("default namespace"@, true, setup.default_namespace@);
    let b = check_line("reinforce on recall"@, true, json_bool(setup.reinforce_on_recall));
    let c = check_line("db directory writable"@, setup.db_dir_ok, dir_text(setup));
    let d = check_line(
        "db lock available"@,
        setup.lock is NoFile || setup.lock is Free,
        lock_text(setup.lock_path@, setup.lock),
    );
    let e = check_line("model cache dir"@, true, cache_text(setup));
    let s1 = h + a;
    lemma_contains_end(h, a);
    let s2 = s1 + b;
    lemma_contains_end(s1, b);
    lemma_contains_more(s1, b);
    let s3 = s2 + "[..] default db: "@ + setup.db@ + "\n"@;
    lemma_field(s2, "[..] default db: "@, setup.db@, "\n"@);
    lemma_contains_more(s2, "[..] default db: "@);
    let s4 = s3 + c;
    lemma_contains_end(s3, c);
    lemma_contains_more(s3, c);
    let s5 = s4 + d;
    lemma_contains_end(s4, d);
    lemma_contains_more(s4, d);
    lemma_contains_end(s5, e);
    lemma_contains_more(s5, e);
    assert(doctor_report(setup) == s5 + e);
    assert(contains_text(s1, a) && contains_text(s2, a) && contains_text(
        s2 + "[..] default db: "@,
        a,
    ));
    assert(contains_text(s3, a) && contains_text(s4, a) && contains_text(s5, a));
    assert(contains_text(s2, b) && contains_text(s2 + "[..] default db: "@, b));
    assert(contains_text(s3, b) && contains_text(s4, b) && contains_text(s5, b));
    assert(contains_text(s3, "[..] default db: "@ + setup.db@ + "\n"@));
    assert(contains_text(s4, "[..] default db: "@ + setup.db@ + "\n"@));
    assert(contains_text(s5, "[..] default db: "@ + setup.db@ + "\n"@));
    assert(contains_text(s4, c) && contains_text(s5, c));
    assert(contains_text(s5, d));
    assert(contains_text(s5 + e, a) && contains_text(s5 + e, b) && contains_text(s5 + e, c));
    assert(contains_text(s5 + e, d) && contains_text(s5 + e, e));
}

/// Each judgement and each finding is read from its own word and from no other
/// text.
pub proof fn judgements_are_read_by_their_word(word: Seq<char>)
    ensures
        audit_support(word) == Some(AuditSupport::Supported) <==> word == "supported"@,
        audit_support(word) == Some(AuditSupport::Partial) <==> word == "partial"@,
        audit_support(word) == Some(AuditSupport::Unsupported) <==> word == "unsupported"@,
        contamination_category(word) == Some(ContaminationCategory::UnsupportedClaim) <==> word
            == "unsupported-claim"@,
        contamination_category(word) == Some(ContaminationCategory::PromptInjection) <==> word
            == "prompt-injection"@,
        contamination_category(word) == Some(ContaminationCategory::SecretReexposure) <==> word
            == "secret-reexposure"@,
        contamination_category(word) == Some(ContaminationCategory::ForeignScope) <==> word
            == "foreign-scope"@,
        contamination_category(word) == Some(ContaminationCategory::ContradictsSource) <==> word
            == "contradicts-source"@,
        relation_verdict(word) == Some(RelationVerdict::Correct) <==> word == "correct"@,
        relation_verdict(word) == Some(RelationVerdict::WrongType) <==> word == "wrong-type"@,
        relation_verdict(word) == Some(RelationVerdict::WrongDirection) <==> word
            == "wrong-direction"@,
        relation_verdict(word) == Some(RelationVerdict::Invalid) <==> word == "invalid"@,
{
    judgements_are_read_back(
        AuditSupport::Supported,
        ContaminationCategory::UnsupportedClaim,
        RelationVerdict::Correct,
        word,
    );
    judgements_are_read_back(
        AuditSupport::Partial,
        ContaminationCategory::PromptInjection,
        RelationVerdict::WrongType,
        word,
    );
    judgements_are_read_back(
        AuditSupport::Unsupported,
        ContaminationCategory::SecretReexposure,
        RelationVerdict::WrongDirection,
        word,
    );
    judgements_are_read_back(
        AuditSupport::Unsupported,
        ContaminationCategory::ForeignScope,
        RelationVerdict::Invalid,
        word,
    );
    judgements_are_read_back(
        AuditSupport::Unsupported,
        ContaminationCategory::ContradictsSource,
        RelationVerdict::Invalid,
        word,
    );
}

/// The worker's failure is told as it was reported.
pub proof fn worker_failures_are_told(error: WorkerError)
    ensures
        error matches WorkerError::Runtime(message) ==> error.text()
            == "extraction runtime failed: "@ + message@,
{
}

}
