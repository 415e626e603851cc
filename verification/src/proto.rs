//! The requests the service takes and the replies it gives.

use crate::extract::{
    AuditSupport, ContaminationCategory, ExtractionErrorKind, ExtractionSource,
    ExtractorProfileComponents, RelationVerdict, ValidatedExtraction,
};
use vstd::prelude::*;

verus! {

/// Who is at fault for a failed request.
#[derive(Debug, Clone, Copy, PartialEq, Eq, Structural)]
pub enum ErrKind {
    /// The caller asked for something that cannot be done.
    InvalidParams,
    /// The service failed.
    Internal,
}

/// A reply.
#[derive(Debug, Clone, PartialEq, Eq)]
pub enum Response {
    Done { text: String },
    Fault { kind: ErrKind, message: String },
}

/// A reply by its characters.
pub enum Reply {
    Done { text: Seq<char> },
    Fault { kind: ErrKind, message: Seq<char> },
}

impl View for Response {
    type V = Reply;

    open spec fn view(&self) -> Reply {
        match self {
            Response::Done { text } => Reply::Done { text: text@ },
            Response::Fault { kind, message } => Reply::Fault { kind: *kind, message: message@ },
        }
    }
}

/// The reply that the caller is at fault.
pub open spec fn invalid(message: Seq<char>) -> Reply {
    Reply::Fault { kind: ErrKind::InvalidParams, message }
}

/// The reply that the service failed.
pub open spec fn failure(message: Seq<char>) -> Reply {
    Reply::Fault { kind: ErrKind::Internal, message }
}

/// The reply that all went well.
pub open spec fn success(text: Seq<char>) -> Reply {
    Reply::Done { text }
}

impl Response {
    /// All went well.
    pub fn ok(text: String) -> (r: Self)
        ensures
            r@ == success(text@),
    {
        Response::Done { text }
    }

    /// The caller is at fault.
    pub fn invalid_params(message: String) -> (r: Self)
        ensures
            r@ == invalid(message@),
    {
        Response::Fault { kind: ErrKind::InvalidParams, message }
    }

    /// The service failed.
    pub fn internal(message: String) -> (r: Self)
        ensures
            r@ == failure(message@),
    {
        Response::Fault { kind: ErrKind::Internal, message }
    }
}

/// What prompted a recall.
#[derive(Debug, Clone, Copy, PartialEq, Eq, Structural)]
pub enum RecallEventKind {
    SessionStart,
    UserPrompt,
    Tool,
    Unknown,
}

impl RecallEventKind {
    /// The name of the kind.
    pub open spec fn label(self) -> Seq<char> {
        match self {
            RecallEventKind::SessionStart => "SessionStart"@,
            RecallEventKind::UserPrompt => "UserPrompt"@,
            RecallEventKind::Tool => "Tool"@,
            RecallEventKind::Unknown => "Unknown"@,
        }
    }

    /// The name of the kind.
    pub fn as_str(self) -> (r: &'static str)
        ensures
            r@ == self.label(),
    {
        match self {
            RecallEventKind::SessionStart => "SessionStart",
            RecallEventKind::UserPrompt => "UserPrompt",
            RecallEventKind::Tool => "Tool",
            RecallEventKind::Unknown => "Unknown",
        }
    }
}

/// One turn of a conversation.
#[derive(Debug, Clone, PartialEq, Eq)]
pub struct TurnInput {
    pub speaker: String,
    pub text: String,
    pub at_ms: Option<u64>,
}

/// A request. Numbers that may have a fraction are given by the bits of their
/// double-precision form.
#[derive(Debug, Clone, PartialEq, Eq)]
pub enum Request {
    Recall {
        query: String,
        limit: Option<u32>,
        namespace: Option<String>,
        reinforce: Option<bool>,
        gate_threshold: Option<u64>,
        cosine_gate: Option<u64>,
        knowledge_only: Option<bool>,
        scope: Option<String>,
        tag: Option<String>,
        event_kind: Option<RecallEventKind>,
    },
    Remember {
        content: String,
        namespace: Option<String>,
        tags: Option<Vec<String>>,
        metadata: Option<Vec<(String, String)>>,
        scope: Option<String>,
    },
    Relate { from_id: u64, to_id: u64, relation: String, namespace: Option<String> },
    Ingest {
        session: String,
        turns: Vec<TurnInput>,
        namespace: Option<String>,
        capture: Option<bool>,
        scope: Option<String>,
    },
    Stats { namespace: Option<String>, recall: Option<bool> },
    PullPending { limit: Option<u32>, namespace: Option<String> },
    ExtractionStatus { namespace: Option<String> },
    ExtractionScan {
        namespace: Option<String>,
        profile: ExtractorProfileComponents,
        min_turns: u32,
        max_turns: u32,
    },
    StageExtraction {
        namespace: Option<String>,
        profile: ExtractorProfileComponents,
        llm_duration_ms: u64,
        sources: Vec<ExtractionSource>,
        extraction: ValidatedExtraction,
    },
    RecordExtractionFailure {
        namespace: Option<String>,
        profile: ExtractorProfileComponents,
        turn_count: u32,
        llm_invoked: bool,
        error_kind: ExtractionErrorKind,
        duration_ms: u64,
    },
    ExtractionAuditList { namespace: Option<String>, limit: Option<u32> },
    UpdateExtractionCandidateAudit {
        namespace: Option<String>,
        candidate_id: u64,
        support: AuditSupport,
        contamination: Option<ContaminationCategory>,
        reviewer: String,
    },
    UpdateExtractionRelationAudit {
        namespace: Option<String>,
        relation_id: u64,
        verdict: RelationVerdict,
        reviewer: String,
    },
    Update { id: u64, new_content: String, namespace: Option<String> },
    Forget { id: u64, reason: Option<String>, hard: Option<bool>, namespace: Option<String> },
    Supersede { new_id: u64, old_id: u64, namespace: Option<String> },
    List {
        min_salience: Option<u64>,
        limit: Option<u32>,
        node_type: Option<String>,
        tag: Option<String>,
        namespace: Option<String>,
        scope: Option<String>,
        metadata: Option<String>,
    },
    Get { id: u64, namespace: Option<String> },
    Graph {
        seeds: Option<Vec<u64>>,
        query: Option<String>,
        depth: Option<u32>,
        limit: Option<u32>,
        namespace: Option<String>,
    },
}

/// What kind of failure the memory store reports.
#[derive(Debug, Clone, Copy, PartialEq, Eq, Structural)]
pub enum EngineErrorKind {
    /// The input cannot be used.
    InvalidInput,
    /// A node or an edge that was named does not exist.
    NotFound,
    /// Anything else.
    Storage,
}

/// A failure that the memory store reports.
#[derive(Debug, Clone, PartialEq, Eq)]
pub struct EngineError {
    pub kind: EngineErrorKind,
    pub message: String,
}

impl EngineError {
    /// Whether the caller is at fault.
    pub open spec fn caller_fault(self) -> bool {
        self.kind != EngineErrorKind::Storage
    }

    /// An input that cannot be used.
    pub fn invalid_input(message: String) -> (r: Self)
        ensures
            r.kind == EngineErrorKind::InvalidInput,
            r.message == message,
    {
        EngineError { kind: EngineErrorKind::InvalidInput, message }
    }

    /// Whether the caller is at fault.
    pub fn is_caller_error(&self) -> (r: bool)
        ensures
            r == self.caller_fault(),
    {
        match self.kind {
            EngineErrorKind::Storage => false,
            _ => true,
        }
    }
}

/// A reply says who is at fault and why, and one that all went well says what was
/// asked for; the store puts everything but its own failures down to the caller.
pub proof fn replies_say_who_is_at_fault(response: Response, text: Seq<char>, error: EngineError)
    ensures
        success(text) is Done && success(text)->text == text,
        invalid(text) is Fault && invalid(text)->kind == ErrKind::InvalidParams
            && invalid(text)->message == text,
        failure(text) is Fault && failure(text)->kind == ErrKind::Internal
            && failure(text)->message == text,
        response matches Response::Done { text: t } ==> response@ == (Reply::Done { text: t@ }),
        response matches Response::Fault { kind, message } ==> response@ == (Reply::Fault {
            kind,
            message: message@,
        }),
        error.caller_fault() <==> error.kind == EngineErrorKind::InvalidInput || error.kind
            == EngineErrorKind::NotFound,
{
}

/// What prompted a recall goes by the name of its kind.
pub proof fn prompts_go_by_their_name(kind: RecallEventKind)
    ensures
        kind == RecallEventKind::SessionStart ==> kind.label() == "SessionStart"@,
        kind == RecallEventKind::UserPrompt ==> kind.label() == "UserPrompt"@,
        kind == RecallEventKind::Tool ==> kind.label() == "Tool"@,
        kind == RecallEventKind::Unknown ==> kind.label() == "Unknown"@,
{
}

}
