//! Requests from end to end, over a small store that is kept in memory.

use std::collections::{HashMap, HashSet};

use anamnesis::capture::{
    DEFAULT_EXTRACT_REDELIVERY_MS, META_CAPTURE, META_EXTRACTED, META_TURN_KEY,
};
use anamnesis::cli::{
    format_oneshot_stdout, oneshot_request, run_embedded_oneshot, Cli, Commands,
};
use anamnesis::delivery::plan_pull;
use anamnesis::dispatch::enrich::{cluster_ids, leiden_input};
use anamnesis::dispatch::extract::{
    candidate_audit_sources, content_hash, dispatch_audit_list, dispatch_record_failure,
    dispatch_update_relation_audit, enrich_audit_sources, extraction_response,
    finish_candidate_audit, processed_turn_keys, stage_namespace, AuditFault,
};
use anamnesis::dispatch::finish::{
    answer_recall, commit_recall, finish_forget, finish_get, finish_ingest, finish_list,
    finish_pull, finish_relate, finish_remember, finish_stats, finish_supersede, finish_update,
    IngestOutcome, IngestSummary, RecallAnswer, RecallEvent, RecallGateTrace, RecallOutcome,
    StatsOutcome,
};
use anamnesis::dispatch::graph::{finish_graph, GraphOutcome, SubEdge, SubNode, Subgraph};
use anamnesis::dispatch::payload::extraction_payload;
use anamnesis::dispatch::promote::{
    dispatch_update_candidate_audit, finish_promote_candidate, finish_promote_relation,
    plan_candidate_promotion, plan_relation_promotion, AtomicFact, Promotion, RelationPromotion,
};
use anamnesis::dispatch::render::{
    format_recall_stats, format_stats, AbstentionStats, AutoExposureStats, CosineStats,
    EventKindStats, MemoryStats, MemoryTier, MemoryView, PackagedRecall, Quantile, RecallHit,
    RecallStats, SweepPoint,
};
use anamnesis::dispatch::runtime::{
    dispatch_two_phase, inspected, request_namespace, spawned, DispatchRuntime,
    NamespaceCompatibility, Phase,
};
use anamnesis::dispatch::scan::scan_namespace;
use anamnesis::dispatch::{
    dispatch_promote_candidate, dispatch_promote_relation, dispatch_registry, graph_budget, opened,
    FirstOpen, GraphStart, Job, ListFilter, RecallJob, Step, Work,
};
use anamnesis::extract::{
    resolve_reviewer, AuditSupport, CandidateKind, ContaminationCategory,
    ExtractionAuditCandidateRow, ExtractionAuditRelationRow, ExtractionAuditResult,
    ExtractionAuditSource, ExtractionAuditSourceAvailability, ExtractionErrorKind, ExtractionItem,
    ExtractionProfileStatus, ExtractionRelation, ExtractionSource, ExtractorProfileComponents,
    RelationKind, RelationVerdict, StageExtractionResult, ValidatedExtraction,
};
use anamnesis::memory::{KeySet, MemoryRegistry, NamespaceKey, NamespaceMigrationState, Ops};
use anamnesis::notes::{Relation, TurnDecision};
use anamnesis::proto::{
    EngineError, EngineErrorKind, ErrKind, RecallEventKind, Request, Response, TurnInput,
};
use anamnesis::store::{Graph, Node};
use anamnesis::ScopePath;
use sha2::{Digest, Sha256};

/// A node of the store.
#[derive(Clone, Debug, PartialEq)]
struct Stored {
    id: u64,
    content: String,
    session_id: String,
    scope: String,
    created_at: u64,
    episodic: bool,
    metadata: Vec<(String, String)>,
    tags: Vec<String>,
    salience: f64,
    valid_until: Option<u64>,
}

impl Stored {
    fn meta(&self, key: &str) -> Option<&str> {
        self.metadata
            .iter()
            .find(|(k, _)| k == key)
            .map(|(_, v)| v.as_str())
    }

    fn set_meta(&mut self, key: &str, value: &str) {
        match self.metadata.iter_mut().find(|(k, _)| k == key) {
            Some(pair) => pair.1 = value.to_string(),
            None => self.metadata.push((key.to_string(), value.to_string())),
        }
    }

    fn node(&self) -> Node {
        Node {
            id: self.id,
            content: self.content.clone(),
            session_id: self.session_id.clone(),
            scope: self.scope.clone(),
            created_at: self.created_at,
            episodic: self.episodic,
            metadata: self.metadata.clone(),
        }
    }

    fn view(&self) -> MemoryView {
        MemoryView {
            node_id: self.id,
            content: self.content.clone(),
            metadata: self.metadata.clone(),
            entity_tags: self.tags.clone(),
            salience: format!("{:?}", self.salience),
            tier: MemoryTier::Recall,
            node_type: if self.episodic { "episodic" } else { "semantic" }.to_string(),
            created_at: self.created_at,
            updated_at: self.created_at,
            valid_from: None,
            valid_until: self.valid_until,
            retracted: self.meta("retracted") == Some("true"),
            peer_id: "peer".to_string(),
            session_id: self.session_id.clone(),
            scope: self.scope.clone(),
            confidence: "0.5".to_string(),
        }
    }
}

#[derive(Clone, Debug, PartialEq)]
struct Link {
    id: u64,
    source: u64,
    target: u64,
    label: String,
}

#[derive(Clone, Debug, PartialEq)]
struct Run {
    error_kind: Option<String>,
    llm_invoked: bool,
    turn_count: u64,
    sources: Vec<String>,
}

/// The policy store of a namespace.
#[derive(Default)]
struct Policy {
    events: Vec<RecallEvent>,
    ready: bool,
    operations: usize,
    insert_attempts: usize,
    fail_inserts: bool,
    unavailable: bool,
    broken_stats: bool,
    statuses: HashMap<String, ExtractionProfileStatus>,
    ledger: HashMap<String, Vec<String>>,
    runs: Vec<Run>,
    candidates: Vec<ExtractionAuditCandidateRow>,
    relations: Vec<ExtractionAuditRelationRow>,
    reject_relations: bool,
}

impl Policy {
    fn open(&mut self) {
        if !self.ready && !self.unavailable {
            self.ready = true;
            self.operations += 1;
        }
    }
}

#[derive(Default)]
struct Space {
    nodes: Vec<Stored>,
    links: Vec<Link>,
    last_id: u64,
    facts: Vec<AtomicFact>,
    policy: Policy,
}

fn not_found(id: u64) -> EngineError {
    EngineError {
        kind: EngineErrorKind::NotFound,
        message: format!("node not found: {id}"),
    }
}

impl Space {
    fn graph(&self) -> Graph {
        Graph {
            nodes: self.nodes.iter().map(Stored::node).collect(),
        }
    }

    fn position(&self, id: u64) -> Result<usize, EngineError> {
        self.nodes
            .iter()
            .position(|n| n.id == id)
            .ok_or_else(|| not_found(id))
    }

    fn next(&mut self) -> u64 {
        self.last_id += 1;
        self.last_id
    }

    fn add(&mut self, node: Stored) -> u64 {
        let id = self.next();
        self.nodes.push(Stored { id, ..node });
        id
    }

    fn link(&mut self, source: u64, target: u64, label: &str) -> Result<u64, EngineError> {
        self.position(source)?;
        self.position(target)?;
        let id = self.next();
        self.links.push(Link {
            id,
            source,
            target,
            label: label.to_string(),
        });
        Ok(id)
    }

    fn recall(&mut self, job: &RecallJob) -> RecallOutcome {
        let words: Vec<String> = job.query.split_whitespace().map(str::to_lowercase).collect();
        let wanted = job.scope.as_deref().map(|s| ScopePath::new(s).unwrap());
        let mut found: Vec<u64> = Vec::new();
        for n in &self.nodes {
            let content = n.content.to_lowercase();
            let matches = words.iter().any(|w| content.contains(w.as_str()));
            let in_scope = match &wanted {
                Some(w) => ScopePath::new(&n.scope).unwrap().contains(w),
                None => true,
            };
            let captured = n.episodic && n.meta(META_CAPTURE) == Some("true");
            if matches && in_scope && !(job.knowledge_only && captured) && found.len() < job.limit {
                found.push(n.id);
            }
        }
        let mut context = String::new();
        let mut hits = Vec::new();
        for id in &found {
            let at = self.position(*id).unwrap();
            if job.reinforce {
                self.nodes[at].salience += 0.1;
            }
            context.push_str(&format!(
                "- {} (scope {})\n",
                self.nodes[at].content, self.nodes[at].scope
            ));
            hits.push(RecallHit {
                node_id: *id,
                score: "14.5".to_string(),
                cosine: "0.9".to_string(),
            });
        }
        let any = !found.is_empty();
        RecallOutcome {
            packaged: PackagedRecall { context, hits },
            trace: RecallGateTrace {
                has_hits: any,
                readout_pass: any,
                cosine_pass: any,
                eligible: any,
                top_score: any.then_some(14.5f64.to_bits()),
                top_cosine: any.then_some(0.9f64.to_bits()),
                gate_threshold: job.gate_threshold,
                cosine_gate: job.cosine_gate,
                result_node_ids: found,
                auto_extract_node_count: 0,
            },
        }
    }

    fn ingest(
        &mut self,
        session: &str,
        scope: &str,
        turns: Vec<TurnDecision>,
        now: u64,
    ) -> IngestOutcome {
        let mut committed = Vec::new();
        let mut count = 0;
        for turn in turns {
            let mut metadata = Vec::new();
            if let Some(key) = &turn.key {
                metadata.push((META_CAPTURE.to_string(), "true".to_string()));
                metadata.push((META_TURN_KEY.to_string(), key.clone()));
                metadata.push((META_EXTRACTED.to_string(), "false".to_string()));
            }
            let episodic = Stored {
                id: 0,
                content: format!("{}: {}", turn.speaker, turn.text),
                session_id: session.to_string(),
                scope: scope.to_string(),
                created_at: turn.at_ms.unwrap_or(now),
                episodic: true,
                metadata,
                tags: Vec::new(),
                salience: 0.5,
                valid_until: None,
            };
            let mut semantic = Stored {
                episodic: false,
                ..episodic.clone()
            };
            semantic.metadata.retain(|(k, _)| k == META_CAPTURE);
            let id = self.add(episodic);
            self.add(semantic);
            if let Some(key) = turn.key {
                committed.push((id, key));
            }
            count += 1;
        }
        IngestOutcome {
            committed,
            summary: Ok(IngestSummary {
                episodic: count,
                semantic: count,
            }),
        }
    }

    fn stats(&self, recall: bool) -> StatsOutcome {
        let retracted = self
            .nodes
            .iter()
            .filter(|n| n.meta("retracted") == Some("true"))
            .count() as u64;
        StatsOutcome {
            stats: MemoryStats {
                node_count: self.nodes.len() as u64,
                edge_count: self.links.len() as u64,
                orphan_count: 0,
                orphan_percent: "0.0".to_string(),
                contradiction_count: 0,
                contradiction_percent: "0.0".to_string(),
                supersede_count: 0,
                retracted_count: retracted,
                missing_embedding_count: 0,
                avg_salience: "0.500".to_string(),
                average_degree: "0.00".to_string(),
                stale_percent: "0.0".to_string(),
                salience_entropy: "0.000".to_string(),
                peer_count: 1,
                grade: "Fair".to_string(),
                scope_distribution: Vec::new(),
            },
            total: self.nodes.len() as u64,
            stale: 0,
            recall_stats: if recall && !self.policy.unavailable && !self.policy.broken_stats {
                Some(empty_recall_stats())
            } else {
                None
            },
        }
    }

    fn list(&self, filter: &ListFilter) -> Vec<MemoryView> {
        let floor = f64::from_bits(filter.min_salience);
        let mut kept: Vec<&Stored> = self
            .nodes
            .iter()
            .filter(|n| n.salience >= floor)
            .filter(|n| match &filter.tag {
                Some(t) => n.tags.contains(t),
                None => true,
            })
            .filter(|n| match &filter.scope {
                Some(s) => n.scope == *s,
                None => true,
            })
            .filter(|n| match &filter.node_type {
                Some(t) => n.view().node_type == *t,
                None => true,
            })
            .filter(|n| match &filter.metadata {
                Some((k, v)) => n.meta(k) == Some(v.as_str()),
                None => true,
            })
            .collect();
        kept.sort_by(|a, b| b.salience.total_cmp(&a.salience));
        kept.truncate(filter.limit);
        kept.into_iter().map(Stored::view).collect()
    }

    fn subgraph(&self, start: &GraphStart, depth: u32, budget: u32) -> Result<GraphOutcome, EngineError> {
        let seed_ids: Vec<u64> = match start {
            GraphStart::Seeds { ids } => ids.clone(),
            GraphStart::Query { text } => self
                .nodes
                .iter()
                .filter(|n| n.content.contains(text.as_str()))
                .map(|n| n.id)
                .collect(),
        };
        let mut depths: Vec<(u64, usize)> = Vec::new();
        for id in &seed_ids {
            self.position(*id)?;
            depths.push((*id, 0));
        }
        for d in 0..depth as usize {
            let frontier: Vec<u64> = depths.iter().filter(|(_, at)| *at == d).map(|(id, _)| *id).collect();
            for l in &self.links {
                for (a, b) in [(l.source, l.target), (l.target, l.source)] {
                    if frontier.contains(&a) && !depths.iter().any(|(id, _)| *id == b) {
                        depths.push((b, d + 1));
                    }
                }
            }
        }
        let truncated = depths.len() > budget as usize;
        depths.truncate(budget as usize);
        let nodes = depths
            .iter()
            .map(|(id, at)| {
                let n = &self.nodes[self.position(*id).unwrap()];
                let doi = n.salience - 0.3 * *at as f64 + if *at == 0 { 1.0 } else { 0.0 };
                SubNode {
                    id: n.id,
                    name: n.content.clone(),
                    node_type: n.view().node_type,
                    salience: n.salience.to_bits(),
                    salience_text: format!("{:?}", n.salience),
                    created_at: n.created_at,
                    entity_tags: n.tags.clone(),
                    metadata: n.metadata.clone(),
                    doi_text: format!("{doi:?}"),
                }
            })
            .collect();
        let edges = self
            .links
            .iter()
            .filter(|l| {
                depths.iter().any(|(id, _)| *id == l.source)
                    && depths.iter().any(|(id, _)| *id == l.target)
            })
            .map(|l| SubEdge {
                id: l.id,
                source: l.source,
                target: l.target,
                edge_type: l.label.clone(),
                weight: 1.0f64.to_bits(),
                weight_text: "1.0".to_string(),
            })
            .collect();
        let subgraph = Subgraph {
            nodes,
            edges,
            depths,
            truncated,
        };
        let question = leiden_input(&subgraph);
        let answer = question.as_ref().map(|q| solve(q.ids.len(), &q.edges));
        let clusters = cluster_ids(&subgraph, &question, &answer);
        Ok(GraphOutcome {
            subgraph,
            seed_ids,
            clusters,
        })
    }
}

/// A stand-in for the community solver: connected components, numbered by
/// their first place.
fn solve(n: usize, edges: &[(usize, usize, u64)]) -> Vec<u32> {
    let mut at: Vec<u32> = (0..n as u32).collect();
    for _ in 0..n {
        for (a, b, _) in edges {
            let low = at[*a].min(at[*b]);
            at[*a] = low;
            at[*b] = low;
        }
    }
    at
}

fn empty_recall_stats() -> RecallStats {
    RecallStats {
        total_attempts: 0,
        by_event_kind: Vec::new(),
        abstentions: AbstentionStats {
            empty: 0,
            readout_only: 0,
            cosine_only: 0,
            both: 0,
        },
        cosine: CosineStats {
            samples: 0,
            nulls: 0,
            p50: None,
            p90: None,
            p95: None,
        },
        auto_exposure: AutoExposureStats {
            eligible_events: 0,
            events_with_auto: 0,
            event_percent: String::new(),
            result_slots: 0,
            auto_slots: 0,
            slot_percent: String::new(),
        },
        sweep: (80..=90)
            .map(|hundredths| SweepPoint {
                threshold: format!("{:.2}", hundredths as f64 / 100.0),
                eligible: 0,
                attempts: 0,
            })
            .collect(),
    }
}

/// The service over the store.
struct Service {
    runtime: DispatchRuntime,
    spaces: HashMap<String, Space>,
    open: HashSet<String>,
    now: u64,
    /// The namespaces whose vectors do not fit the model.
    misfits: HashSet<String>,
    jobs: Vec<NamespaceKey>,
    broken_backup: bool,
    embedded: usize,
    last_scan: Vec<ExtractionSource>,
    last_stage: Option<StageExtractionResult>,
}

fn service(runtime: DispatchRuntime) -> Service {
    Service {
        runtime,
        spaces: HashMap::new(),
        open: HashSet::new(),
        now: 1_000_000,
        misfits: HashSet::new(),
        jobs: Vec::new(),
        broken_backup: false,
        embedded: 0,
        last_scan: Vec::new(),
        last_stage: None,
    }
}

fn fresh_registry() -> MemoryRegistry {
    MemoryRegistry::new("default".to_string(), false)
}

fn stub_registry() -> Service {
    service(DispatchRuntime::without_auto_migration(fresh_registry()))
}

fn dispatch(service: &mut Service, req: Request) -> Response {
    let phase = service.enter(req);
    service.proceed(phase)
}

impl Service {
    fn space(&mut self, key: &str) -> &mut Space {
        self.spaces.entry(key.to_string()).or_default()
    }

    fn default_space(&mut self) -> &mut Space {
        self.space("default")
    }

    fn ops(&self) -> Ops {
        self.runtime.registry().ops()
    }

    fn enter(&mut self, req: Request) -> Phase {
        let key = self.runtime.registry().canonical_ns_key(request_namespace(&req));
        let is_open = self.open.contains(key.as_str());
        assert!(self.ops().has_room());
        dispatch_two_phase(&mut self.runtime, is_open, req)
    }

    fn proceed(&mut self, phase: Phase) -> Response {
        match phase {
            Phase::Go { step } => self.go(step),
            Phase::Inspect { key, req } => {
                let found = if self.misfits.contains(key.as_str()) {
                    NamespaceCompatibility::Mismatch
                } else {
                    NamespaceCompatibility::Ready
                };
                let phase = inspected(&mut self.runtime, key, req, Ok(found));
                self.proceed(phase)
            }
            Phase::Start { key } => {
                self.jobs.push(key.copy());
                spawned(&mut self.runtime, &key, Ok(()))
            }
        }
    }

    /// Ends the background jobs that were started.
    fn drain(&mut self) {
        for i in 0..self.jobs.len() {
            let key = self.jobs[i].copy();
            let result = if self.broken_backup {
                Err("backup could not be written".to_string())
            } else {
                self.embedded += 1;
                self.misfits.remove(key.as_str());
                Ok(())
            };
            self.runtime.registry_mut().finish_namespace_migration(&key, result);
        }
    }

    fn go(&mut self, step: Step) -> Response {
        match step {
            Step::Reply { response } => response,
            Step::Open { key, job, .. } => {
                let name = key.as_str().to_string();
                let first = if self.open.insert(name.clone()) {
                    Some(FirstOpen {
                        graph: self.space(&name).graph(),
                        now_ms: self.now,
                        ttl: DEFAULT_EXTRACT_REDELIVERY_MS,
                    })
                } else {
                    None
                };
                let step = opened(self.runtime.registry_mut(), key, job, Ok(first));
                self.go(step)
            }
            Step::Work { key, work } => self.work(key, work),
        }
    }

    fn work(&mut self, key: NamespaceKey, work: Work) -> Response {
        let name = key.as_str().to_string();
        let now = self.now;
        match work {
            Work::Ingest {
                session,
                scope,
                turns,
            } => {
                let outcome = self.space(&name).ingest(&session, scope.as_str(), turns, now);
                finish_ingest(self.runtime.registry_mut(), &key, outcome)
            }
            Work::Deliver { claimed } => {
                let space = self.space(&name);
                let plan = plan_pull(&space.graph(), &claimed, now);
                for item in &plan {
                    let at = space.position(item.id).unwrap();
                    space.nodes[at].set_meta(META_EXTRACTED, &item.mark);
                }
                finish_pull(self.runtime.registry_mut(), &key, &plan, plan.len())
            }
            Work::List { filter } => {
                let list = self.space(&name).list(&filter);
                finish_list(self.runtime.registry_mut(), Ok(list))
            }
            Work::Run { job } => self.run(key, job),
        }
    }

    fn run(&mut self, key: NamespaceKey, job: Job) -> Response {
        let name = key.as_str().to_string();
        let now = self.now;
        match job {
            Job::Recall { job } => {
                let outcome = self.space(&name).recall(&job);
                let answer = answer_recall(&key, &job, now, Ok(outcome));
                if let RecallAnswer::Answered { event, .. } = &answer {
                    let policy = &mut self.space(&name).policy;
                    policy.open();
                    if !policy.unavailable {
                        policy.operations += 1;
                        policy.insert_attempts += 1;
                        if !policy.fail_inserts {
                            policy.events.push(event.clone());
                        }
                    }
                }
                commit_recall(self.runtime.registry_mut(), answer)
            }
            Job::Remember { job } => {
                let episodic = Stored {
                    id: 0,
                    content: job.content,
                    session_id: "note".to_string(),
                    scope: job.options.scope.as_str().to_string(),
                    created_at: now,
                    episodic: true,
                    metadata: job.options.metadata,
                    tags: job.options.tags,
                    salience: 0.5,
                    valid_until: None,
                };
                let semantic = Stored {
                    episodic: false,
                    ..episodic.clone()
                };
                let id = self.space(&name).add(episodic);
                self.space(&name).add(semantic);
                finish_remember(self.runtime.registry_mut(), Ok(id))
            }
            Job::Relate { job } => {
                let label = match &job.relation {
                    Relation::Causes => "causal",
                    _ => job.label.as_str(),
                };
                let result = self.space(&name).link(job.from_id, job.to_id, label);
                finish_relate(self.runtime.registry_mut(), &job, result)
            }
            Job::Stats { recall } => {
                let outcome = self.space(&name).stats(recall);
                finish_stats(self.runtime.registry_mut(), &key, recall, Ok(outcome))
            }
            Job::Update { id, new_content } => {
                let space = self.space(&name);
                let result = space.position(id).map(|at| space.nodes[at].content = new_content);
                finish_update(self.runtime.registry_mut(), id, result)
            }
            Job::Forget { id, reason, hard } => {
                let space = self.space(&name);
                let result = space.position(id).map(|at| {
                    if hard {
                        space.nodes.remove(at);
                    } else {
                        space.nodes[at].set_meta("retracted", "true");
                        space.nodes[at].set_meta("retraction_reason", &reason);
                    }
                });
                finish_forget(self.runtime.registry_mut(), id, hard, result)
            }
            Job::Supersede { new_id, old_id } => {
                let space = self.space(&name);
                let result = space.link(new_id, old_id, "supersedes");
                if result.is_ok() {
                    let at = space.position(old_id).unwrap();
                    space.nodes[at].valid_until = Some(now);
                }
                finish_supersede(self.runtime.registry_mut(), new_id, old_id, result)
            }
            Job::Get { id } => {
                let space = self.space(&name);
                let result = space.position(id).map(|at| space.nodes[at].view());
                finish_get(self.runtime.registry_mut(), result)
            }
            Job::Graph {
                start,
                depth,
                budget,
            } => {
                let result = self.space(&name).subgraph(&start, depth, budget);
                finish_graph(self.runtime.registry_mut(), result)
            }
            Job::Scan {
                profile,
                min_turns,
                max_turns,
            } => {
                let result = self.scan(&name, &profile, min_turns, max_turns);
                self.last_scan = result.clone().unwrap_or_default();
                extraction_response(self.runtime.registry_mut(), result.map(|s| wire(&s)))
            }
            Job::Stage {
                profile,
                sources,
                extraction,
                ..
            } => {
                let canonical = canonical_form(&extraction);
                let result = self.stage(&name, &profile, sources, extraction, canonical);
                self.last_stage = result.clone().ok();
                let text = result.map(|r| match r {
                    StageExtractionResult::Staged { run_id } => format!("staged {run_id}"),
                    StageExtractionResult::AlreadyStaged { run_id } => {
                        format!("already staged {run_id}")
                    }
                });
                extraction_response(self.runtime.registry_mut(), text)
            }
            Job::RecordFailure {
                turn_count,
                llm_invoked,
                error_kind,
                ..
            } => {
                self.space(&name).policy.runs.push(Run {
                    error_kind: Some(error_kind.as_str().to_string()),
                    llm_invoked,
                    turn_count: turn_count as u64,
                    sources: Vec::new(),
                });
                dispatch_record_failure(self.runtime.registry_mut(), Ok(()))
            }
            Job::AuditList { .. } => {
                let audit = self.audit(&name);
                let text = format!("{}", audit.candidates.len());
                dispatch_audit_list(self.runtime.registry_mut(), Ok(text))
            }
            Job::CandidateAudit {
                candidate_id,
                support,
                contamination,
                reviewer,
            } => {
                let reviewer = resolve_reviewer(Some(&reviewer), "nobody");
                let space = self.space(&name);
                let graph = space.graph();
                if let Err(fault) =
                    dispatch_update_candidate_audit(&graph, &space.policy.candidates, candidate_id)
                {
                    return finish_candidate_audit(self.runtime.registry_mut(), Err(fault));
                }
                let row = space
                    .policy
                    .candidates
                    .iter_mut()
                    .find(|c| c.id == candidate_id)
                    .unwrap();
                row.support = Some(support);
                row.contamination = contamination;
                row.reviewed_by = Some(reviewer);
                row.reviewed_at = Some(now);
                finish_candidate_audit(self.runtime.registry_mut(), Ok(()))
            }
            Job::RelationAudit {
                relation_id,
                verdict,
                reviewer,
            } => {
                let reviewer = resolve_reviewer(Some(&reviewer), "nobody");
                let row = self
                    .space(&name)
                    .policy
                    .relations
                    .iter_mut()
                    .find(|r| r.id == relation_id)
                    .unwrap();
                row.verdict = Some(verdict);
                row.reviewed_by = Some(reviewer);
                row.reviewed_at = Some(now);
                dispatch_update_relation_audit(self.runtime.registry_mut(), Ok(()))
            }
            Job::PromoteCandidate { candidate_id } => {
                let space = self.space(&name);
                let graph = space.graph();
                let plan = plan_candidate_promotion(
                    &graph,
                    &space.facts,
                    &space.policy.candidates,
                    candidate_id,
                );
                match plan {
                    Err(fault) => {
                        finish_promote_candidate(self.runtime.registry_mut(), Err(fault), false)
                    }
                    Ok(Promotion::Refresh {
                        fact_id,
                        valid_from,
                        valid_until,
                    }) => {
                        let fact = space.facts.iter_mut().find(|f| f.id == fact_id).unwrap();
                        fact.valid_from = valid_from;
                        fact.valid_until = valid_until;
                        finish_promote_candidate(self.runtime.registry_mut(), Ok(fact_id), true)
                    }
                    Ok(Promotion::Add { input }) => {
                        let id = space.next();
                        space.facts.push(AtomicFact {
                            id,
                            valid_from: input.valid_from,
                            valid_until: input.valid_until,
                            metadata: input.metadata,
                        });
                        finish_promote_candidate(self.runtime.registry_mut(), Ok(id), false)
                    }
                }
            }
            Job::PromoteRelation { relation_id } => {
                let audit = self.audit(&name);
                let space = self.space(&name);
                match plan_relation_promotion(&space.facts, &audit, relation_id) {
                    Err(fault) => {
                        let registry = self.runtime.registry_mut();
                        finish_promote_relation(registry, relation_id, Err(fault), false)
                    }
                    Ok(RelationPromotion::AlreadyThere) => {
                        let registry = self.runtime.registry_mut();
                        finish_promote_relation(registry, relation_id, Ok(()), true)
                    }
                    Ok(RelationPromotion::Link {
                        fact_id,
                        key,
                        value,
                    }) => {
                        let fact = space.facts.iter_mut().find(|f| f.id == fact_id).unwrap();
                        fact.metadata.push((key, value));
                        let registry = self.runtime.registry_mut();
                        finish_promote_relation(registry, relation_id, Ok(()), false)
                    }
                }
            }
            Job::Ingest { .. } | Job::Pull { .. } | Job::List { .. } => {
                unreachable!("these become work of their own")
            }
        }
    }

    fn scan(
        &mut self,
        name: &str,
        profile: &ExtractorProfileComponents,
        min_turns: u32,
        max_turns: u32,
    ) -> Result<Vec<ExtractionSource>, EngineError> {
        let space = self.space(name);
        let status = *space
            .policy
            .statuses
            .entry(profile.profile_id.clone())
            .or_insert(ExtractionProfileStatus::Shadow);
        processed_turn_keys(status)?;
        let mut processed = KeySet::new();
        for key in space.policy.ledger.entry(profile.profile_id.clone()).or_default() {
            processed.insert(key.clone());
        }
        Ok(scan_namespace(&space.graph(), &processed, min_turns, max_turns))
    }

    fn stage(
        &mut self,
        name: &str,
        profile: &ExtractorProfileComponents,
        sources: Vec<ExtractionSource>,
        extraction: ValidatedExtraction,
        canonical: Result<ValidatedExtraction, String>,
    ) -> Result<StageExtractionResult, EngineError> {
        let space = self.space(name);
        stage_namespace(&space.graph(), &sources, &extraction, canonical).map_err(|f| f.error())?;
        let ledger = space.policy.ledger.entry(profile.profile_id.clone()).or_default();
        let keys: Vec<String> = sources.iter().map(|s| s.turn_key.clone()).collect();
        let known = keys.iter().filter(|k| ledger.contains(k)).count();
        if known == keys.len() && !keys.is_empty() {
            let run = space.policy.runs.iter().position(|r| r.sources == keys);
            return match run {
                Some(at) => Ok(StageExtractionResult::AlreadyStaged {
                    run_id: at as u64 + 1,
                }),
                None => Err(EngineError::invalid_input("sources are ledgered otherwise".to_string())),
            };
        }
        if known > 0 {
            return Err(EngineError::invalid_input(
                "sources are ledgered in part".to_string(),
            ));
        }
        if space.policy.reject_relations && !extraction.relations.is_empty() {
            return Err(EngineError {
                kind: EngineErrorKind::Storage,
                message: "relation insert rejected".to_string(),
            });
        }
        ledger.extend(keys.iter().cloned());
        space.policy.runs.push(Run {
            error_kind: None,
            llm_invoked: true,
            turn_count: keys.len() as u64,
            sources: keys,
        });
        let run_id = space.policy.runs.len() as u64;
        for item in &extraction.items {
            let of_item: Vec<&ExtractionSource> = item
                .source_node_ids
                .iter()
                .map(|id| sources.iter().find(|s| s.node_id == *id).unwrap())
                .collect();
            let id = space.policy.candidates.len() as u64 + 1;
            let evidence = item.evidence_span.as_ref().map(|span| {
                let source = of_item[0];
                let start = source.content.find(span.as_str()).expect("the span is quoted");
                (source.node_id, start as u64, (start + span.len()) as u64, hex(span))
            });
            space.policy.candidates.push(ExtractionAuditCandidateRow {
                id,
                run_id,
                profile_id: profile.profile_id.clone(),
                item_local_id: item.item_local_id.clone(),
                idempotency_key: format!("{run_id}:{}", item.item_local_id),
                content: item.content.clone(),
                kind: item.kind,
                confidence: item.confidence,
                entity_tags: item.entity_tags.clone(),
                subject: item.subject.clone(),
                relation: item.relation.clone(),
                object: item.object.clone(),
                evidence_object: item.evidence_object.clone(),
                evidence_span: None,
                evidence_source_node_id: evidence.as_ref().map(|e| e.0),
                evidence_span_start: evidence.as_ref().map(|e| e.1),
                evidence_span_end: evidence.as_ref().map(|e| e.2),
                evidence_span_sha256: evidence.map(|e| e.3),
                valid_from_ms: item.valid_from_ms,
                valid_until_ms: item.valid_until_ms,
                source_session_id: of_item[0].session_id.clone(),
                source_scope: of_item[0].scope.clone(),
                source_turn_keys: of_item.iter().map(|s| s.turn_key.clone()).collect(),
                source_content_hashes: of_item.iter().map(|s| s.content_hash.clone()).collect(),
                source_node_ids: of_item.iter().map(|s| s.node_id).collect(),
                sources: Vec::new(),
                support: None,
                contamination: None,
                reviewed_at: None,
                reviewed_by: None,
            });
        }
        for relation in &extraction.relations {
            let find = |local: &str| {
                space
                    .policy
                    .candidates
                    .iter()
                    .find(|c| c.run_id == run_id && c.item_local_id == local)
                    .unwrap()
                    .id
            };
            let row = ExtractionAuditRelationRow {
                id: space.policy.relations.len() as u64 + 1,
                run_id,
                profile_id: profile.profile_id.clone(),
                from_item_local_id: relation.from_item_local_id.clone(),
                to_item_local_id: relation.to_item_local_id.clone(),
                candidate_from: find(&relation.from_item_local_id),
                candidate_to: find(&relation.to_item_local_id),
                relation_type: relation.relation_type,
                verdict: None,
                reviewed_at: None,
                reviewed_by: None,
            };
            space.policy.relations.push(row);
        }
        Ok(StageExtractionResult::Staged { run_id })
    }

    fn audit(&mut self, name: &str) -> ExtractionAuditResult {
        let space = self.space(name);
        let mut audit = ExtractionAuditResult {
            candidates: space.policy.candidates.clone(),
            relations: space.policy.relations.clone(),
        };
        enrich_audit_sources(&space.graph(), &mut audit);
        audit
    }

    fn promote_candidate(&mut self, id: u64) -> Response {
        let step = dispatch_promote_candidate(self.runtime.registry(), None, id);
        self.go(step)
    }

    fn promote_relation(&mut self, id: u64) -> Response {
        let step = dispatch_promote_relation(self.runtime.registry(), None, id);
        self.go(step)
    }
}

fn hex(text: &str) -> String {
    Sha256::digest(text.as_bytes()).iter().map(|b| format!("{b:02x}")).collect()
}

/// The sources of a batch as they cross the wire.
fn wire(sources: &[ExtractionSource]) -> String {
    let ids: Vec<u64> = sources.iter().map(|s| s.node_id).collect();
    serde_json::to_string(&ids).unwrap()
}

/// What the schema makes of an extraction: the same, unless an item has no
/// source.
fn canonical_form(extraction: &ValidatedExtraction) -> Result<ValidatedExtraction, String> {
    let confidences = extraction
        .items
        .iter()
        .map(|i| format!("{:?}", f64::from_bits(i.confidence)))
        .collect();
    let payload = json(&extraction_payload(extraction, &confidences));
    let items = payload["items"].as_array().unwrap();
    if items
        .iter()
        .any(|i| i["source_node_ids"].as_array().unwrap().is_empty())
    {
        return Err("an item has no source".to_string());
    }
    Ok(extraction.clone())
}

fn ok_text(resp: Response) -> String {
    match resp {
        Response::Done { text } => text,
        other => panic!("expected Done, got {other:?}"),
    }
}

fn is_invalid_params(resp: &Response) -> bool {
    matches!(
        resp,
        Response::Fault {
            kind: ErrKind::InvalidParams,
            ..
        }
    )
}

fn remember(content: &str) -> Request {
    Request::Remember {
        content: content.to_string(),
        namespace: None,
        tags: None,
        metadata: None,
        scope: None,
    }
}

fn recall(query: &str, limit: u32, reinforce: bool) -> Request {
    Request::Recall {
        query: query.to_string(),
        limit: Some(limit),
        namespace: None,
        reinforce: Some(reinforce),
        gate_threshold: None,
        cosine_gate: None,
        knowledge_only: None,
        scope: None,
        tag: None,
        event_kind: None,
    }
}

fn stats(recall: Option<bool>) -> Request {
    Request::Stats {
        namespace: None,
        recall,
    }
}

fn get(id: u64) -> Request {
    Request::Get {
        id,
        namespace: None,
    }
}

fn list_all(limit: u32) -> Request {
    Request::List {
        min_salience: Some(0.0f64.to_bits()),
        limit: Some(limit),
        node_type: None,
        tag: None,
        namespace: None,
        scope: None,
        metadata: None,
    }
}

fn stored_id(text: &str) -> u64 {
    text.strip_prefix("stored node ")
        .and_then(|s| s.parse::<u64>().ok())
        .unwrap_or_else(|| panic!("expected 'stored node <id>', got: {text}"))
}

fn remember_id(service: &mut Service, content: &str) -> u64 {
    stored_id(&ok_text(dispatch(service, remember(content))))
}

fn remember_with(
    service: &mut Service,
    content: &str,
    tags: Option<Vec<String>>,
    metadata: Option<Vec<(String, String)>>,
    scope: Option<String>,
) -> Response {
    dispatch(
        service,
        Request::Remember {
            content: content.to_string(),
            namespace: None,
            tags,
            metadata,
            scope,
        },
    )
}

fn json(text: &str) -> serde_json::Value {
    serde_json::from_str(text).expect("the reply is JSON")
}

fn turn(speaker: &str, text: &str, at_ms: Option<u64>) -> TurnInput {
    TurnInput {
        speaker: speaker.to_string(),
        text: text.to_string(),
        at_ms,
    }
}

fn forget(id: u64, reason: Option<&str>, hard: bool) -> Request {
    Request::Forget {
        id,
        reason: reason.map(str::to_string),
        hard: Some(hard),
        namespace: None,
    }
}

/// The nodes at the end of the reply to a recall.
fn nodes_of(reply: &str) -> Vec<serde_json::Value> {
    let nodes_json = reply
        .split("## NODES (for `relate`)\n")
        .nth(1)
        .expect("recall reply has a NODES section");
    serde_json::from_str(nodes_json.trim()).expect("NODES section is a JSON array")
}

fn list_of(reply: &str) -> Vec<serde_json::Value> {
    serde_json::from_str(reply).expect("list returns a JSON array")
}

fn check_namespace_b_dispatch_completes_while_namespace_a_memory_lock_is_held() {
    let mut reg = stub_registry();
    let in_flight = dispatch_registry(
        reg.runtime.registry_mut(),
        Request::Remember {
            content: "namespace a write that takes its time".to_string(),
            namespace: Some("a".to_string()),
            tags: None,
            metadata: None,
            scope: None,
        },
    );
    let text = ok_text(dispatch(
        &mut reg,
        Request::Remember {
            content: "namespace b write while a is locked".to_string(),
            namespace: Some("b".to_string()),
            tags: None,
            metadata: None,
            scope: None,
        },
    ));
    assert!(text.starts_with("stored node "), "got: {text}");
    assert!(reg.space("a").nodes.is_empty(), "a is still at work");
    let text = ok_text(reg.go(in_flight));
    assert!(text.starts_with("stored node "), "got: {text}");
}

fn check_remember_then_recall_round_trips_through_dispatch() {
    let mut reg = stub_registry();
    let stored = ok_text(dispatch(
        &mut reg,
        remember(&["the", "gate", "is on raw activation scale"].join(" ")),
    ));
    assert!(stored.starts_with("stored node "), "got: {stored}");

    let recalled = ok_text(dispatch(&mut reg, recall("gate activation scale", 5, false)));
    assert!(
        recalled.contains("## NODES (for `relate`)"),
        "got: {recalled}"
    );
    let nodes = nodes_of(&recalled);
    assert!(!nodes.is_empty(), "got: {recalled}");
    assert!(
        nodes.iter().all(|node| node["cosine"].is_number()),
        "NODES refs must include cosine for calibration: {nodes:?}"
    );
}

fn check_recall_with_no_matches_renders_sentinel_and_empty_nodes() {
    let mut reg = stub_registry();
    let text = ok_text(dispatch(&mut reg, recall("nothing has been stored yet", 5, false)));
    assert!(text.starts_with("(no relevant memory)"), "got: {text}");
    assert!(text.contains("## NODES (for `relate`)\n[]"), "got: {text}");
}

fn check_relate_bad_label_is_invalid_params_not_internal() {
    let mut reg = stub_registry();
    ok_text(dispatch(&mut reg, remember("node a")));
    ok_text(dispatch(&mut reg, remember("node b")));
    let resp = dispatch(
        &mut reg,
        Request::Relate {
            from_id: 1,
            to_id: 2,
            relation: "definitely-not-a-relation".to_string(),
            namespace: None,
        },
    );
    assert!(
        is_invalid_params(&resp),
        "a bad relation label must be a caller error: {resp:?}"
    );
}

fn check_stats_dispatch_matches_format_stats() {
    let mut reg = stub_registry();
    let text = ok_text(dispatch(&mut reg, stats(None)));
    assert!(text.contains("nodes:"));
    assert!(text.contains("health grade:"));
    assert!(text.contains("usage (this daemon)"), "got: {text}");
    assert!(text.contains("extraction backlog:"), "got: {text}");
    let block = format_stats(&reg.default_space().stats(false).stats);
    assert!(text.starts_with(&block), "got: {text}");
}

fn check_ingest_reports_counts() {
    let mut reg = stub_registry();
    let text = ok_text(dispatch(
        &mut reg,
        Request::Ingest {
            session: "s1".to_string(),
            turns: vec![
                turn("user", "we decided to use a daemon", None),
                turn("assistant", "agreed, on-demand shared daemon", None),
            ],
            namespace: None,
            capture: None,
            scope: None,
        },
    ));
    assert!(text.starts_with("ingested "), "got: {text}");
}

fn check_update_edits_content_via_dispatch() {
    let mut reg = stub_registry();
    let id = remember_id(&mut reg, "the deploy script is bash");
    let resp = ok_text(dispatch(
        &mut reg,
        Request::Update {
            id,
            new_content: "the deploy script is now written in rust".to_string(),
            namespace: None,
        },
    ));
    assert_eq!(resp, format!("updated node {id}"));
    let view = json(&ok_text(dispatch(&mut reg, get(id))));
    assert_eq!(
        view["content"], "the deploy script is now written in rust",
        "get must reflect the update: {view}"
    );
}

fn check_update_nonexistent_id_is_invalid_params_not_internal() {
    let mut reg = stub_registry();
    let resp = dispatch(
        &mut reg,
        Request::Update {
            id: u64::MAX,
            new_content: "x".to_string(),
            namespace: None,
        },
    );
    assert!(
        is_invalid_params(&resp),
        "a missing id must be a caller error, not internal: {resp:?}"
    );
}

fn check_forget_soft_hides_then_stats_counts_retracted() {
    let mut reg = stub_registry();
    let id = remember_id(&mut reg, "the api key was rotated");
    let resp = ok_text(dispatch(
        &mut reg,
        forget(id, Some("stale credential"), false),
    ));
    assert!(resp.contains("soft delete"), "got: {resp}");
    let view = json(&ok_text(dispatch(&mut reg, get(id))));
    assert_eq!(view["retracted"], true, "got: {view}");
    let stats = ok_text(dispatch(&mut reg, stats(None)));
    assert!(
        stats.contains("retracted:            1"),
        "stats must count the retraction: {stats}"
    );
}

fn check_forget_hard_removes_node() {
    let mut reg = stub_registry();
    let id = remember_id(&mut reg, "a node bound for hard deletion");
    let resp = ok_text(dispatch(&mut reg, forget(id, None, true)));
    assert!(resp.contains("hard delete"), "got: {resp}");
    let after = dispatch(&mut reg, get(id));
    assert!(
        is_invalid_params(&after),
        "a hard-deleted node must no longer be readable: {after:?}"
    );
}

fn check_forget_nonexistent_id_is_invalid_params() {
    let mut reg = stub_registry();
    let resp = dispatch(&mut reg, forget(u64::MAX, None, false));
    assert!(is_invalid_params(&resp), "got: {resp:?}");
}

fn check_supersede_tool_links_and_sets_validity() {
    let mut reg = stub_registry();
    let old_id = remember_id(&mut reg, "we use postgres for storage");
    let new_id = remember_id(&mut reg, "we now use sqlite for storage");
    let resp = ok_text(dispatch(
        &mut reg,
        Request::Supersede {
            new_id,
            old_id,
            namespace: None,
        },
    ));
    assert!(
        resp.starts_with(&format!("superseded {old_id} by {new_id} (edge ")),
        "got: {resp}"
    );
    let old_view = json(&ok_text(dispatch(&mut reg, get(old_id))));
    assert!(
        !old_view["valid_until"].is_null(),
        "superseded node must have a closed validity window: {old_view}"
    );
    let a = remember_id(&mut reg, "fact A");
    let b = remember_id(&mut reg, "fact B");
    let relate_resp = ok_text(dispatch(
        &mut reg,
        Request::Relate {
            from_id: b,
            to_id: a,
            relation: "supersedes".to_string(),
            namespace: None,
        },
    ));
    assert!(relate_resp.contains("supersedes"), "got: {relate_resp}");
}

fn check_supersede_nonexistent_endpoint_is_invalid_params() {
    let mut reg = stub_registry();
    let a = remember_id(&mut reg, "only node");
    let resp = dispatch(
        &mut reg,
        Request::Supersede {
            new_id: a,
            old_id: u64::MAX,
            namespace: None,
        },
    );
    assert!(is_invalid_params(&resp), "got: {resp:?}");
}

fn check_list_returns_ranked_json() {
    let mut reg = stub_registry();
    remember_id(&mut reg, "low salience note about weather");
    let high = remember_id(&mut reg, "high salience note about weather");
    for _ in 0..3 {
        ok_text(dispatch(
            &mut reg,
            recall("high salience note about weather", 5, true),
        ));
    }
    let items = list_of(&ok_text(dispatch(&mut reg, list_all(20))));
    assert!(!items.is_empty(), "expected at least one listed node");
    for item in &items {
        assert!(item["node_id"].is_u64(), "got: {item}");
        assert!(item["content_preview"].is_string(), "got: {item}");
        assert!(item["salience"].is_number(), "got: {item}");
        assert!(item["tier"].is_string(), "got: {item}");
        assert!(item["node_type"].is_string(), "got: {item}");
        assert!(item["created_at"].is_u64(), "got: {item}");
        assert!(item["retracted"].is_boolean(), "got: {item}");
    }
    for w in items.windows(2) {
        let a = w[0]["salience"].as_f64().unwrap();
        let b = w[1]["salience"].as_f64().unwrap();
        assert!(a >= b, "list must be salience-descending: {items:?}");
    }
    let ids: Vec<u64> = items.iter().map(|v| v["node_id"].as_u64().unwrap()).collect();
    assert!(ids.contains(&high), "high-salience node must be listed");
}

fn check_list_with_weird_filter_returns_empty_array_not_panic() {
    let mut reg = stub_registry();
    remember_id(&mut reg, "a normal note");
    let resp = ok_text(dispatch(
        &mut reg,
        Request::List {
            min_salience: Some(999.0f64.to_bits()),
            limit: Some(5),
            node_type: Some("no-such-type-xyz".to_string()),
            tag: Some("no-such-tag-xyz".to_string()),
            namespace: None,
            scope: None,
            metadata: None,
        },
    ));
    let items = list_of(&resp);
    assert!(items.is_empty(), "got: {items:?}");
}

fn check_get_returns_full_node_json() {
    let mut reg = stub_registry();
    let id = remember_id(&mut reg, "the outage was caused by a bad migration");
    let view = json(&ok_text(dispatch(&mut reg, get(id))));
    assert_eq!(view["node_id"], id);
    assert_eq!(view["content"], "the outage was caused by a bad migration");
    assert!(view["metadata"].is_object(), "got: {view}");
    assert!(view["entity_tags"].is_array(), "got: {view}");
    assert!(view["salience"].is_number(), "got: {view}");
    assert!(view["tier"].is_string(), "got: {view}");
    assert!(view["node_type"].is_string(), "got: {view}");
    assert!(view["created_at"].is_u64(), "got: {view}");
    assert!(view["updated_at"].is_u64(), "got: {view}");
    assert!(view["valid_from"].is_null() || view["valid_from"].is_u64());
    assert!(view["valid_until"].is_null() || view["valid_until"].is_u64());
    assert_eq!(view["retracted"], false);
}

fn check_mcp_mgmt_tools_demo() {
    let mut reg = stub_registry();
    let id = remember_id(&mut reg, "we use postgres for storage");
    let updated = ok_text(dispatch(
        &mut reg,
        Request::Update {
            id,
            new_content: "we use postgres for storage (JSONB + RLS)".to_string(),
            namespace: None,
        },
    ));
    ok_text(dispatch(&mut reg, get(id)));
    let new_id = remember_id(&mut reg, "we now use sqlite for storage");
    ok_text(dispatch(&mut reg, list_all(20)));
    ok_text(dispatch(
        &mut reg,
        Request::Supersede {
            new_id,
            old_id: id,
            namespace: None,
        },
    ));
    ok_text(dispatch(
        &mut reg,
        forget(id, Some("superseded by sqlite decision"), false),
    ));
    ok_text(dispatch(&mut reg, forget(new_id, None, true)));
    assert!(updated.starts_with("updated node "));
}

fn check_get_nonexistent_id_is_invalid_params_not_internal() {
    let mut reg = stub_registry();
    let resp = dispatch(&mut reg, get(u64::MAX));
    assert!(
        is_invalid_params(&resp),
        "a non-existent id must be a caller error, not internal: {resp:?}"
    );
}

fn check_stats_renders_failure_counters_that_increment() {
    let mut reg = stub_registry();
    let s0 = ok_text(dispatch(&mut reg, stats(None)));
    assert!(
        s0.contains("failures (this daemon):"),
        "stats must render a failures section:\n{s0}"
    );
    assert!(
        s0.contains("dispatch errors: 0 (0 ingest)"),
        "baseline dispatch errors must be zero:\n{s0}"
    );
    assert!(
        s0.contains("empty recalls: 0"),
        "baseline empty recalls must be zero:\n{s0}"
    );
    let recalled = ok_text(dispatch(&mut reg, recall("nothing stored yet", 5, false)));
    assert!(
        recalled.starts_with("(no relevant memory)"),
        "expected the empty-recall sentinel:\n{recalled}"
    );
    let stored = ok_text(dispatch(&mut reg, remember("only node")));
    assert!(stored.starts_with("stored node "), "got: {stored}");
    let resp = dispatch(
        &mut reg,
        Request::Relate {
            from_id: 1,
            to_id: u64::MAX,
            relation: "related".to_string(),
            namespace: None,
        },
    );
    assert!(
        matches!(resp, Response::Fault { .. }),
        "relate to a missing endpoint must error: {resp:?}"
    );
    let s1 = ok_text(dispatch(&mut reg, stats(None)));
    assert!(
        s1.contains("dispatch errors: 1 (0 ingest)"),
        "one failed request must show as one dispatch error:\n{s1}"
    );
    assert!(
        s1.contains("empty recalls: 1"),
        "one empty recall must be counted:\n{s1}"
    );
}

#[test]
fn tests_namespace_b_dispatch_completes_while_namespace_a_memory_lock_is_held() {
    check_namespace_b_dispatch_completes_while_namespace_a_memory_lock_is_held();
}

#[test]
fn tests_remember_then_recall_round_trips_through_dispatch() {
    check_remember_then_recall_round_trips_through_dispatch();
}

#[test]
fn tests_recall_with_no_matches_renders_sentinel_and_empty_nodes() {
    check_recall_with_no_matches_renders_sentinel_and_empty_nodes();
}

#[test]
fn tests_relate_bad_label_is_invalid_params_not_internal() {
    check_relate_bad_label_is_invalid_params_not_internal();
}

#[test]
fn tests_stats_dispatch_matches_format_stats() {
    check_stats_dispatch_matches_format_stats();
}

#[test]
fn tests_ingest_reports_counts() {
    check_ingest_reports_counts();
}

#[test]
fn tests_update_edits_content_via_dispatch() {
    check_update_edits_content_via_dispatch();
}

#[test]
fn tests_update_nonexistent_id_is_invalid_params_not_internal() {
    check_update_nonexistent_id_is_invalid_params_not_internal();
}

#[test]
fn tests_forget_soft_hides_then_stats_counts_retracted() {
    check_forget_soft_hides_then_stats_counts_retracted();
}

#[test]
fn tests_forget_hard_removes_node() {
    check_forget_hard_removes_node();
}

#[test]
fn tests_forget_nonexistent_id_is_invalid_params() {
    check_forget_nonexistent_id_is_invalid_params();
}

#[test]
fn tests_supersede_tool_links_and_sets_validity() {
    check_supersede_tool_links_and_sets_validity();
}

#[test]
fn tests_supersede_nonexistent_endpoint_is_invalid_params() {
    check_supersede_nonexistent_endpoint_is_invalid_params();
}

#[test]
fn tests_list_returns_ranked_json() {
    check_list_returns_ranked_json();
}

#[test]
fn tests_list_with_weird_filter_returns_empty_array_not_panic() {
    check_list_with_weird_filter_returns_empty_array_not_panic();
}

#[test]
fn tests_get_returns_full_node_json() {
    check_get_returns_full_node_json();
}

#[test]
fn tests_mcp_mgmt_tools_demo() {
    check_mcp_mgmt_tools_demo();
}

#[test]
fn tests_get_nonexistent_id_is_invalid_params_not_internal() {
    check_get_nonexistent_id_is_invalid_params_not_internal();
}

#[test]
fn tests_stats_renders_failure_counters_that_increment() {
    check_stats_renders_failure_counters_that_increment();
}

#[test]
fn dispatch_namespace_b_dispatch_completes_while_namespace_a_memory_lock_is_held() {
    check_namespace_b_dispatch_completes_while_namespace_a_memory_lock_is_held();
}

#[test]
fn dispatch_remember_then_recall_round_trips_through_dispatch() {
    check_remember_then_recall_round_trips_through_dispatch();
}

#[test]
fn dispatch_recall_with_no_matches_renders_sentinel_and_empty_nodes() {
    check_recall_with_no_matches_renders_sentinel_and_empty_nodes();
}

#[test]
fn dispatch_relate_bad_label_is_invalid_params_not_internal() {
    check_relate_bad_label_is_invalid_params_not_internal();
}

#[test]
fn dispatch_stats_dispatch_matches_format_stats() {
    check_stats_dispatch_matches_format_stats();
}

#[test]
fn dispatch_ingest_reports_counts() {
    check_ingest_reports_counts();
}

#[test]
fn dispatch_update_edits_content_via_dispatch() {
    check_update_edits_content_via_dispatch();
}

#[test]
fn dispatch_update_nonexistent_id_is_invalid_params_not_internal() {
    check_update_nonexistent_id_is_invalid_params_not_internal();
}

#[test]
fn dispatch_forget_soft_hides_then_stats_counts_retracted() {
    check_forget_soft_hides_then_stats_counts_retracted();
}

#[test]
fn dispatch_forget_hard_removes_node() {
    check_forget_hard_removes_node();
}

#[test]
fn dispatch_forget_nonexistent_id_is_invalid_params() {
    check_forget_nonexistent_id_is_invalid_params();
}

#[test]
fn dispatch_supersede_tool_links_and_sets_validity() {
    check_supersede_tool_links_and_sets_validity();
}

#[test]
fn dispatch_supersede_nonexistent_endpoint_is_invalid_params() {
    check_supersede_nonexistent_endpoint_is_invalid_params();
}

#[test]
fn dispatch_list_returns_ranked_json() {
    check_list_returns_ranked_json();
}

#[test]
fn dispatch_list_with_weird_filter_returns_empty_array_not_panic() {
    check_list_with_weird_filter_returns_empty_array_not_panic();
}

#[test]
fn dispatch_get_returns_full_node_json() {
    check_get_returns_full_node_json();
}

#[test]
fn dispatch_mcp_mgmt_tools_demo() {
    check_mcp_mgmt_tools_demo();
}

#[test]
fn dispatch_get_nonexistent_id_is_invalid_params_not_internal() {
    check_get_nonexistent_id_is_invalid_params_not_internal();
}

#[test]
fn dispatch_stats_renders_failure_counters_that_increment() {
    check_stats_renders_failure_counters_that_increment();
}

#[test]
fn recall_telemetry_write_failure_preserves_response_and_dispatch_counters() {
    let mut reg = stub_registry();
    let request = recall("stable recall output despite telemetry failure", 5, false);
    let before = ok_text(dispatch(&mut reg, request.clone()));
    let dispatch_errors = reg.ops().dispatch_errors;
    let event_count = reg.default_space().policy.events.len();
    reg.default_space().policy.fail_inserts = true;

    let after = ok_text(dispatch(&mut reg, request));
    assert_eq!(
        after, before,
        "telemetry persistence is best-effort and must not alter the recall reply"
    );
    assert_eq!(
        reg.default_space().policy.events.len(),
        event_count,
        "a failed transactional insert must not leave a recall_events row behind"
    );
    assert_eq!(
        reg.ops().dispatch_errors,
        dispatch_errors,
        "a best-effort telemetry failure must not be reported as a dispatch failure"
    );
}

#[test]
fn r1_recall_telemetry_deploy_gate_demo() {
    let mut reg = stub_registry();
    let namespace = "r1-deploy-gate";
    let scope = "project/r1-deploy-gate";
    let query = "r1 filtered top rollout proof";
    let canonical = reg.runtime.registry().canonical_ns_key(Some(namespace));
    assert_eq!(
        canonical.as_str(),
        namespace,
        "the deterministic deploy-gate namespace must already be canonical"
    );
    ok_text(dispatch(
        &mut reg,
        Request::Remember {
            content: query.to_string(),
            namespace: Some(namespace.to_string()),
            tags: None,
            metadata: Some(vec![(META_CAPTURE.to_string(), "true".to_string())]),
            scope: Some(scope.to_string()),
        },
    ));
    let (captured_episodic_id, surviving_semantic_id) = {
        let space = reg.space(namespace);
        let episodic = space.nodes.iter().find(|n| n.episodic).unwrap().id;
        let semantic = space.nodes.iter_mut().find(|n| !n.episodic).unwrap();
        semantic.set_meta(META_CAPTURE, "false");
        (episodic, semantic.id)
    };
    let request = |query: &str, knowledge_only: bool, gated: bool| Request::Recall {
        query: query.to_string(),
        limit: Some(5),
        namespace: Some(namespace.to_string()),
        reinforce: Some(false),
        gate_threshold: gated.then_some(0.0f64.to_bits()),
        cosine_gate: gated.then_some(0.99f64.to_bits()),
        knowledge_only: Some(knowledge_only),
        scope: Some(scope.to_string()),
        tag: None,
        event_kind: Some(RecallEventKind::UserPrompt),
    };
    let unfiltered = nodes_of(&ok_text(dispatch(&mut reg, request(query, false, true))));
    assert_eq!(
        unfiltered[0]["node_id"].as_u64(),
        Some(captured_episodic_id),
        "the captured Episodic node must be the actual unfiltered top candidate"
    );
    ok_text(dispatch(&mut reg, request(query, true, true)));

    let events = reg.space(namespace).policy.events.clone();
    assert_eq!(
        events.len(),
        2,
        "the unfiltered baseline and knowledge-only recall must write exactly two events"
    );
    let event = &events[1];
    assert_eq!(event.event_kind, RecallEventKind::UserPrompt);
    assert_eq!(event.namespace, canonical.as_str());
    assert_eq!(event.scope.as_deref(), Some(scope));
    assert_eq!(event.query_chars, query.chars().count() as u64);
    assert!(event.has_hits && event.readout_pass && event.cosine_pass && event.eligible);
    assert_eq!(
        event.result_node_ids.first().copied(),
        Some(surviving_semantic_id),
        "persisted filtered top must be the surviving Semantic node"
    );
    assert!(
        !event.result_node_ids.contains(&captured_episodic_id),
        "knowledge_only must exclude the captured high-scoring Episodic node"
    );
    assert!(
        event.top_score.is_some() && event.top_cosine.is_some(),
        "eligible filtered result must persist top score and cosine"
    );
    assert!(
        !format!("{event:?}").contains(query),
        "recall telemetry must not retain the raw query"
    );

    let probe = "deterministic fail-open response probe";
    let before_control = reg.space(namespace).policy.events.len();
    let control = dispatch(&mut reg, request(probe, true, false));
    assert!(matches!(&control, Response::Done { .. }));
    let after_control = reg.space(namespace).policy.events.len();
    assert_eq!(after_control, before_control + 1);
    let attempts = reg.space(namespace).policy.insert_attempts;
    reg.space(namespace).policy.fail_inserts = true;
    let failed = dispatch(&mut reg, request(probe, true, false));
    assert_eq!(
        reg.space(namespace).policy.insert_attempts,
        attempts + 1,
        "the triggered dispatch must attempt exactly one telemetry insert"
    );
    assert_eq!(
        failed, control,
        "forced telemetry write failure must preserve the control response bytes"
    );
    assert_eq!(
        reg.space(namespace).policy.events.len(),
        after_control,
        "forced telemetry write failure must not leave an event row behind"
    );
}

#[test]
fn recall_telemetry_uses_canonical_namespace_unicode_char_count_and_unknown_kind() {
    let mut reg = stub_registry();
    let raw_namespace = "Telemetry/Namespace";
    let query = "한국어 기억";
    let expected = reg.runtime.registry().canonical_ns_key(Some(raw_namespace));
    ok_text(dispatch(
        &mut reg,
        Request::Recall {
            query: query.to_string(),
            limit: Some(5),
            namespace: Some(raw_namespace.to_string()),
            reinforce: Some(false),
            gate_threshold: None,
            cosine_gate: None,
            knowledge_only: None,
            scope: None,
            tag: None,
            event_kind: None,
        },
    ));
    let events = &reg.space(expected.as_str()).policy.events;
    assert_eq!(
        events.len(),
        1,
        "one recall must persist one telemetry event"
    );
    let event = &events[0];
    assert_eq!(event.namespace, expected.as_str());
    assert_eq!(
        event.query_chars, 6,
        "count Unicode scalar values, not UTF-8 bytes"
    );
    assert_eq!(event.event_kind, RecallEventKind::Unknown);
    assert!(
        !format!("{event:?}").contains(query),
        "minimized recall telemetry must never retain the raw query"
    );
}

#[test]
fn recall_policy_sql_runs_after_registry_release_with_memory_then_policy_lock_order() {
    let mut reg = stub_registry();
    let step = dispatch_registry(
        reg.runtime.registry_mut(),
        Request::Recall {
            query: "lock ordering telemetry".to_string(),
            limit: Some(5),
            namespace: Some("lock-order".to_string()),
            reinforce: Some(false),
            gate_threshold: None,
            cosine_gate: None,
            knowledge_only: None,
            scope: None,
            tag: None,
            event_kind: None,
        },
    );
    let Step::Open { key, policy, job } = step else {
        panic!("a recall first opens its namespace: {step:?}");
    };
    assert!(policy, "phase 1 asks for the policy handle");
    assert!(
        !reg.space("lock-order").policy.ready,
        "phase 1 must create only an uninitialized policy handle"
    );
    let step = opened(reg.runtime.registry_mut(), key, job, Ok(None));
    let Step::Work {
        key,
        work: Work::Run {
            job: Job::Recall { job },
        },
    } = step
    else {
        panic!("an open namespace is worked on: {step:?}");
    };

    // The registry is at rest from here on, until the answer is committed.
    let resting = format!("{:?}", reg.runtime);
    let space = reg.spaces.get_mut("lock-order").unwrap();
    let outcome = space.recall(&job);
    let answer = answer_recall(&key, &job, 1_000_000, Ok(outcome));
    let RecallAnswer::Answered { event, .. } = &answer else {
        panic!("the recall was answered: {answer:?}");
    };
    space.policy.open();
    space.policy.operations += 1;
    space.policy.events.push(event.clone());
    assert_eq!(
        reg.space("lock-order").policy.operations,
        2,
        "the dispatch must perform exactly policy initialization then recall-event insertion"
    );
    assert_eq!(format!("{:?}", reg.runtime), resting);
    ok_text(commit_recall(reg.runtime.registry_mut(), answer));
    assert!(
        reg.space("lock-order").policy.ready,
        "phase 2 must initialize the policy store before inserting telemetry"
    );
}

#[test]
fn stats_without_recall_is_byte_identical_to_existing_graph_stats_and_usage() {
    let mut reg = stub_registry();
    let no_flag = ok_text(dispatch(&mut reg, stats(None)));
    let explicitly_disabled = ok_text(dispatch(&mut reg, stats(Some(false))));
    assert_eq!(
        no_flag, explicitly_disabled,
        "stats without --recall must preserve the graph-stats-plus-usage bytes"
    );
    assert!(
        !no_flag.contains("recall telemetry"),
        "stats without --recall must not append telemetry: {no_flag}"
    );
}

#[test]
fn stats_recall_unavailable_policy_preserves_graph_stats_and_appends_unavailable() {
    let mut reg = stub_registry();
    reg.default_space().policy.unavailable = true;
    let text = ok_text(dispatch(&mut reg, stats(Some(true))));
    assert!(
        text.contains("nodes:"),
        "graph stats must still render: {text}"
    );
    assert!(
        text.contains("usage (this daemon)"),
        "usage must still render: {text}"
    );
    assert!(
        text.contains("telemetry unavailable"),
        "future policy state must be reported without failing stats: {text}"
    );
}

#[test]
fn recall_policy_migration_failure_is_fail_open_and_disables_telemetry_without_rows() {
    let mut reg = stub_registry();
    reg.default_space().policy.unavailable = true;
    let dispatch_errors_before = reg.ops().dispatch_errors;
    let text = ok_text(dispatch(
        &mut reg,
        recall("core recall survives policy migration failure", 5, false),
    ));
    assert!(
        text.starts_with("(no relevant memory)") && text.contains("## NODES (for `relate`)\n[]"),
        "policy migration failure must not replace the core recall response: {text}"
    );
    assert!(
        reg.default_space().policy.events.is_empty(),
        "disabled telemetry must not create a recall row"
    );
    assert_eq!(
        reg.ops().dispatch_errors,
        dispatch_errors_before,
        "best-effort policy migration failure must not become a dispatch failure"
    );
    let stats = ok_text(dispatch(&mut reg, stats(Some(true))));
    assert!(
        stats.contains("telemetry unavailable"),
        "disabled policy telemetry must be visible in stats: {stats}"
    );
}

#[test]
fn stats_recall_query_failure_preserves_graph_usage_and_telemetry_rows() {
    let mut reg = stub_registry();
    ok_text(dispatch(
        &mut reg,
        recall("initialize telemetry before corrupting a stats value", 5, false),
    ));
    let rows_before = reg.default_space().policy.events.len();
    reg.default_space().policy.broken_stats = true;
    let graph_and_usage = ok_text(dispatch(&mut reg, stats(Some(false))));
    let fail_open = ok_text(dispatch(&mut reg, stats(Some(true))));
    assert_eq!(
        fail_open,
        format!(
            "{graph_and_usage}\nrecall telemetry (injection eligibility, not delivery)\n  telemetry unavailable\n"
        ),
        "stats-query failure must preserve graph stats and usage while visibly disabling telemetry"
    );
    assert!(reg.default_space().policy.ready);
    assert_eq!(
        reg.default_space().policy.events.len(),
        rows_before,
        "a failed read-only stats query must not alter persisted telemetry rows"
    );
}

#[test]
fn stats_recall_renderer_empty_contract_is_exact() {
    let expected = [
        "recall telemetry (injection eligibility, not delivery)\n",
        "  attempts: 0\n",
        "  by event kind:\n",
        "  abstentions:\n",
        "    empty: 0\n",
        "    readout-only: 0\n",
        "    cosine-only: 0\n",
        "    both: 0\n",
        "  cosine:\n",
        "    samples: 0\n",
        "    nulls: 0\n",
        "    p50: N/A\n",
        "    p90: N/A\n",
        "    p95: N/A\n",
        "  auto exposure (exposure, not quality):\n",
        "    event exposure: N/A (0/0)\n",
        "    slot exposure: N/A (0/0)\n",
        "  eligibility sweep:\n",
        "    0.80: eligible 0 / attempts 0\n",
        "    0.81: eligible 0 / attempts 0\n",
        "    0.82: eligible 0 / attempts 0\n",
        "    0.83: eligible 0 / attempts 0\n",
        "    0.84: eligible 0 / attempts 0\n",
        "    0.85: eligible 0 / attempts 0\n",
        "    0.86: eligible 0 / attempts 0\n",
        "    0.87: eligible 0 / attempts 0\n",
        "    0.88: eligible 0 / attempts 0\n",
        "    0.89: eligible 0 / attempts 0\n",
        "    0.90: eligible 0 / attempts 0\n",
    ];
    assert_eq!(
        format_recall_stats(&Some(empty_recall_stats())),
        expected.concat()
    );
}

/// A number with three places, as it is handed to the renderer.
fn quantile(value: f64) -> Option<Quantile> {
    Some(Quantile::Finite {
        text: format!("{value:.3}"),
    })
}

fn percent(numerator: u64, denominator: u64) -> String {
    format!("{:.1}", numerator as f64 * 100.0 / denominator as f64)
}

#[test]
fn stats_recall_renderer_populated_contract_is_exact() {
    let of = |event_kind, attempts, eligible| EventKindStats {
        event_kind,
        attempts,
        eligible,
    };
    let stats = RecallStats {
        total_attempts: 6,
        by_event_kind: vec![
            of(RecallEventKind::SessionStart, 1, 0),
            of(RecallEventKind::Tool, 2, 1),
            of(RecallEventKind::Unknown, 1, 0),
            of(RecallEventKind::UserPrompt, 2, 1),
        ],
        abstentions: AbstentionStats {
            empty: 1,
            readout_only: 1,
            cosine_only: 1,
            both: 1,
        },
        cosine: CosineStats {
            samples: 5,
            nulls: 1,
            p50: quantile(0.84),
            p90: quantile(0.90),
            p95: quantile(0.90),
        },
        auto_exposure: AutoExposureStats {
            eligible_events: 2,
            events_with_auto: 1,
            event_percent: percent(1, 2),
            result_slots: 5,
            auto_slots: 2,
            slot_percent: percent(2, 5),
        },
        sweep: (80..=90)
            .zip([3, 3, 3, 2, 2, 2, 2, 2, 2, 1, 1])
            .map(|(hundredths, eligible)| SweepPoint {
                threshold: format!("{:.2}", hundredths as f64 / 100.0),
                eligible,
                attempts: 6,
            })
            .collect(),
    };
    let expected = [
        "recall telemetry (injection eligibility, not delivery)\n",
        "  attempts: 6\n",
        "  by event kind:\n",
        "    SessionStart: attempts 1, eligible 0\n",
        "    Tool: attempts 2, eligible 1\n",
        "    Unknown: attempts 1, eligible 0\n",
        "    UserPrompt: attempts 2, eligible 1\n",
        "  abstentions:\n",
        "    empty: 1\n",
        "    readout-only: 1\n",
        "    cosine-only: 1\n",
        "    both: 1\n",
        "  cosine:\n",
        "    samples: 5\n",
        "    nulls: 1\n",
        "    p50: 0.840\n",
        "    p90: 0.900\n",
        "    p95: 0.900\n",
        "  auto exposure (exposure, not quality):\n",
        "    event exposure: 50.0% (1/2)\n",
        "    slot exposure: 40.0% (2/5)\n",
        "  eligibility sweep:\n",
        "    0.80: eligible 3 / attempts 6\n",
        "    0.81: eligible 3 / attempts 6\n",
        "    0.82: eligible 3 / attempts 6\n",
        "    0.83: eligible 2 / attempts 6\n",
        "    0.84: eligible 2 / attempts 6\n",
        "    0.85: eligible 2 / attempts 6\n",
        "    0.86: eligible 2 / attempts 6\n",
        "    0.87: eligible 2 / attempts 6\n",
        "    0.88: eligible 2 / attempts 6\n",
        "    0.89: eligible 1 / attempts 6\n",
        "    0.90: eligible 1 / attempts 6\n",
    ];
    assert_eq!(format_recall_stats(&Some(stats)), expected.concat());
}

#[test]
fn dispatch_capture_ingest_stamps_scope_and_capture_marker() {
    let mut reg = stub_registry();
    let text = ok_text(dispatch(
        &mut reg,
        Request::Ingest {
            session: "scoped-capture".to_string(),
            turns: vec![
                turn("user", "scoped capture alpha", Some(1)),
                turn("assistant", "scoped capture beta", Some(2)),
            ],
            namespace: None,
            capture: Some(true),
            scope: Some("project/anamnesis".to_string()),
        },
    ));
    assert!(text.starts_with("ingested "), "got: {text}");
    let nodes = &reg.default_space().nodes;
    assert!(nodes.len() >= 4, "expected episodic + semantic nodes");
    for node in nodes {
        assert_eq!(node.scope, "project/anamnesis");
        assert_eq!(node.meta(META_CAPTURE), Some("true"));
    }
}

#[test]
fn ingest_invalid_scope_returns_invalid_params() {
    let mut reg = stub_registry();
    let resp = dispatch(
        &mut reg,
        Request::Ingest {
            session: "bad-scope".to_string(),
            turns: vec![turn("user", "bad scope", Some(1))],
            namespace: None,
            capture: Some(true),
            scope: Some("project//bad".to_string()),
        },
    );
    assert!(is_invalid_params(&resp), "got: {resp:?}");
}

#[test]
fn get_json_surfaces_origin_provenance() {
    let mut reg = stub_registry();
    let id = stored_id(&ok_text(remember_with(
        &mut reg,
        "the outage postmortem is scoped to this project",
        None,
        None,
        Some("projA".to_string()),
    )));
    let view = json(&ok_text(dispatch(&mut reg, get(id))));
    assert_eq!(view["scope"], "projA");
    assert!(view["peer_id"].is_string(), "got: {view}");
    assert!(view["session_id"].is_string(), "got: {view}");
    assert!(view["confidence"].is_number(), "got: {view}");
}

#[test]
fn extraction_queue_per_namespace_demo() {
    let mut reg = stub_registry();
    for (ns, text, at_ms) in [
        ("projA", "projA decided to use postgres", 1),
        ("projB", "projB decided to use sqlite", 2),
    ] {
        ok_text(dispatch(
            &mut reg,
            Request::Ingest {
                session: format!("s-{ns}"),
                turns: vec![turn("user", text, Some(at_ms))],
                namespace: Some(ns.to_string()),
                capture: Some(true),
                scope: None,
            },
        ));
    }
    let status = |reg: &mut Service, ns: &str| {
        ok_text(dispatch(
            reg,
            Request::ExtractionStatus {
                namespace: Some(ns.to_string()),
            },
        ))
    };
    let pull = |reg: &mut Service, ns: &str| {
        ok_text(dispatch(
            reg,
            Request::PullPending {
                limit: None,
                namespace: Some(ns.to_string()),
            },
        ))
    };
    for ns in ["projA", "projB"] {
        let got = status(&mut reg, ns);
        assert!(got.contains("\"pending\":1"), "got: {got}");
    }
    let projb_pull = pull(&mut reg, "projB");
    assert!(
        projb_pull.contains("projB decided to use sqlite"),
        "got: {projb_pull}"
    );
    assert!(
        !projb_pull.contains("projA decided to use postgres"),
        "LEAK: A appeared in B's pull: {projb_pull}"
    );
    let proja_pull = pull(&mut reg, "projA");
    assert!(
        proja_pull.contains("projA decided to use postgres"),
        "got: {proja_pull}"
    );
    assert!(
        !proja_pull.contains("projB decided to use sqlite"),
        "LEAK: B appeared in A's pull: {proja_pull}"
    );
    for ns in ["projA", "projB"] {
        let got = status(&mut reg, ns);
        assert!(got.contains("\"pending\":0"), "got: {got}");
    }
}

fn list_by(tag: Option<&str>, scope: Option<&str>, metadata: Option<&str>) -> Request {
    Request::List {
        min_salience: Some(0.0f64.to_bits()),
        limit: Some(20),
        node_type: None,
        tag: tag.map(str::to_string),
        namespace: None,
        scope: scope.map(str::to_string),
        metadata: metadata.map(str::to_string),
    }
}

fn scoped_recall(query: &str, reinforce: bool, scope: &str) -> Request {
    Request::Recall {
        query: query.to_string(),
        limit: Some(20),
        namespace: None,
        reinforce: Some(reinforce),
        gate_threshold: None,
        cosine_gate: None,
        knowledge_only: None,
        scope: Some(scope.to_string()),
        tag: None,
        event_kind: None,
    }
}

#[test]
fn remember_with_tags_then_list_filter_by_tag_returns_only_tagged() {
    let mut reg = stub_registry();
    remember_with(
        &mut reg,
        "the auth bug was a race in the middleware",
        Some(vec!["auth".to_string()]),
        None,
        None,
    );
    remember_id(&mut reg, "an unrelated note about lunch");
    let items = list_of(&ok_text(dispatch(&mut reg, list_by(Some("auth"), None, None))));
    assert!(!items.is_empty(), "expected the tagged node in the list");
    for item in &items {
        let preview = item["content_preview"].as_str().unwrap_or_default();
        assert!(
            preview.contains("the auth bug"),
            "tag filter must exclude the untagged note: {items:?}"
        );
    }
}

#[test]
fn remember_with_metadata_persists_and_get_shows_it() {
    let mut reg = stub_registry();
    let id = stored_id(&ok_text(remember_with(
        &mut reg,
        "the deploy runbook lives in ops/",
        None,
        Some(vec![("owner".to_string(), "alice".to_string())]),
        None,
    )));
    let view = json(&ok_text(dispatch(&mut reg, get(id))));
    assert_eq!(view["metadata"]["owner"], "alice", "got: {view}");
}

#[test]
fn remember_with_scope_then_list_filter_by_scope() {
    let mut reg = stub_registry();
    remember_with(&mut reg, "projA-only fact", None, None, Some("projA".to_string()));
    remember_with(&mut reg, "projB-only fact", None, None, Some("projB".to_string()));
    let items = list_of(&ok_text(dispatch(&mut reg, list_by(None, Some("projA"), None))));
    assert!(!items.is_empty(), "expected projA's node in the list");
    for item in &items {
        let preview = item["content_preview"].as_str().unwrap_or_default();
        assert!(
            preview.contains("projA-only"),
            "scope filter must exclude projB's note: {items:?}"
        );
    }
}

#[test]
fn recall_filter_by_scope_excludes_other_scope() {
    let mut reg = stub_registry();
    for (content, scope) in [
        ("the outage postmortem for project A", "projA"),
        ("the outage postmortem for project B", "projB"),
    ] {
        remember_with(&mut reg, content, None, None, Some(scope.to_string()));
    }
    let resp = ok_text(dispatch(
        &mut reg,
        scoped_recall("outage postmortem", true, "projA"),
    ));
    let nodes = nodes_of(&resp);
    assert!(!nodes.is_empty(), "expected at least the projA hit: {resp}");
    for node in &nodes {
        let id = node["node_id"].as_u64().unwrap();
        let view = ok_text(dispatch(&mut reg, get(id)));
        assert!(
            view.contains("project A"),
            "scope filter must exclude project B's hit, got node text: {view}"
        );
    }
    assert!(resp.contains("project A"), "expected the projA content: {resp}");
    assert!(!resp.contains("project B"), "no project B content: {resp}");
    assert!(
        !resp.to_lowercase().contains("scope projb"),
        "recall scope filter must not leak project B's scope line: {resp}"
    );
}

#[test]
fn scope_filter_keeps_universal_and_matching_drops_foreign() {
    let mut reg = stub_registry();
    for (content, scope) in [
        ("shared outage postmortem applies everywhere", None),
        ("project A outage postmortem detail", Some("projA")),
        ("project B outage postmortem detail", Some("projB")),
    ] {
        remember_with(&mut reg, content, None, None, scope.map(str::to_string));
    }
    let resp = ok_text(dispatch(
        &mut reg,
        scoped_recall("outage postmortem detail", false, "projA"),
    ));
    assert!(
        resp.contains("shared outage postmortem"),
        "universal memories must survive scoped recall: {resp}"
    );
    assert!(
        resp.contains("project A outage postmortem"),
        "same-scope memories must survive scoped recall: {resp}"
    );
    assert!(
        !resp.contains("project B outage postmortem"),
        "foreign-scope memories must be dropped: {resp}"
    );
}

#[test]
fn list_with_malformed_metadata_filter_errors_cleanly_not_panic() {
    let mut reg = stub_registry();
    remember_id(&mut reg, "a note with no metadata");
    let resp = dispatch(&mut reg, list_by(None, None, Some("no-equals-sign-here")));
    assert!(
        is_invalid_params(&resp),
        "malformed \"key=value\" metadata filter must be a clean invalid_params error: {resp:?}"
    );
}

#[test]
fn remember_with_empty_tag_does_not_panic_and_is_dropped() {
    let mut reg = stub_registry();
    let id = stored_id(&ok_text(remember_with(
        &mut reg,
        "a note with a blank tag",
        Some(vec![String::new(), "real-tag".to_string()]),
        None,
        None,
    )));
    let view = json(&ok_text(dispatch(&mut reg, get(id))));
    let tags: Vec<&str> = view["entity_tags"]
        .as_array()
        .unwrap()
        .iter()
        .map(|v| v.as_str().unwrap())
        .collect();
    assert!(!tags.contains(&""), "empty tag must be dropped: {tags:?}");
    assert!(tags.contains(&"real-tag"), "got: {tags:?}");
}

#[test]
fn list_with_unknown_scope_returns_empty_not_panic() {
    let mut reg = stub_registry();
    remember_id(&mut reg, "a universally-scoped note");
    let items = list_of(&ok_text(dispatch(
        &mut reg,
        list_by(None, Some("no-such-scope-xyz"), None),
    )));
    assert!(items.is_empty(), "got: {items:?}");
}

#[test]
fn p1_t5_manual_qa_demo() {
    let mut reg = stub_registry();
    let id = stored_id(&ok_text(remember_with(
        &mut reg,
        "the on-call runbook lives in ops/oncall.md",
        Some(vec!["ops".to_string()]),
        Some(vec![("owner".to_string(), "alice".to_string())]),
        Some("projA".to_string()),
    )));
    remember_with(
        &mut reg,
        "an unrelated projB fact",
        Some(vec!["misc".to_string()]),
        None,
        Some("projB".to_string()),
    );
    ok_text(dispatch(&mut reg, get(id)));
    let by_tag = ok_text(dispatch(&mut reg, list_by(Some("ops"), None, None)));
    assert!(by_tag.contains("on-call") && !by_tag.contains("projB"), "{by_tag}");
    let by_scope = ok_text(dispatch(&mut reg, list_by(None, Some("projA"), None)));
    assert!(by_scope.contains("on-call") && !by_scope.contains("projB"), "{by_scope}");
    let by_metadata = ok_text(dispatch(&mut reg, list_by(None, None, Some("owner=alice"))));
    assert!(by_metadata.contains("on-call") && !by_metadata.contains("projB"), "{by_metadata}");
    let recalled = ok_text(dispatch(&mut reg, scoped_recall("on-call runbook", true, "projA")));
    assert!(recalled.contains("on-call"), "{recalled}");
}

fn relate(reg: &mut Service, from_id: u64, to_id: u64, relation: &str) {
    ok_text(dispatch(
        reg,
        Request::Relate {
            from_id,
            to_id,
            relation: relation.to_string(),
            namespace: None,
        },
    ));
}

fn graph(seeds: Option<Vec<u64>>, query: Option<&str>, depth: Option<u32>, limit: Option<u32>) -> Request {
    Request::Graph {
        seeds,
        query: query.map(str::to_string),
        depth,
        limit,
        namespace: None,
    }
}

fn two_linked(reg: &mut Service, first: &str, second: &str) -> (u64, u64, serde_json::Value) {
    let a = remember_id(reg, first);
    let b = remember_id(reg, second);
    relate(reg, a, b, "causes");
    let body = json(&ok_text(dispatch(
        reg,
        graph(Some(vec![a]), None, Some(1), Some(100)),
    )));
    (a, b, body)
}

#[test]
fn dispatch_graph_by_seed_returns_canonical_json() {
    let mut reg = stub_registry();
    let (a, b, body) = two_linked(
        &mut reg,
        "graph-viz seed node alpha",
        "graph-viz seed node beta",
    );
    assert_eq!(body["schema"], 1, "got: {body}");
    assert_eq!(body["seed_ids"], serde_json::Value::from(vec![a]), "got: {body}");
    let nodes = body["nodes"].as_array().expect("nodes array");
    assert!(
        nodes.iter().any(|n| n["id"] == a),
        "seed node must appear in nodes: {body}"
    );
    assert!(
        nodes.iter().any(|n| n["id"] == b),
        "1-hop neighbor must appear in nodes: {body}"
    );
    let edges = body["edges"].as_array().expect("edges array");
    assert!(
        edges
            .iter()
            .any(|e| e["source"] == a && e["target"] == b && e["type"] == "causal"),
        "the causes edge must appear: {body}"
    );
    for n in nodes {
        assert!(n["salience"].is_number(), "got: {n}");
        assert!(n["type"].is_string(), "got: {n}");
        assert!(n["depth"].is_u64(), "got: {n}");
        assert!(n["tier"].is_string(), "got: {n}");
        assert!(n["created_at"].is_u64(), "got: {n}");
        assert!(n["retracted"].is_boolean(), "got: {n}");
    }
}

#[test]
fn dispatch_graph_by_query_resolves_seeds() {
    let mut reg = stub_registry();
    remember_id(&mut reg, "the wombat migration runbook is documented here");
    let body = json(&ok_text(dispatch(&mut reg, graph(None, Some("wombat"), None, None))));
    assert_eq!(body["schema"], 1, "got: {body}");
    let nodes = body["nodes"].as_array().expect("nodes array");
    assert!(
        !nodes.is_empty(),
        "query-resolved seeds must yield a non-empty subgraph: {body}"
    );
}

#[test]
fn dispatch_graph_without_seed_or_query_is_invalid_params() {
    let mut reg = stub_registry();
    let resp = dispatch(&mut reg, graph(None, None, None, None));
    assert!(is_invalid_params(&resp), "expected invalid_params, got {resp:?}");
}

#[test]
fn dispatch_graph_missing_node_is_invalid_params() {
    let mut reg = stub_registry();
    let resp = dispatch(&mut reg, graph(Some(vec![9999]), None, None, None));
    assert!(is_invalid_params(&resp), "expected invalid_params, got {resp:?}");
}

#[test]
fn adversarial_probe_graph_edge_cases() {
    let mut reg = stub_registry();
    let a = remember_id(&mut reg, "adversarial probe alpha node");
    let resp = dispatch(&mut reg, graph(Some(vec![]), None, None, None));
    assert!(is_invalid_params(&resp), "empty seeds: {resp:?}");
    let body = json(&ok_text(dispatch(
        &mut reg,
        graph(Some(vec![9999]), Some("adversarial"), None, None),
    )));
    assert!(
        body["nodes"].as_array().unwrap().iter().any(|n| n["id"] == a),
        "query must win: {body}"
    );
    let resp = dispatch(&mut reg, graph(Some(vec![a]), None, Some(999), Some(100)));
    assert!(matches!(resp, Response::Done { .. }), "depth clamp: {resp:?}");
    let mut empty_reg = stub_registry();
    let body = json(&ok_text(dispatch(
        &mut empty_reg,
        graph(None, Some("zzz_no_such_term_zzz"), None, None),
    )));
    assert_eq!(
        body["nodes"].as_array().unwrap().len(),
        0,
        "no-match query against an empty store: {body}"
    );
}

#[test]
fn graph_budget_defaults_to_250_and_caps_at_2000() {
    assert_eq!(graph_budget(None), 250, "omitted limit must default to 250");
    assert_eq!(graph_budget(Some(250)), 250);
    assert_eq!(graph_budget(Some(2000)), 2000, "2000 is in-bounds, not clamped");
    assert_eq!(graph_budget(Some(2001)), 2000, "over-cap limit must clamp to 2000");
    assert_eq!(
        graph_budget(Some(u32::MAX)),
        2000,
        "an absurd limit must still clamp to 2000"
    );
}

#[test]
fn graph_json_includes_cluster_and_doi() {
    let mut reg = stub_registry();
    let (_, _, body) = two_linked(
        &mut reg,
        "enrich phase2 node alpha",
        "enrich phase2 node beta",
    );
    let nodes = body["nodes"].as_array().expect("nodes array");
    assert!(!nodes.is_empty(), "got: {body}");
    for n in nodes {
        assert!(n["cluster"].is_u64(), "cluster must be numeric: {n}");
        assert!(n["doi"].is_number(), "doi must be numeric: {n}");
    }
}

#[test]
fn clusters_are_stable() {
    let mut reg = stub_registry();
    let ids: Vec<u64> = (0..8)
        .map(|i| remember_id(&mut reg, &format!("stability fixture node {i}")))
        .collect();
    for pair in ids.windows(2) {
        relate(&mut reg, pair[0], pair[1], "causes");
    }
    let request = || graph(Some(vec![ids[0]]), None, Some(3), Some(100));
    let first = json(&ok_text(dispatch(&mut reg, request())));
    let second = json(&ok_text(dispatch(&mut reg, request())));
    let clusters_by_id = |body: &serde_json::Value| -> std::collections::BTreeMap<u64, u64> {
        body["nodes"]
            .as_array()
            .unwrap()
            .iter()
            .map(|n| (n["id"].as_u64().unwrap(), n["cluster"].as_u64().unwrap()))
            .collect()
    };
    assert_eq!(
        clusters_by_id(&first),
        clusters_by_id(&second),
        "clusters must not change between identical calls: {first} vs {second}"
    );
}

#[test]
fn doi_ranks_seed_highest() {
    let mut reg = stub_registry();
    let (a, b, body) = two_linked(&mut reg, "doi ranking seed node", "doi ranking neighbor node");
    let nodes = body["nodes"].as_array().unwrap();
    let doi_of = |id: u64| -> f64 {
        nodes
            .iter()
            .find(|n| n["id"] == id)
            .and_then(|n| n["doi"].as_f64())
            .unwrap_or_else(|| panic!("node {id} missing doi: {body}"))
    };
    assert!(
        doi_of(a) > doi_of(b),
        "seed doi ({}) must exceed neighbor doi ({}): {body}",
        doi_of(a),
        doi_of(b)
    );
}

#[test]
fn tiny_graph_single_cluster() {
    let mut reg = stub_registry();
    let (_, _, body) = two_linked(&mut reg, "tiny graph node alpha", "tiny graph node beta");
    let nodes = body["nodes"].as_array().unwrap();
    assert!(
        nodes.len() < 8,
        "fixture must stay under the threshold: {body}"
    );
    for n in nodes {
        assert_eq!(n["cluster"], 0, "sub-threshold graph must be cluster 0: {n}");
    }
}

fn capture_turns(
    reg: &mut Service,
    session: &str,
    scope: &str,
    count: usize,
    at_ms: u64,
    content_prefix: &str,
) {
    for offset in 0..count {
        ok_text(dispatch(
            reg,
            Request::Ingest {
                session: session.to_string(),
                turns: vec![turn(
                    "user",
                    &format!("{content_prefix} turn {offset}"),
                    Some(at_ms + offset as u64),
                )],
                namespace: None,
                capture: Some(true),
                scope: Some(scope.to_string()),
            },
        ));
    }
}

fn extraction_profile() -> ExtractorProfileComponents {
    ExtractorProfileComponents {
        profile_id: "profile-1".to_string(),
        model_id: "model-1".to_string(),
        schema_version: 1,
    }
}

fn extraction_scan(
    reg: &mut Service,
    profile: &ExtractorProfileComponents,
) -> Vec<ExtractionSource> {
    let text = ok_text(dispatch(
        reg,
        Request::ExtractionScan {
            namespace: None,
            profile: profile.clone(),
            min_turns: 10,
            max_turns: 20,
        },
    ));
    assert_eq!(text, wire(&reg.last_scan));
    reg.last_scan.clone()
}

fn record_scanned_sources(reg: &mut Service, profile_id: &str, sources: &[ExtractionSource]) {
    let ledger = reg
        .default_space()
        .policy
        .ledger
        .entry(profile_id.to_string())
        .or_default();
    ledger.extend(sources.iter().map(|s| s.turn_key.clone()));
}

fn graph_snapshot(reg: &mut Service) -> (Vec<Stored>, Vec<Link>) {
    let space = reg.default_space();
    (space.nodes.clone(), space.links.clone())
}

#[test]
fn extraction_scan_excludes_current_profile_ledger_without_reading_extracted_metadata() {
    let mut reg = stub_registry();
    capture_turns(&mut reg, "scan-session", "project/anamnesis", 12, 100, "captured");
    for (index, node) in reg.default_space().nodes.iter_mut().enumerate() {
        node.set_meta(META_EXTRACTED, if index % 2 == 0 { "true" } else { "false" });
        node.salience = 0.2 + index as f64 / 100.0;
    }
    let profile = extraction_profile();
    let before = graph_snapshot(&mut reg);
    let initial = extraction_scan(&mut reg, &profile);
    assert_eq!(initial.len(), 12, "twelve captured turns are eligible");
    assert!(
        initial
            .iter()
            .all(|s| s.session_id == "scan-session" && s.scope == "project/anamnesis"),
        "scan must preserve session and scope provenance"
    );
    record_scanned_sources(&mut reg, &profile.profile_id, &initial[..3]);
    assert!(
        extraction_scan(&mut reg, &profile).is_empty(),
        "the current profile has only 9 unledgered turns, below the minimum batch size"
    );
    let mut other_profile = profile;
    other_profile.model_id.push_str("-other");
    other_profile.profile_id.push_str("-other");
    assert_eq!(
        extraction_scan(&mut reg, &other_profile).len(),
        12,
        "a different profile must see all twelve turns"
    );
    assert_eq!(
        graph_snapshot(&mut reg),
        before,
        "scan must not mutate graph node or edge records"
    );
}

#[test]
fn extraction_scan_groups_by_session_and_scope_selects_oldest_and_caps_at_twenty() {
    let mut reg = stub_registry();
    capture_turns(&mut reg, "shared-session", "scope-a", 9, 100, "A");
    capture_turns(&mut reg, "shared-session", "scope-b", 10, 200, "B");
    capture_turns(&mut reg, "session-c", "scope-a", 21, 300, "C");
    let profile = extraction_profile();
    let first = extraction_scan(&mut reg, &profile);
    assert_eq!(first.len(), 10, "oldest eligible group B is selected");
    assert!(
        first
            .iter()
            .all(|s| s.session_id == "shared-session" && s.scope == "scope-b"),
        "the same session in a distinct scope must remain a distinct group"
    );
    record_scanned_sources(&mut reg, &profile.profile_id, &first);
    let second = extraction_scan(&mut reg, &profile);
    assert_eq!(second.len(), 20, "group C is capped at twenty sources");
    assert!(
        second
            .iter()
            .all(|s| s.session_id == "session-c" && s.scope == "scope-a"),
        "the next eligible session-and-scope group is selected"
    );
    assert!(second.windows(2).all(|w| w[0].at_ms <= w[1].at_ms));
}

#[test]
fn extraction_scan_hashes_exact_utf8_source_content() {
    let mut reg = stub_registry();
    let content = "café 🦀\ncombining: e\u{301}";
    ok_text(dispatch(
        &mut reg,
        Request::Ingest {
            session: "utf8-session".to_string(),
            turns: (0..10).map(|at_ms| turn("user", content, Some(at_ms))).collect(),
            namespace: None,
            capture: Some(true),
            scope: Some("utf8-scope".to_string()),
        },
    ));
    let sources = extraction_scan(&mut reg, &extraction_profile());
    assert_eq!(sources.len(), 10);
    for source in sources {
        let space = reg.default_space();
        let node = &space.nodes[space.position(source.node_id).unwrap()];
        assert_eq!(
            source.content, node.content,
            "scan must return the stored captured node content"
        );
        assert_eq!(
            source.content_hash,
            hex(&node.content),
            "scan must hash the exact stored UTF-8 node content bytes"
        );
        assert_eq!(source.content_hash, content_hash(&source.content));
    }
}

/// Stores a note that carries a turn key but was not captured as a turn.
fn remember_impostor(reg: &mut Service, content: &str, turn_key: &str) -> Stored {
    ok_text(remember_with(
        reg,
        content,
        None,
        Some(vec![(META_TURN_KEY.to_string(), turn_key.to_string())]),
        None,
    ));
    let node = reg
        .default_space()
        .nodes
        .iter_mut()
        .find(|n| n.content == content && !n.episodic)
        .unwrap();
    node.set_meta(META_CAPTURE, "true");
    node.clone()
}

#[test]
fn extraction_scan_sends_only_captured_episodic_turns() {
    let mut reg = stub_registry();
    capture_turns(&mut reg, "capture-only", "scope", 10, 100, "captured");
    remember_impostor(&mut reg, "turn key impostor", "impostor-key");
    let sources = extraction_scan(&mut reg, &extraction_profile());
    assert_eq!(
        sources.len(),
        10,
        "only captured turns reach the provider boundary"
    );
    assert!(
        sources.iter().all(|s| s.turn_key != "impostor-key"),
        "a non-capture node carrying a turn key must not be scanned"
    );
}

#[test]
fn extraction_scan_rejects_non_shadow_status_without_approval_semantics() {
    let mut reg = stub_registry();
    capture_turns(&mut reg, "unsupported-status", "scope", 10, 100, "captured");
    let profile = extraction_profile();
    extraction_scan(&mut reg, &profile);
    reg.default_space()
        .policy
        .statuses
        .insert(profile.profile_id.clone(), ExtractionProfileStatus::Approved);
    let response = dispatch(
        &mut reg,
        Request::ExtractionScan {
            namespace: None,
            profile,
            min_turns: 10,
            max_turns: 20,
        },
    );
    let Response::Fault { kind, message } = response else {
        panic!("non-shadow status must reject scan");
    };
    assert_eq!(kind, ErrKind::InvalidParams);
    assert_eq!(
        message,
        "unsupported extraction profile status for shadow scans: Approved"
    );
}

/// How many runs, ledgered sources, candidates and relations there are.
fn policy_counts(reg: &mut Service) -> (usize, usize, usize, usize) {
    let policy = &reg.default_space().policy;
    (
        policy.runs.len(),
        policy.ledger.values().map(Vec::len).sum(),
        policy.candidates.len(),
        policy.relations.len(),
    )
}

fn stage_extraction(
    reg: &mut Service,
    profile: &ExtractorProfileComponents,
    sources: Vec<ExtractionSource>,
    extraction: ValidatedExtraction,
) -> Response {
    dispatch(
        reg,
        Request::StageExtraction {
            namespace: None,
            profile: profile.clone(),
            llm_duration_ms: 17,
            sources,
            extraction,
        },
    )
}

fn staged_result(
    reg: &mut Service,
    profile: &ExtractorProfileComponents,
    sources: Vec<ExtractionSource>,
    extraction: ValidatedExtraction,
) -> StageExtractionResult {
    ok_text(stage_extraction(reg, profile, sources, extraction));
    reg.last_stage.take().expect("the stage was recorded")
}

fn nothing_extracted() -> ValidatedExtraction {
    ValidatedExtraction {
        items: Vec::new(),
        relations: Vec::new(),
    }
}

fn canonical_extraction(
    item_sources: &[(&str, u64)],
    relations: &[(&str, &str, RelationKind)],
) -> ValidatedExtraction {
    ValidatedExtraction {
        items: item_sources
            .iter()
            .map(|(item_local_id, source_node_id)| ExtractionItem {
                item_local_id: item_local_id.to_string(),
                content: format!("derived {item_local_id}"),
                subject: None,
                relation: None,
                object: None,
                evidence_object: None,
                evidence_span: None,
                kind: CandidateKind::Lesson,
                confidence: 0.9f64.to_bits(),
                entity_tags: Vec::new(),
                valid_from_ms: None,
                valid_until_ms: None,
                source_node_ids: vec![*source_node_id],
            })
            .collect(),
        relations: relations
            .iter()
            .map(|(from, to, relation_type)| ExtractionRelation {
                from_item_local_id: from.to_string(),
                to_item_local_id: to.to_string(),
                relation_type: *relation_type,
            })
            .collect(),
    }
}

#[test]
fn stage_extraction_rejects_non_capture_turn_key_snapshot() {
    let mut reg = stub_registry();
    capture_turns(&mut reg, "stage-capture-only", "scope", 10, 100, "captured");
    let profile = extraction_profile();
    extraction_scan(&mut reg, &profile);
    let impostor = remember_impostor(&mut reg, "stage turn key impostor", "stage-impostor-key");
    let source = ExtractionSource {
        node_id: impostor.id,
        turn_key: "stage-impostor-key".to_string(),
        session_id: impostor.session_id,
        scope: impostor.scope,
        content_hash: hex(&impostor.content),
        content: impostor.content,
        at_ms: impostor.created_at,
    };
    let response = stage_extraction(&mut reg, &profile, vec![source], nothing_extracted());
    let Response::Fault { kind, message } = response else {
        panic!("non-capture source snapshot must reject");
    };
    assert_eq!(kind, ErrKind::InvalidParams);
    assert_eq!(
        message,
        "extraction source node is not a captured episodic node"
    );
}

#[test]
fn stage_extraction_relation_insert_failure_rolls_back_every_success_table() {
    let mut reg = stub_registry();
    capture_turns(&mut reg, "atomic", "scope", 10, 100, "atomic");
    let profile = extraction_profile();
    let sources = extraction_scan(&mut reg, &profile);
    let before_graph = graph_snapshot(&mut reg);
    reg.default_space().policy.reject_relations = true;
    let extraction = canonical_extraction(
        &[("one", sources[0].node_id), ("two", sources[1].node_id)],
        &[("one", "two", RelationKind::Supports)],
    );
    let response = stage_extraction(&mut reg, &profile, sources, extraction);
    let Response::Fault { message, .. } = &response else {
        panic!("relation insert failure must reject the whole stage: {response:?}");
    };
    assert!(
        message.contains("relation insert rejected"),
        "the store's own message is passed on: {message}"
    );
    assert_eq!(policy_counts(&mut reg), (0, 0, 0, 0));
    assert_eq!(
        graph_snapshot(&mut reg),
        before_graph,
        "failed staging must leave the canonical graph snapshot unchanged"
    );
}

#[test]
fn zero_output_stage_is_replay_safe_and_its_sources_are_excluded_from_scan() {
    let mut reg = stub_registry();
    capture_turns(&mut reg, "zero-output", "scope", 10, 100, "zero");
    let profile = extraction_profile();
    let sources = extraction_scan(&mut reg, &profile);
    let before_graph = graph_snapshot(&mut reg);
    let first = staged_result(&mut reg, &profile, sources.clone(), nothing_extracted());
    let run_id = match first {
        StageExtractionResult::Staged { run_id } => run_id,
        other => panic!("first zero-output stage must create a run: {other:?}"),
    };
    assert_eq!(policy_counts(&mut reg), (1, 10, 0, 0));
    assert_eq!(
        staged_result(&mut reg, &profile, sources, nothing_extracted()),
        StageExtractionResult::AlreadyStaged { run_id },
        "exact replay must retain the original run identity"
    );
    assert_eq!(
        policy_counts(&mut reg),
        (1, 10, 0, 0),
        "exact replay must not create any additional policy rows"
    );
    assert!(
        extraction_scan(&mut reg, &profile).is_empty(),
        "zero-output success must ledger every source and exclude it from later scans"
    );
    assert_eq!(
        graph_snapshot(&mut reg),
        before_graph,
        "successful staging and replay must leave the canonical graph snapshot unchanged"
    );
}

#[test]
fn stage_extraction_rejects_partial_or_mixed_source_ledger_conflicts() {
    let mut reg = stub_registry();
    capture_turns(&mut reg, "mixed-ledger", "scope", 10, 100, "mixed");
    let profile = extraction_profile();
    let sources = extraction_scan(&mut reg, &profile);
    let before_graph = graph_snapshot(&mut reg);
    assert!(matches!(
        staged_result(&mut reg, &profile, vec![sources[0].clone()], nothing_extracted()),
        StageExtractionResult::Staged { .. }
    ));
    assert_eq!(policy_counts(&mut reg), (1, 1, 0, 0));
    let response = stage_extraction(&mut reg, &profile, sources, nothing_extracted());
    assert!(
        matches!(response, Response::Fault { .. }),
        "a source set containing both ledgered and new turns must be rejected: {response:?}"
    );
    assert_eq!(
        policy_counts(&mut reg),
        (1, 1, 0, 0),
        "conflicting source ledger must not create a partial second run"
    );
    assert_eq!(
        graph_snapshot(&mut reg),
        before_graph,
        "partial and conflicting stages must leave the canonical graph snapshot unchanged"
    );
}

#[test]
fn stage_extraction_rejects_any_source_snapshot_mismatch_without_mutating_graph_or_policy() {
    let mut reg = stub_registry();
    capture_turns(&mut reg, "snapshot", "scope", 10, 100, "snapshot");
    let profile = extraction_profile();
    let sources = extraction_scan(&mut reg, &profile);
    let before_graph = graph_snapshot(&mut reg);

    let mut cases = Vec::new();
    cases.push(("reused node id", vec![sources[0].clone(), sources[0].clone()]));
    let mut missing_node = sources.clone();
    missing_node[0].node_id = 999_999;
    cases.push(("mismatched node id", missing_node));
    let mut changed_hash = sources.clone();
    changed_hash[0].content_hash = "different-hash".to_string();
    cases.push(("changed content hash", changed_hash));
    let mut changed_session = sources.clone();
    changed_session[0].session_id = "other-session".to_string();
    cases.push(("changed session", changed_session));
    let mut changed_scope = sources.clone();
    changed_scope[0].scope = "other-scope".to_string();
    cases.push(("changed scope", changed_scope));
    let mut unknown_turn = sources;
    unknown_turn[0].turn_key = "unknown-turn-key".to_string();
    cases.push(("unknown turn key", unknown_turn));

    for (label, invalid_sources) in cases {
        let response = stage_extraction(&mut reg, &profile, invalid_sources, nothing_extracted());
        assert!(
            matches!(&response, Response::Fault { .. }),
            "{label} must reject staging: {response:?}"
        );
        if label == "reused node id" {
            assert!(
                is_invalid_params(&response),
                "caller InvalidInput must map to invalid_params: {response:?}"
            );
        }
        assert_eq!(
            policy_counts(&mut reg),
            (0, 0, 0, 0),
            "{label} must leave every success table empty"
        );
        assert_eq!(
            graph_snapshot(&mut reg),
            before_graph,
            "{label} must not alter the canonical graph snapshot"
        );
    }
}

#[test]
fn extraction_failures_record_error_contract_without_ledgering_sources() {
    let mut reg = stub_registry();
    capture_turns(&mut reg, "failures", "scope", 10, 100, "failure");
    let profile = extraction_profile();
    let initial_sources = extraction_scan(&mut reg, &profile);
    let before_graph = graph_snapshot(&mut reg);
    for (error_kind, llm_invoked) in [
        (ExtractionErrorKind::Spawn, false),
        (ExtractionErrorKind::Timeout, true),
        (ExtractionErrorKind::InvalidJson, true),
        (ExtractionErrorKind::SchemaReject, true),
    ] {
        let response = dispatch(
            &mut reg,
            Request::RecordExtractionFailure {
                namespace: None,
                profile: profile.clone(),
                turn_count: initial_sources.len() as u32,
                llm_invoked,
                error_kind,
                duration_ms: 29,
            },
        );
        assert!(
            matches!(response, Response::Done { .. }),
            "failure record must be accepted: {response:?}"
        );
    }
    let row = |error_kind: &str, llm_invoked: bool| Run {
        error_kind: Some(error_kind.to_string()),
        llm_invoked,
        turn_count: 10,
        sources: Vec::new(),
    };
    assert_eq!(
        reg.default_space().policy.runs,
        vec![
            row("spawn", false),
            row("timeout", true),
            row("invalid-json", true),
            row("schema-reject", true),
        ],
        "failure runs must preserve the wire error kind and the invocation flag"
    );
    assert_eq!(
        policy_counts(&mut reg),
        (4, 0, 0, 0),
        "failure recording creates only runs, never source ledger or staged output"
    );
    assert_eq!(
        extraction_scan(&mut reg, &profile),
        initial_sources,
        "failure rows must leave their sources selectable for a later attempt"
    );
    assert_eq!(
        graph_snapshot(&mut reg),
        before_graph,
        "failure recording must leave the canonical graph snapshot unchanged"
    );
}

fn daemon_runtime() -> Service {
    service(DispatchRuntime::daemon(fresh_registry()))
}

fn recall_in(namespace: Option<&str>) -> Request {
    Request::Recall {
        query: "legacy content".to_string(),
        limit: Some(3),
        namespace: namespace.map(str::to_string),
        reinforce: Some(false),
        gate_threshold: None,
        cosine_gate: None,
        knowledge_only: None,
        scope: None,
        tag: None,
        event_kind: None,
    }
}

#[test]
fn mismatch_schedules_exactly_one_background_job_per_namespace() {
    let mut reg = daemon_runtime();
    reg.misfits.insert("default".to_string());
    ok_text(dispatch(
        &mut reg,
        Request::Remember {
            content: "legacy content in compatible namespace".to_string(),
            namespace: Some("compatible".to_string()),
            tags: None,
            metadata: None,
            scope: None,
        },
    ));
    // Two requests come in before either has looked at the namespace.
    let first = reg.enter(stats(None));
    let second = reg.enter(stats(None));
    let first = reg.proceed(first);
    let compatible_recall = ok_text(dispatch(&mut reg, recall_in(Some("compatible"))));
    assert!(
        compatible_recall.contains("legacy content in compatible namespace"),
        "compatible namespace recall must complete while default migrates: {compatible_recall}"
    );
    let second = reg.proceed(second);
    assert!(matches!(first, Response::Fault { .. }));
    assert!(matches!(second, Response::Fault { .. }));
    assert_eq!(reg.jobs.len(), 1);
    reg.drain();
    assert_eq!(reg.embedded, 1);
    assert!(matches!(
        dispatch(&mut reg, stats(None)),
        Response::Done { .. }
    ));
}

#[test]
fn recall_while_migrating_returns_internal_and_hook_injects_nothing() {
    let mut reg = daemon_runtime();
    reg.misfits.insert("default".to_string());
    assert!(matches!(
        dispatch(&mut reg, stats(None)),
        Response::Fault { .. }
    ));
    let response = dispatch(&mut reg, recall_in(None));
    let Response::Fault { kind, .. } = response else {
        panic!("recall must be unavailable during migration")
    };
    assert_eq!(kind, ErrKind::Internal);
}

#[test]
fn backup_failure_never_starts_embedding_and_remains_fail_open() {
    let mut reg = daemon_runtime();
    reg.misfits.insert("default".to_string());
    reg.broken_backup = true;
    assert!(matches!(
        dispatch(&mut reg, stats(None)),
        Response::Fault { .. }
    ));
    reg.drain();
    assert_eq!(reg.embedded, 0);
    let key = NamespaceKey::new("default");
    assert!(matches!(
        reg.runtime.registry().namespace_migration_state(&key),
        Some(NamespaceMigrationState::Failed { .. })
    ));
    assert!(matches!(
        dispatch(&mut reg, stats(None)),
        Response::Fault { .. }
    ));
    assert_eq!(reg.jobs.len(), 1);
    assert!(reg.misfits.contains("default"));
}

#[test]
fn auto_migration_opt_out_does_not_mutate_database() {
    let mut reg = daemon_runtime();
    reg.misfits.insert("default".to_string());
    reg.runtime.registry_mut().set_auto_migrate_embeddings(false);
    let response = dispatch(&mut reg, stats(None));
    let Response::Fault { message, .. } = response else {
        panic!("opt-out mismatch must fail open")
    };
    assert!(message.contains("ANAMNESIS_AUTO_MIGRATE_EMBEDDINGS"));
    assert_eq!(reg.jobs.len(), 0);
    assert_eq!(reg.embedded, 0);
    assert!(reg.misfits.contains("default"));
}

#[test]
fn a_job_is_of_its_own_namespace_alone() {
    let mut reg = daemon_runtime();
    reg.misfits.insert("other".to_string());
    let in_other = Request::Stats {
        namespace: Some("Other".to_string()),
        recall: None,
    };
    assert!(matches!(
        dispatch(&mut reg, in_other.clone()),
        Response::Fault { .. }
    ));
    assert_eq!(reg.jobs.len(), 1);
    assert_eq!(reg.jobs[0].as_str(), "other");
    ok_text(dispatch(&mut reg, stats(None)));
    reg.drain();
    ok_text(dispatch(&mut reg, in_other));
}

#[test]
fn a_job_that_cannot_start_has_failed() {
    let mut reg = daemon_runtime();
    reg.misfits.insert("default".to_string());
    let phase = reg.enter(stats(None));
    let Phase::Inspect { key, req } = phase else {
        panic!("an unknown namespace is looked at: {phase:?}");
    };
    let phase = inspected(
        &mut reg.runtime,
        key,
        req,
        Ok(NamespaceCompatibility::Mismatch),
    );
    let Phase::Start { key } = phase else {
        panic!("a job is started: {phase:?}");
    };
    let response = spawned(&mut reg.runtime, &key, Err("no thread".to_string()));
    assert_eq!(response, Response::internal("no thread".to_string()));
    assert_eq!(
        dispatch(&mut reg, stats(None)),
        Response::internal("no thread".to_string())
    );
}

/// Ten captured turns, of which three gave candidates and one a relation.
fn audit_fixture(reg: &mut Service) -> Vec<ExtractionSource> {
    capture_turns(reg, "audit", "scope", 10, 100, "audit");
    let profile = extraction_profile();
    let sources = extraction_scan(reg, &profile);
    let extraction = canonical_extraction(
        &[
            ("one", sources[0].node_id),
            ("two", sources[1].node_id),
            ("three", sources[2].node_id),
        ],
        &[("one", "two", RelationKind::Supports)],
    );
    staged_result(reg, &profile, sources.clone(), extraction);
    sources
}

fn extraction_audit_list(reg: &mut Service) -> ExtractionAuditResult {
    ok_text(dispatch(
        reg,
        Request::ExtractionAuditList {
            namespace: None,
            limit: Some(100),
        },
    ));
    reg.audit("default")
}

fn audit_candidate<'a>(
    audit: &'a ExtractionAuditResult,
    item_local_id: &str,
) -> &'a ExtractionAuditCandidateRow {
    audit
        .candidates
        .iter()
        .find(|c| c.item_local_id == item_local_id)
        .unwrap_or_else(|| panic!("candidate {item_local_id} must be present"))
}

fn audit_source<'a>(
    candidate: &'a ExtractionAuditCandidateRow,
    turn_key: &str,
) -> &'a ExtractionAuditSource {
    candidate
        .sources
        .iter()
        .find(|s| s.turn_key == turn_key)
        .unwrap_or_else(|| panic!("source {turn_key} must be present"))
}

fn assert_audit_rejection(response: &Response) {
    assert_eq!(
        *response,
        Response::invalid_params(
            "extraction audit candidate sources are unavailable or mismatched".to_string()
        )
    );
}

fn verdict(id: u64, support: AuditSupport, reviewer: &str) -> Request {
    Request::UpdateExtractionCandidateAudit {
        namespace: None,
        candidate_id: id,
        support,
        contamination: None,
        reviewer: reviewer.to_string(),
    }
}

#[test]
fn extraction_audit_resolves_a_unique_live_turn_key_after_node_id_changes() {
    let mut reg = stub_registry();
    let sources = audit_fixture(&mut reg);
    let original = &sources[0];
    let replacement_id = {
        let space = reg.default_space();
        let at = space.position(original.node_id).unwrap();
        let node = space.nodes.remove(at);
        space.add(node)
    };
    let audit = extraction_audit_list(&mut reg);
    let source = audit_source(audit_candidate(&audit, "one"), &original.turn_key);
    assert_eq!(
        source.availability,
        ExtractionAuditSourceAvailability::Available
    );
    assert_eq!(source.node_id, replacement_id);
    assert_eq!(source.content.as_ref(), Some(&original.content));
}

#[test]
fn extraction_audit_uses_a_valid_node_id_hint_when_turn_key_is_ambiguous() {
    let mut reg = stub_registry();
    let sources = audit_fixture(&mut reg);
    let original = &sources[0];
    {
        let space = reg.default_space();
        let duplicate = space.nodes[space.position(original.node_id).unwrap()].clone();
        space.add(duplicate);
    }
    let audit = extraction_audit_list(&mut reg);
    let source = audit_source(audit_candidate(&audit, "one"), &original.turn_key);
    assert_eq!(
        source.availability,
        ExtractionAuditSourceAvailability::Available
    );
    assert_eq!(source.node_id, original.node_id);
    assert_eq!(source.content.as_ref(), Some(&original.content));
}

#[test]
fn extraction_audit_demo_reads_live_sources_and_never_mutates_the_graph() {
    let mut reg = stub_registry();
    let sources = audit_fixture(&mut reg);
    let listed = extraction_audit_list(&mut reg);
    let stored = reg.default_space().policy.candidates.clone();
    assert!(
        stored
            .iter()
            .all(|c| c.sources.is_empty() && !sources.iter().any(|s| c.content == s.content)),
        "policy tables must not persist raw source content as candidate provenance"
    );
    assert_eq!(listed.candidates.len(), 3);
    assert_eq!(listed.relations.len(), 1);
    for name in ["one", "two", "three"] {
        let candidate = audit_candidate(&listed, name);
        let turn_key = &candidate.source_turn_keys[0];
        let source = audit_source(candidate, turn_key);
        let authoritative = sources.iter().find(|s| s.turn_key == *turn_key).unwrap();
        assert_eq!(candidate.content, format!("derived {name}"));
        assert_eq!(
            source.availability,
            ExtractionAuditSourceAvailability::Available
        );
        assert_eq!(source.content.as_ref(), Some(&authoritative.content));
    }
    let one = audit_candidate(&listed, "one").clone();
    let two = audit_candidate(&listed, "two").clone();
    let three = audit_candidate(&listed, "three").clone();
    assert_eq!(one.kind, CandidateKind::Lesson);
    assert_eq!(f64::from_bits(one.confidence), 0.9);
    let relation = listed.relations[0].clone();
    assert_eq!(relation.run_id, one.run_id);
    assert_eq!(relation.profile_id, one.profile_id);
    assert_eq!(relation.from_item_local_id, "one");
    assert_eq!(relation.to_item_local_id, "two");
    assert_eq!(relation.relation_type, RelationKind::Supports);

    let before_list = graph_snapshot(&mut reg);
    assert_eq!(
        extraction_audit_list(&mut reg),
        listed,
        "list must be a pure graph read"
    );
    assert_eq!(graph_snapshot(&mut reg), before_list, "list must not mutate graph");

    ok_text(dispatch(
        &mut reg,
        Request::UpdateExtractionCandidateAudit {
            namespace: None,
            candidate_id: one.id,
            support: AuditSupport::Partial,
            contamination: Some(ContaminationCategory::UnsupportedClaim),
            reviewer: "  auditor  ".to_string(),
        },
    ));
    ok_text(dispatch(
        &mut reg,
        Request::UpdateExtractionRelationAudit {
            namespace: None,
            relation_id: relation.id,
            verdict: RelationVerdict::WrongDirection,
            reviewer: "auditor".to_string(),
        },
    ));
    let reviewed = extraction_audit_list(&mut reg);
    let candidate = audit_candidate(&reviewed, "one");
    assert_eq!(candidate.support, Some(AuditSupport::Partial));
    assert_eq!(
        candidate.contamination,
        Some(ContaminationCategory::UnsupportedClaim)
    );
    assert_eq!(candidate.reviewed_by.as_deref(), Some("auditor"));
    assert!(candidate.reviewed_at.is_some());
    let relation = &reviewed.relations[0];
    assert_eq!(relation.verdict, Some(RelationVerdict::WrongDirection));
    assert_eq!(relation.reviewed_by.as_deref(), Some("auditor"));
    assert!(relation.reviewed_at.is_some());
    assert_eq!(
        graph_snapshot(&mut reg),
        before_list,
        "valid candidate and relation audit writes are policy-only"
    );

    ok_text(dispatch(&mut reg, forget(one.sources[0].node_id, None, true)));
    let before_rejected_update = graph_snapshot(&mut reg);
    let unavailable = extraction_audit_list(&mut reg);
    let source = audit_source(audit_candidate(&unavailable, "one"), &one.source_turn_keys[0]);
    assert_eq!(
        source.availability,
        ExtractionAuditSourceAvailability::SourceUnavailable
    );
    assert_eq!(source.content, None);
    let rejected = dispatch(&mut reg, verdict(one.id, AuditSupport::Unsupported, "auditor"));
    assert_audit_rejection(&rejected);
    assert_eq!(
        graph_snapshot(&mut reg),
        before_rejected_update,
        "rejected unavailable-source audit cannot mutate graph"
    );

    ok_text(dispatch(
        &mut reg,
        Request::Update {
            id: two.sources[0].node_id,
            new_content: "live content no longer matches staged source".to_string(),
            namespace: None,
        },
    ));
    let before_mismatch_rejection = graph_snapshot(&mut reg);
    let mismatched = extraction_audit_list(&mut reg);
    let source = audit_source(audit_candidate(&mismatched, "two"), &two.source_turn_keys[0]);
    assert_eq!(
        source.availability,
        ExtractionAuditSourceAvailability::SourceMismatch
    );
    assert_eq!(source.content, None);
    let rejected = dispatch(&mut reg, verdict(two.id, AuditSupport::Unsupported, "auditor"));
    assert_audit_rejection(&rejected);
    assert_eq!(
        graph_snapshot(&mut reg),
        before_mismatch_rejection,
        "rejected mismatched-source audit cannot mutate graph"
    );

    let at = reg
        .default_space()
        .policy
        .candidates
        .iter()
        .position(|c| c.id == three.id)
        .unwrap();
    reg.default_space().policy.candidates[at].source_content_hashes.clear();
    let before_malformed_rejection = graph_snapshot(&mut reg);
    let malformed = extraction_audit_list(&mut reg);
    assert!(
        audit_candidate(&malformed, "three").sources.is_empty(),
        "empty provenance vectors must not be treated as available"
    );
    let rejected = dispatch(&mut reg, verdict(three.id, AuditSupport::Unsupported, "auditor"));
    assert_audit_rejection(&rejected);
    assert_eq!(
        graph_snapshot(&mut reg),
        before_malformed_rejection,
        "malformed provenance rejection cannot mutate graph"
    );
}

#[test]
fn a_quoted_span_is_shown_from_the_live_source() {
    let mut reg = stub_registry();
    capture_turns(&mut reg, "audit", "scope", 10, 100, "caf\u{e9}");
    let profile = extraction_profile();
    let sources = extraction_scan(&mut reg, &profile);
    let mut extraction = canonical_extraction(&[("one", sources[0].node_id)], &[]);
    extraction.items[0].evidence_span = Some("caf\u{e9} turn".to_string());
    staged_result(&mut reg, &profile, sources, extraction);
    let audit = extraction_audit_list(&mut reg);
    assert_eq!(
        audit_candidate(&audit, "one").evidence_span.as_deref(),
        Some("caf\u{e9} turn")
    );
    reg.default_space().policy.candidates[0].evidence_span_sha256 = Some(hex("other"));
    let audit = extraction_audit_list(&mut reg);
    assert_eq!(audit_candidate(&audit, "one").evidence_span, None);
    let id = audit.candidates[0].id;
    let rejected = dispatch(&mut reg, verdict(id, AuditSupport::Supported, "auditor"));
    assert_audit_rejection(&rejected);
}

#[test]
fn sources_follow_the_candidate_and_the_graph() {
    let mut reg = stub_registry();
    let sources = audit_fixture(&mut reg);
    let graph = reg.default_space().graph();
    let row = reg.default_space().policy.candidates[0].clone();
    let found = candidate_audit_sources(&graph, &row);
    assert_eq!(found.len(), 1);
    assert_eq!(found[0].content.as_ref(), Some(&sources[0].content));
}

#[test]
fn promotion_needs_a_verdict_and_happens_once() {
    let mut reg = stub_registry();
    audit_fixture(&mut reg);
    let unreviewed = reg.promote_candidate(1);
    assert_eq!(
        unreviewed,
        Response::invalid_params(
            "candidate promotion requires a reviewed supported verdict with no contamination"
                .to_string()
        )
    );
    assert!(is_invalid_params(&reg.promote_candidate(99)));
    for id in [1, 2] {
        ok_text(dispatch(&mut reg, verdict(id, AuditSupport::Supported, "kim")));
    }
    let first = json(&ok_text(reg.promote_candidate(1)));
    assert_eq!(first["already_materialized"], false);
    let again = json(&ok_text(reg.promote_candidate(1)));
    assert_eq!(again["already_materialized"], true);
    assert_eq!(again["atomic_fact_id"], first["atomic_fact_id"]);
    assert_eq!(reg.default_space().facts.len(), 1);

    let relation = reg.promote_relation(1);
    assert_eq!(
        relation,
        Response::invalid_params(
            "relation promotion requires a reviewed correct verdict".to_string()
        )
    );
    ok_text(dispatch(
        &mut reg,
        Request::UpdateExtractionRelationAudit {
            namespace: None,
            relation_id: 1,
            verdict: RelationVerdict::Correct,
            reviewer: "kim".to_string(),
        },
    ));
    assert_eq!(
        reg.promote_relation(1),
        Response::invalid_params("relation target candidate is not promoted".to_string())
    );
    let target = json(&ok_text(reg.promote_candidate(2)));
    let first = json(&ok_text(reg.promote_relation(1)));
    assert_eq!(first["already_materialized"], false);
    let again = json(&ok_text(reg.promote_relation(1)));
    assert_eq!(again["already_materialized"], true);
    let fact = &reg.default_space().facts[0];
    assert!(
        fact.metadata.contains(&(
            "anamnesis:atomic-relation:1".to_string(),
            format!("supports:{}", target["atomic_fact_id"])
        )),
        "{fact:?}"
    );
    reg.default_space()
        .facts
        .iter_mut()
        .for_each(|f| f.metadata.iter_mut().for_each(|(k, v)| {
            if k == "anamnesis:atomic-relation:1" {
                *v = "supports:0".to_string();
            }
        }));
    assert!(matches!(
        reg.promote_relation(1),
        Response::Fault {
            kind: ErrKind::Internal,
            ..
        }
    ));
}

fn recall_cli(embedded: bool) -> Cli {
    Cli {
        command: Some(Commands::Recall {
            query: "caller provenance".to_string(),
            limit: 20,
            namespace: None,
            embedded,
        }),
    }
}

fn stats_cli(embedded: bool) -> Cli {
    Cli {
        command: Some(Commands::Stats {
            namespace: None,
            recall: true,
            embedded,
        }),
    }
}

#[test]
fn embedded_cli_recall_uses_local_dispatch_with_unknown_provenance_and_daemon_bytes() {
    let mut daemon = stub_registry();
    let mut embedded = stub_registry();
    for reg in [&mut daemon, &mut embedded] {
        remember_id(reg, "caller provenance belongs to the request boundary");
    }
    let request = oneshot_request(&recall_cli(false), "nobody").expect("a request");
    let daemon_text = ok_text(dispatch(&mut daemon, request));
    let request = run_embedded_oneshot(&recall_cli(true), "nobody").expect("a request");
    let embedded_text = ok_text(dispatch(&mut embedded, request));
    let daemon_stdout = format_oneshot_stdout(&recall_cli(false), &daemon_text, None);
    let embedded_stdout = format_oneshot_stdout(&recall_cli(true), &embedded_text, None);
    assert_eq!(
        embedded_stdout, daemon_stdout,
        "embedded and daemon recall must render byte-identical stdout"
    );
    assert!(
        daemon_stdout.ends_with('\n') && !daemon_stdout.ends_with("\n\n"),
        "recall stdout must end with exactly one trailing newline: {daemon_stdout:?}"
    );
    let events = &embedded.default_space().policy.events;
    assert_eq!(events.len(), 1, "embedded recall must persist one event");
    assert_eq!(
        events[0].event_kind,
        RecallEventKind::Unknown,
        "an embedded raw CLI recall has no richer caller provenance"
    );
}

#[test]
fn embedded_and_daemon_stats_recall_render_byte_identically() {
    let mut daemon = stub_registry();
    let mut embedded = stub_registry();
    let request = oneshot_request(&stats_cli(false), "nobody").expect("a request");
    let daemon_text = ok_text(dispatch(&mut daemon, request));
    let request = run_embedded_oneshot(&stats_cli(true), "nobody").expect("a request");
    let embedded_text = ok_text(dispatch(&mut embedded, request));
    assert_eq!(
        format_oneshot_stdout(&stats_cli(true), &embedded_text, None),
        format_oneshot_stdout(&stats_cli(false), &daemon_text, None),
        "embedded and daemon stats --recall must have byte-identical stdout framing"
    );
}

#[test]
fn names_of_one_namespace_share_its_notes() {
    let mut reg = stub_registry();
    let store = |ns: &str| Request::Remember {
        content: "shared".to_string(),
        namespace: Some(ns.to_string()),
        tags: None,
        metadata: None,
        scope: None,
    };
    ok_text(dispatch(&mut reg, store("Team Memory")));
    ok_text(dispatch(&mut reg, store("team-memory")));
    assert_eq!(reg.space("team-memory").nodes.len(), 4);
    assert!(reg.default_space().nodes.is_empty());
}

#[test]
fn a_refused_request_is_counted_once() {
    let mut reg = stub_registry();
    let before = reg.ops();
    dispatch(&mut reg, get(7));
    assert_eq!(reg.ops().dispatch_errors, before.dispatch_errors + 1);
    dispatch(
        &mut reg,
        Request::Ingest {
            session: "s".to_string(),
            turns: Vec::new(),
            namespace: None,
            capture: None,
            scope: Some("a//b".to_string()),
        },
    );
    assert_eq!(reg.ops().dispatch_errors, before.dispatch_errors + 2);
    assert_eq!(reg.ops().ingest_errors, before.ingest_errors + 1);
}

#[test]
fn what_was_stored_before_a_failure_is_kept() {
    let mut reg = stub_registry();
    let key = NamespaceKey::new("default");
    let response = finish_ingest(
        reg.runtime.registry_mut(),
        &key,
        IngestOutcome {
            committed: vec![(1, "key-1".to_string())],
            summary: Err(EngineError {
                kind: EngineErrorKind::Storage,
                message: "disk full".to_string(),
            }),
        },
    );
    assert_eq!(response, Response::internal("disk full".to_string()));
    assert!(reg.runtime.registry().has_seen("key-1"));
    assert_eq!(reg.runtime.registry().queue_ids(&key), vec![1]);
    assert_eq!(reg.ops().ingest_errors, 1);
}

#[test]
fn clusters_are_asked_for_and_numbered_by_node() {
    let mut reg = stub_registry();
    let ids: Vec<u64> = (0..9)
        .map(|i| remember_id(&mut reg, &format!("cluster node {i}")))
        .collect();
    for i in 1..9 {
        relate(&mut reg, ids[0], ids[i], "related");
    }
    let outcome = reg
        .default_space()
        .subgraph(&GraphStart::Seeds { ids: vec![ids[0]] }, 1, 100)
        .unwrap();
    let question = leiden_input(&outcome.subgraph).expect("nine nodes are worth asking");
    assert_eq!(question.ids, ids);
    assert_eq!(question.edges.len(), 8);
    let answer: Vec<u32> = (0..9).map(|i| i % 2).collect();
    let clusters = cluster_ids(&outcome.subgraph, &Some(question), &Some(answer));
    for (i, id) in ids.iter().enumerate() {
        assert!(clusters.contains(&(*id, i as u32 % 2)), "{clusters:?}");
    }
}

#[test]
fn an_extraction_is_shown_to_its_schema_whole() {
    let mut extraction =
        canonical_extraction(&[("one", 7)], &[("one", "one", RelationKind::Supports)]);
    extraction.items[0].subject = Some("a \"quoted\" subject".to_string());
    extraction.items[0].valid_from_ms = Some(5);
    extraction.items[0].entity_tags = vec!["ops".to_string()];
    assert_eq!(
        extraction_payload(&extraction, &vec!["0.9".to_string()]),
        [
            "{\"items\":[{\"confidence\":0.9,\"content\":\"derived one\",",
            "\"entity_tags\":[\"ops\"],\"evidence_object\":null,\"evidence_span\":null,",
            "\"item_local_id\":\"one\",\"kind\":\"lesson\",\"object\":null,",
            "\"relation\":null,\"source_node_ids\":[7],",
            "\"subject\":\"a \\\"quoted\\\" subject\",\"valid_from_ms\":5,",
            "\"valid_until_ms\":null}],\"relations\":[{\"from_item_local_id\":\"one\",",
            "\"relation_type\":\"supports\",\"to_item_local_id\":\"one\"}]}",
        ]
        .concat()
    );
}

#[test]
fn a_rejected_extraction_is_not_staged() {
    let mut reg = stub_registry();
    capture_turns(&mut reg, "rejected", "scope", 10, 100, "rejected");
    let profile = extraction_profile();
    let sources = extraction_scan(&mut reg, &profile);
    let mut extraction = canonical_extraction(&[("one", sources[0].node_id)], &[]);
    extraction.items[0].source_node_ids.clear();
    let response = stage_extraction(&mut reg, &profile, sources, extraction);
    assert_eq!(
        response,
        Response::invalid_params("an item has no source".to_string())
    );
    assert_eq!(policy_counts(&mut reg), (0, 0, 0, 0));
}

fn storage_failure() -> EngineError {
    EngineError {
        kind: EngineErrorKind::Storage,
        message: "disk is full".to_string(),
    }
}

/// The key and the job of a link with a label that is known.
fn link_job(registry: &mut MemoryRegistry) -> (NamespaceKey, Job) {
    let step = dispatch_registry(
        registry,
        Request::Relate {
            from_id: 1,
            to_id: 2,
            relation: "related".to_string(),
            namespace: None,
        },
    );
    match step {
        Step::Open { key, job, .. } => (key, job),
        _ => panic!("a link opens its namespace"),
    }
}

#[test]
fn a_namespace_that_cannot_be_opened_for_a_link_is_an_internal_failure() {
    let mut registry = fresh_registry();
    let (key, job) = link_job(&mut registry);
    assert_eq!(registry.ops().dispatch_errors, 0);
    let response = match opened(&mut registry, key, job, Err(storage_failure())) {
        Step::Reply { response } => response,
        _ => panic!("a failed open is answered"),
    };
    assert_eq!(response, Response::internal("disk is full".to_string()));
    assert_eq!(registry.ops().dispatch_errors, 1);
    assert_eq!(registry.ops().relates, 1, "a link is counted as soon as it is asked for");
}

#[test]
fn a_link_that_the_store_cannot_write_is_an_internal_failure() {
    let mut registry = fresh_registry();
    let (key, job) = link_job(&mut registry);
    let first = FirstOpen {
        graph: Graph { nodes: Vec::new() },
        now_ms: 0,
        ttl: DEFAULT_EXTRACT_REDELIVERY_MS,
    };
    let job = match opened(&mut registry, key, job, Ok(Some(first))) {
        Step::Work {
            work: Work::Run {
                job: Job::Relate { job },
            },
            ..
        } => job,
        _ => panic!("an open namespace is worked on"),
    };
    assert_eq!(
        finish_relate(&mut registry, &job, Err(storage_failure())),
        Response::internal("disk is full".to_string())
    );
    assert_eq!(registry.ops().dispatch_errors, 1);
    assert_eq!(
        finish_relate(&mut registry, &job, Err(not_found(2))),
        Response::invalid_params("node not found: 2".to_string())
    );
    assert_eq!(registry.ops().dispatch_errors, 2);
    let invalid = EngineError::invalid_input("self link".to_string());
    assert_eq!(
        finish_relate(&mut registry, &job, Err(invalid)),
        Response::invalid_params("self link".to_string())
    );
    assert_eq!(registry.ops().dispatch_errors, 3);
}

#[test]
fn a_failed_open_is_never_put_down_to_the_caller() {
    let requests = vec![
        remember("a fact"),
        recall("a fact", 5, false),
        stats(Some(true)),
        get(1),
        forget(1, None, true),
        list_all(10),
        Request::ExtractionScan {
            namespace: None,
            profile: extraction_profile(),
            min_turns: 10,
            max_turns: 20,
        },
        Request::StageExtraction {
            namespace: None,
            profile: extraction_profile(),
            llm_duration_ms: 17,
            sources: Vec::new(),
            extraction: nothing_extracted(),
        },
        Request::RecordExtractionFailure {
            namespace: None,
            profile: extraction_profile(),
            turn_count: 1,
            llm_invoked: true,
            error_kind: ExtractionErrorKind::Timeout,
            duration_ms: 29,
        },
        Request::ExtractionAuditList {
            namespace: None,
            limit: None,
        },
        verdict(1, AuditSupport::Supported, "kim"),
        Request::UpdateExtractionRelationAudit {
            namespace: None,
            relation_id: 1,
            verdict: RelationVerdict::Correct,
            reviewer: "kim".to_string(),
        },
    ];
    for req in requests {
        let mut registry = fresh_registry();
        let (key, job) = match dispatch_registry(&mut registry, req) {
            Step::Open { key, job, .. } => (key, job),
            _ => panic!("the request opens its namespace"),
        };
        let response = match opened(&mut registry, key, job, Err(storage_failure())) {
            Step::Reply { response } => response,
            _ => panic!("a failed open is answered"),
        };
        assert_eq!(response, Response::internal("disk is full".to_string()));
        assert_eq!(registry.ops().dispatch_errors, 1);
    }
}

#[test]
fn the_heading_of_past_recalls_is_shown_where_they_are_asked_for() {
    let mut reg = stub_registry();
    ok_text(remember_with(
        &mut reg,
        "recall telemetry is written to the policy store",
        None,
        None,
        Some("proj/telemetry".to_string()),
    ));
    let open = ok_text(dispatch(&mut reg, stats(None)));
    let plain = ok_text(dispatch(&mut reg, stats(Some(false))));
    let full = ok_text(dispatch(&mut reg, stats(Some(true))));
    assert_eq!(open, plain);
    assert!(!plain.contains("recall telemetry"), "got: {plain}");
    let past = full.strip_prefix(&format!("{plain}\n")).unwrap();
    assert!(past.starts_with("recall telemetry"), "got: {past}");
}

#[test]
fn every_failed_request_of_extraction_shows_as_one_dispatch_error() {
    let mut reg = stub_registry();
    let sources = audit_fixture(&mut reg);
    let profile = extraction_profile();
    assert_eq!(reg.ops().dispatch_errors, 0);
    let reused = vec![sources[0].clone(), sources[0].clone()];
    assert!(is_invalid_params(&stage_extraction(
        &mut reg,
        &profile,
        reused,
        nothing_extracted()
    )));
    assert_eq!(reg.ops().dispatch_errors, 1);
    assert_eq!(
        dispatch(&mut reg, verdict(99, AuditSupport::Supported, "kim")),
        Response::invalid_params("extraction audit candidate was not found".to_string())
    );
    assert_eq!(reg.ops().dispatch_errors, 2);
    reg.default_space()
        .policy
        .statuses
        .insert(profile.profile_id.clone(), ExtractionProfileStatus::Revoked);
    let scan = dispatch(
        &mut reg,
        Request::ExtractionScan {
            namespace: None,
            profile,
            min_turns: 10,
            max_turns: 20,
        },
    );
    assert!(matches!(scan, Response::Fault { .. }), "got: {scan:?}");
    assert_eq!(reg.ops().dispatch_errors, 3);
    assert!(is_invalid_params(&reg.promote_candidate(99)));
    assert!(is_invalid_params(&reg.promote_relation(99)));
    assert_eq!(reg.ops().dispatch_errors, 5);
    let account = ok_text(dispatch(&mut reg, stats(None)));
    assert!(account.contains("dispatch errors: 5 (0 ingest)"), "got: {account}");
}

#[test]
fn failures_of_the_store_under_extraction_are_counted() {
    let mut registry = fresh_registry();
    let internal = Response::internal("disk is full".to_string());
    let unusable = || EngineError::invalid_input("no such profile".to_string());
    let invalid = Response::invalid_params("no such profile".to_string());
    let failed = || AuditFault::Failed {
        error: storage_failure(),
    };
    assert_eq!(extraction_response(&mut registry, Err(storage_failure())), internal);
    assert_eq!(extraction_response(&mut registry, Err(unusable())), invalid);
    assert_eq!(dispatch_record_failure(&mut registry, Err(storage_failure())), internal);
    assert_eq!(dispatch_record_failure(&mut registry, Err(unusable())), invalid);
    assert_eq!(dispatch_audit_list(&mut registry, Err(storage_failure())), internal);
    assert_eq!(dispatch_update_relation_audit(&mut registry, Err(storage_failure())), internal);
    assert_eq!(finish_candidate_audit(&mut registry, Err(failed())), internal);
    assert_eq!(finish_promote_candidate(&mut registry, Err(failed()), false), internal);
    assert_eq!(finish_promote_relation(&mut registry, 1, Err(failed()), false), internal);
    assert_eq!(registry.ops().dispatch_errors, 9);
    assert_eq!(registry.ops().ingest_errors, 0);
    assert_eq!(
        extraction_response(&mut registry, Ok("[]".to_string())),
        Response::ok("[]".to_string())
    );
    assert_eq!(
        finish_candidate_audit(&mut registry, Ok(())),
        Response::ok("updated extraction candidate audit".to_string())
    );
    assert_eq!(registry.ops().dispatch_errors, 9, "a success is no failure");
}
