//! Capturing turns and handing them out, over a store kept in memory.

use anamnesis::capture::{
    turn_key, DEFAULT_EXTRACT_REDELIVERY_MS, META_CAPTURE, META_EXTRACTED, META_TURN_KEY,
};
use anamnesis::capture::{delivery_mark, extract_redelivery_ms, is_requeued, parse_extracted_state, ExtractedState};
use anamnesis::dispatch::finish::{finish_ingest, IngestOutcome, IngestSummary};
use anamnesis::memory::MemoryRegistry;
use anamnesis::notes::filter_capture_decisions;
use anamnesis::proto::TurnInput;
use anamnesis::store::{Graph, Node};
use sha2::{Digest, Sha256};

/// A registry beside the graph of its default namespace.
struct Notebook {
    registry: MemoryRegistry,
    graph: Graph,
}

fn fresh() -> MemoryRegistry {
    MemoryRegistry::new("default".to_string(), true)
}

fn notebook() -> Notebook {
    Notebook {
        registry: fresh(),
        graph: Graph { nodes: Vec::new() },
    }
}

fn turn(speaker: &str, text: &str, at_ms: u64) -> TurnInput {
    TurnInput {
        speaker: speaker.to_string(),
        text: text.to_string(),
        at_ms: Some(at_ms),
    }
}

impl Notebook {
    /// Stores the turns; how many new episodic nodes there are.
    fn ingest(&mut self, session: &str, turns: &Vec<TurnInput>, capture: bool) -> u64 {
        let key = self.registry.canonical_ns_key(None);
        let decisions = filter_capture_decisions(&self.registry, session, turns, capture);
        let mut committed = Vec::new();
        let mut count = 0;
        for d in decisions {
            let id = self.graph.nodes.len() as u64 + 1;
            let mut metadata = Vec::new();
            if let Some(k) = &d.key {
                metadata.push((META_CAPTURE.to_string(), "true".to_string()));
                metadata.push((META_TURN_KEY.to_string(), k.clone()));
                metadata.push((META_EXTRACTED.to_string(), "false".to_string()));
            }
            self.graph.nodes.push(Node {
                id,
                content: format!("{}: {}", d.speaker, d.text),
                session_id: session.to_string(),
                scope: "universal".to_string(),
                created_at: d.at_ms.unwrap_or(0),
                episodic: true,
                metadata,
            });
            if let Some(k) = d.key {
                committed.push((id, k));
            }
            count += 1;
        }
        let summary = IngestSummary {
            episodic: count,
            semantic: 0,
        };
        finish_ingest(
            &mut self.registry,
            &key,
            IngestOutcome {
                committed,
                summary: Ok(summary),
            },
        );
        count
    }

    /// Pulls; the first `fails_at` marks are written.
    fn pull_until(
        &mut self,
        limit: Option<usize>,
        ns: Option<&str>,
        now: u64,
        fails_at: usize,
    ) -> String {
        let plan = self.registry.pull_pending(limit, ns, now, &self.graph);
        let mut written = 0;
        for item in &plan {
            if written == fails_at {
                break;
            }
            let node = self.graph.nodes.iter_mut().find(|n| n.id == item.id).unwrap();
            let pair = node.metadata.iter_mut().find(|(k, _)| k == META_EXTRACTED).unwrap();
            pair.1 = item.mark.clone();
            written += 1;
        }
        self.registry.confirm_pull(&plan, written)
    }

    fn pull(&mut self, limit: Option<usize>, ns: Option<&str>, now: u64) -> String {
        self.pull_until(limit, ns, now, usize::MAX)
    }

    fn load(&mut self, now: u64) {
        self.registry
            .load_extraction_state(None, now, DEFAULT_EXTRACT_REDELIVERY_MS, &self.graph);
    }

    fn pending(&self) -> usize {
        self.registry.unextracted_len()
    }

    /// A new process on the same graph.
    fn restart(self) -> Notebook {
        Notebook {
            registry: fresh(),
            graph: self.graph,
        }
    }
}

#[test]
fn turn_key_is_deterministic_and_field_sensitive() {
    let a = turn_key("s1", "user", "hello", 1000);
    let b = turn_key("s1", "user", "hello", 1000);
    assert_eq!(a, b, "same inputs, same key");
    assert_eq!(a.len(), 64, "sha256 hex is 64 chars");
    assert_ne!(a, turn_key("s1", "user", "hello", 1001), "at_ms matters");
    assert_ne!(a, turn_key("s1", "assistant", "hello", 1000), "speaker matters");
    assert_ne!(a, turn_key("s2", "user", "hello", 1000), "session matters");
    assert_ne!(
        a,
        turn_key("s1", "user", "HELLO-DIFFERENT", 1000),
        "text matters"
    );
}

#[test]
fn turn_key_is_the_digest_of_its_fields() {
    let mut hasher = Sha256::new();
    for part in ["s1", "user", "hello"] {
        hasher.update(part.as_bytes());
        hasher.update([0u8]);
    }
    hasher.update(1000u64.to_le_bytes());
    let hex: String = hasher.finalize().iter().map(|b| format!("{b:02x}")).collect();
    assert_eq!(turn_key("s1", "user", "hello", 1000), hex);
}

#[test]
fn pull_pending_returns_once_and_marks_extracted() {
    let mut nb = notebook();
    let turns = vec![turn("user", "why x", 10), turn("assistant", "because y", 20)];
    nb.ingest("s", &turns, true);
    assert_eq!(nb.pending(), 2);
    let json = nb.pull(None, None, 1_000);
    assert!(json.contains("\"node_id\""), "got: {json}");
    assert!(json.contains("because y"), "content included: {json}");
    assert_eq!(nb.pending(), 0, "drained");
    let json2 = nb.pull(None, None, 1_001);
    assert_eq!(json2.trim(), "[]");
}

#[test]
fn abandoned_pull_redelivers_once_then_done() {
    let mut nb = notebook();
    nb.ingest("s", &vec![turn("user", "abandoned insight", 10)], true);
    let t0 = 1_000u64;
    let ttl = DEFAULT_EXTRACT_REDELIVERY_MS;

    let j1 = nb.pull(None, None, t0);
    assert!(j1.contains("abandoned insight"), "delivered: {j1}");
    assert_eq!(nb.pending(), 0);

    nb.load(t0 + 1);
    assert_eq!(nb.pending(), 0, "fresh pending is not redelivered");

    nb.load(t0 + ttl + 1);
    assert_eq!(nb.pending(), 1, "abandoned pull re-queued");

    let j2 = nb.pull(None, None, t0 + ttl + 2);
    assert!(j2.contains("abandoned insight"), "redelivered: {j2}");

    nb.load(t0 + ttl * 10);
    assert_eq!(nb.pending(), 0, "attempt cap reached: done");
}

#[test]
fn pull_mark_is_durable_across_restart() {
    let mut nb = notebook();
    nb.ingest("s", &vec![turn("user", "durable pending", 7)], true);
    nb.pull(None, None, 5_000);
    let mut again = nb.restart();
    again.load(5_001);
    assert_eq!(again.pending(), 0, "pending mark survived restart");
}

#[test]
fn pull_pending_respects_limit() {
    let mut nb = notebook();
    let turns: Vec<TurnInput> = (0..3).map(|i| turn("user", &format!("turn {i}"), 100 + i)).collect();
    nb.ingest("s", &turns, true);
    assert_eq!(nb.pending(), 3);
    let j = nb.pull(Some(2), None, 1_000);
    let parsed: serde_json::Value = serde_json::from_str(&j).unwrap();
    assert_eq!(parsed.as_array().unwrap().len(), 2, "batch capped at 2");
    assert_eq!(nb.pending(), 1, "remainder stays queued");
}

#[test]
fn pull_pending_ignores_namespace_param() {
    let mut nb = notebook();
    nb.ingest("s", &vec![turn("user", "ns-scope test", 1)], true);
    assert_eq!(nb.pending(), 1, "one turn queued");
    let json = nb.pull(None, Some("other"), 1_000);
    assert!(json.contains("\"node_id\""), "got: {json}");
    assert!(json.contains("ns-scope test"), "real content returned: {json}");
    assert_eq!(nb.pending(), 0, "queue drained despite foreign ns arg");
}

#[test]
fn extraction_status_reports_pending() {
    let mut nb = notebook();
    nb.ingest("s", &vec![turn("user", "z", 99)], true);
    let s = nb.registry.extraction_status(None);
    assert!(s.contains("\"pending\":1"), "got: {s}");
    assert!(!s.contains("\"threshold\""), "threshold must be absent: {s}");
}

#[test]
fn capture_dedups_identical_turns() {
    let mut nb = notebook();
    let turns = vec![turn("user", "ship it", 1000)];
    assert_eq!(nb.ingest("sess", &turns, true), 1, "first capture creates one episodic");
    assert_eq!(nb.ingest("sess", &turns, true), 0, "identical turn is skipped");
}

#[test]
fn a_batch_keeps_the_turns_that_are_new() {
    let mut nb = notebook();
    let known = turn("user", "ship it", 1000);
    nb.ingest("sess", &vec![known.clone()], true);
    let turns = vec![known, turn("user", "ship it", 1001)];
    assert_eq!(nb.ingest("sess", &turns, true), 1);
    assert_eq!(nb.ingest("sess", &turns, false), 2, "plain ingest keeps both");
}

#[test]
fn capture_enqueues_unextracted_but_plain_ingest_does_not() {
    let mut nb = notebook();
    nb.ingest("s", &vec![turn("user", "a decision", 2000)], false);
    assert_eq!(nb.pending(), 0, "non-capture ingest does not enqueue");
    nb.ingest("s", &vec![turn("user", "another", 3000)], true);
    assert_eq!(nb.pending(), 1, "capture ingest enqueues");
}

#[test]
fn extraction_state_rebuilds_from_metadata_on_reopen() {
    let turns = vec![turn("user", "persist me", 5000)];
    let mut nb = notebook();
    nb.ingest("s", &turns, true);
    assert_eq!(nb.pending(), 1);
    let mut again = nb.restart();
    assert_eq!(again.pending(), 0, "index empty before load");
    again.load(6_000);
    assert_eq!(again.pending(), 1, "unextracted rebuilt from metadata");
    assert_eq!(again.ingest("s", &turns, true), 0, "dedup holds across restart");
}

#[test]
fn capture_to_extract_full_loop() {
    let mut nb = notebook();
    let turns = vec![
        turn("user", "deploy failed", 1),
        turn("assistant", "because the disk was full", 2),
    ];
    nb.ingest("s", &turns, true);
    let st = nb.registry.extraction_status(None);
    assert!(st.contains("\"pending\":2"));
    let pulled = nb.pull(None, None, 1_000);
    assert!(pulled.contains("disk was full"));
    assert_eq!(nb.pending(), 0);
    assert_eq!(nb.ingest("s", &turns, true), 0);
    assert_eq!(nb.pending(), 0);
}

#[test]
fn a_turn_whose_mark_is_not_written_stays_queued() {
    let mut nb = notebook();
    let turns: Vec<TurnInput> = (0..3).map(|i| turn("user", &format!("turn {i}"), 100 + i)).collect();
    nb.ingest("s", &turns, true);
    let j = nb.pull_until(None, None, 1_000, 1);
    let parsed: serde_json::Value = serde_json::from_str(&j).unwrap();
    assert_eq!(parsed.as_array().unwrap().len(), 1);
    assert_eq!(nb.pending(), 2, "what was not marked comes again");
    let j = nb.pull(None, None, 1_001);
    assert!(j.contains("turn 1") && j.contains("turn 2"), "{j}");
}

#[test]
fn marks_follow_the_attempts() {
    assert_eq!(parse_extracted_state(None), ExtractedState::Done);
    assert_eq!(parse_extracted_state(Some("pending:x:1")), ExtractedState::Done);
    assert_eq!(parse_extracted_state(Some("false")), ExtractedState::New);
    assert_eq!(parse_extracted_state(Some("true")), ExtractedState::Done);
    let first = delivery_mark(ExtractedState::New, 5);
    assert_eq!(first, "pending:5:1");
    let pending = parse_extracted_state(Some(&first));
    assert_eq!(pending, ExtractedState::Pending { at_ms: 5, attempt: 1 });
    assert_eq!(delivery_mark(pending, 9), "true");
    assert!(!is_requeued(pending, 5 + 100, 101));
    assert!(is_requeued(pending, 5 + 102, 101));
    assert!(!is_requeued(ExtractedState::Done, u64::MAX, 0));
}

#[test]
fn the_redelivery_time_can_be_set() {
    assert_eq!(extract_redelivery_ms(None), 21_600_000);
    assert_eq!(extract_redelivery_ms(Some(" 500 ")), 500);
    assert_eq!(extract_redelivery_ms(Some("soon")), 21_600_000);
}

#[test]
fn loading_twice_is_loading_once() {
    let mut nb = notebook();
    nb.ingest("s", &vec![turn("user", "one", 1), turn("user", "two", 2)], true);
    nb.pull(Some(1), None, 1_000);
    nb.load(2_000);
    let key = nb.registry.canonical_ns_key(None);
    let (queue, known) = (nb.registry.queue_ids(&key), nb.registry.seen_len());
    nb.load(2_000);
    assert_eq!(nb.registry.queue_ids(&key), queue);
    assert_eq!(nb.registry.seen_len(), known);
    assert_eq!(queue, vec![2]);
    assert_eq!(known, 2);
}

#[test]
fn a_turn_is_delivered_once_or_twice_however_often_it_is_asked_for() {
    let mut nb = notebook();
    nb.ingest("s", &vec![turn("user", "again and again", 1)], true);
    let mut delivered = 0;
    for day in 0..10 {
        let now = 1_000 + day * 2 * DEFAULT_EXTRACT_REDELIVERY_MS;
        nb.load(now);
        delivered += nb.pull(None, None, now).matches("again and again").count();
        delivered += nb.pull(None, None, now + 1).matches("again and again").count();
    }
    assert_eq!(delivered, 2);
}
