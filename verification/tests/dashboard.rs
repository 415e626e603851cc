use std::cell::RefCell;

use anamnesis::dashboard::{
    bridge_step, effective_namespace, finish_route, parse_csv_ids, parse_id, parse_query,
    percent_decode, query_value, route, split_path_query, unreachable_reply, BridgeEvent,
    BridgeStage, HttpReply, Incoming, Plan,
};
use anamnesis::proto::{Request, Response};

/// A service that records every request and always gives the same reply.
struct StubDaemon {
    canned: Response,
    seen: RefCell<Vec<Request>>,
}

impl StubDaemon {
    fn new(canned: Response) -> Self {
        Self {
            canned,
            seen: RefCell::new(Vec::new()),
        }
    }

    fn call(&self, req: Request) -> Response {
        self.seen.borrow_mut().push(req);
        self.canned.clone()
    }

    fn last(&self) -> Request {
        self.seen.borrow().last().cloned().expect("a request was recorded")
    }

    fn called(&self) -> bool {
        !self.seen.borrow().is_empty()
    }
}

fn ok(text: &str) -> Response {
    Response::ok(text.to_string())
}

fn q(pairs: &[(&str, &str)]) -> Vec<(String, String)> {
    pairs.iter().map(|(k, v)| (k.to_string(), v.to_string())).collect()
}

fn answer(
    d: &StubDaemon,
    method: &str,
    path: &str,
    query: Vec<(String, String)>,
    default_namespace: Option<&str>,
) -> HttpReply {
    let min_salience = query_value(&query, "min_salience")
        .and_then(|v| v.parse::<f64>().ok())
        .map(f64::to_bits);
    let incoming = Incoming {
        method: method.to_string(),
        path: path.to_string(),
        query,
        min_salience,
    };
    match route(&incoming, default_namespace) {
        Plan::Answer { reply } => reply,
        Plan::Page => HttpReply::html("<title>Anamnesis</title>"),
        Plan::Call { request, shape } => finish_route(shape, d.call(request)),
    }
}

fn send(d: &StubDaemon, method: &str, path: &str) -> HttpReply {
    answer(d, method, path, Vec::new(), None)
}

#[test]
fn get_root_serves_html_without_calling_daemon() {
    let d = StubDaemon::new(ok("unused"));
    let r = send(&d, "GET", "/");
    assert_eq!(r.status, 200);
    assert!(r.content_type.starts_with("text/html"));
    assert!(r.body.contains("Anamnesis"), "embedded page renders");
    assert!(!d.called(), "the index page must not hit the daemon");
}

#[test]
fn get_memories_calls_list_and_passes_json_through() {
    let d = StubDaemon::new(ok("[{\"node_id\":1},{\"node_id\":2}]"));
    let query = q(&[("min_salience", "0.25"), ("limit", "10"), ("namespace", "proj")]);
    let r = answer(&d, "GET", "/api/memories", query, None);
    assert_eq!(r.status, 200);
    assert_eq!(r.content_type, "application/json");
    assert_eq!(r.body, "[{\"node_id\":1},{\"node_id\":2}]");
    match d.last() {
        Request::List {
            min_salience,
            limit,
            namespace,
            node_type,
            tag,
            scope,
            metadata,
        } => {
            assert_eq!(min_salience.map(f64::from_bits), Some(0.25));
            assert_eq!(limit, Some(10));
            assert_eq!(namespace.as_deref(), Some("proj"));
            assert!(node_type.is_none() && tag.is_none() && scope.is_none() && metadata.is_none());
        }
        other => panic!("expected List, got {other:?}"),
    }
}

#[test]
fn get_memory_by_id_calls_get() {
    let d = StubDaemon::new(ok("{\"node_id\":7,\"content\":\"hi\"}"));
    let r = send(&d, "GET", "/api/memory/7");
    assert_eq!(r.status, 200);
    assert_eq!(r.content_type, "application/json");
    assert_eq!(r.body, "{\"node_id\":7,\"content\":\"hi\"}");
    assert_eq!(
        d.last(),
        Request::Get {
            id: 7,
            namespace: None
        }
    );
}

#[test]
fn non_numeric_id_is_400_and_skips_daemon() {
    let d = StubDaemon::new(ok("unused"));
    let r = send(&d, "GET", "/api/memory/not-a-number");
    assert_eq!(r.status, 400);
    assert!(!d.called(), "a malformed id must never reach the daemon");
}

#[test]
fn missing_memory_maps_invalid_params_to_404() {
    let d = StubDaemon::new(Response::invalid_params("no node 999".to_string()));
    let r = send(&d, "GET", "/api/memory/999");
    assert_eq!(r.status, 404);
    assert_eq!(
        d.last(),
        Request::Get {
            id: 999,
            namespace: None
        }
    );
}

#[test]
fn internal_error_maps_to_500() {
    let d = StubDaemon::new(Response::internal("boom".to_string()));
    let r = send(&d, "GET", "/api/memories");
    assert_eq!(r.status, 500);
}

#[test]
fn get_stats_wraps_daemon_text_as_json() {
    let text = "nodes:                2\nedges:                0\nhealth grade:         Fair";
    let d = StubDaemon::new(ok(text));
    let r = send(&d, "GET", "/api/stats");
    assert_eq!(r.status, 200);
    assert_eq!(r.content_type, "application/json");
    let v: serde_json::Value = serde_json::from_str(&r.body).expect("stats body is valid JSON");
    assert_eq!(v["stats"], text);
    assert_eq!(
        d.last(),
        Request::Stats {
            namespace: None,
            recall: None
        }
    );
}

#[test]
fn post_forget_sends_soft_forget_and_wraps_result() {
    let d = StubDaemon::new(ok("forgot node 5 (soft delete)"));
    let r = send(&d, "POST", "/api/memory/5/forget");
    assert_eq!(r.status, 200);
    let v: serde_json::Value = serde_json::from_str(&r.body).expect("forget body is JSON");
    assert_eq!(v["ok"], true);
    assert_eq!(v["message"], "forgot node 5 (soft delete)");
    match d.last() {
        Request::Forget { id, hard, .. } => {
            assert_eq!(id, 5);
            assert_eq!(hard, Some(false), "dashboard forget is a soft-retract");
        }
        other => panic!("expected Forget, got {other:?}"),
    }
}

#[test]
fn wrong_method_on_known_route_is_405() {
    let d = StubDaemon::new(ok("unused"));
    assert_eq!(send(&d, "POST", "/api/memories").status, 405);
    assert_eq!(send(&d, "GET", "/api/memory/5/forget").status, 405);
    assert!(!d.called(), "a method mismatch must not reach the daemon");
}

#[test]
fn unknown_route_is_404() {
    let d = StubDaemon::new(ok("unused"));
    assert_eq!(send(&d, "GET", "/api/nope").status, 404);
}

#[test]
fn get_graph_by_seed_calls_graph_op_and_passes_json_through() {
    let body = "{\"schema\":1,\"seed_ids\":[5],\"truncated\":false,\"nodes\":[],\"edges\":[]}";
    let d = StubDaemon::new(ok(body));
    let query = q(&[("seed", "5"), ("depth", "1"), ("limit", "100")]);
    let r = answer(&d, "GET", "/api/graph", query, None);
    assert_eq!(r.status, 200);
    assert_eq!(r.content_type, "application/json");
    assert_eq!(r.body, body);
    match d.last() {
        Request::Graph {
            seeds,
            query,
            depth,
            limit,
            namespace,
        } => {
            assert_eq!(seeds, Some(vec![5]));
            assert_eq!(query, None);
            assert_eq!(depth, Some(1));
            assert_eq!(limit, Some(100));
            assert_eq!(namespace, None);
        }
        other => panic!("expected Graph, got {other:?}"),
    }
}

#[test]
fn get_graph_by_query_passes_query() {
    let d = StubDaemon::new(ok("{\"schema\":1}"));
    let r = answer(&d, "GET", "/api/graph", q(&[("q", "wombat")]), None);
    assert_eq!(r.status, 200);
    match d.last() {
        Request::Graph { seeds, query, .. } => {
            assert_eq!(seeds, None);
            assert_eq!(query, Some("wombat".to_string()));
        }
        other => panic!("expected Graph, got {other:?}"),
    }
}

#[test]
fn get_graph_without_seed_or_q_is_400() {
    let d = StubDaemon::new(ok("unused"));
    let r = send(&d, "GET", "/api/graph");
    assert_eq!(r.status, 400);
    assert!(!d.called(), "no seed/q must never reach the daemon");
}

#[test]
fn get_graph_wrong_method_is_405() {
    let d = StubDaemon::new(ok("unused"));
    let r = send(&d, "POST", "/api/graph");
    assert_eq!(r.status, 405);
    assert!(!d.called());
}

#[test]
fn graph_seeds_csv_parses() {
    let d = StubDaemon::new(ok("{\"schema\":1}"));
    let r = answer(&d, "GET", "/api/graph", q(&[("seeds", "1,2,3")]), None);
    assert_eq!(r.status, 200);
    match d.last() {
        Request::Graph { seeds, .. } => assert_eq!(seeds, Some(vec![1, 2, 3])),
        other => panic!("expected Graph, got {other:?}"),
    }
}

#[test]
fn namespace_default_then_query_override() {
    let d = StubDaemon::new(ok("[]"));
    let list_ns = |query: Vec<(String, String)>| {
        answer(&d, "GET", "/api/memories", query, Some("cli-ns"));
        match d.last() {
            Request::List { namespace, .. } => namespace,
            other => panic!("expected List, got {other:?}"),
        }
    };
    assert_eq!(
        list_ns(q(&[])).as_deref(),
        Some("cli-ns"),
        "CLI default namespace applies with no query override"
    );
    assert_eq!(
        list_ns(q(&[("namespace", "override")])).as_deref(),
        Some("override"),
        "a query namespace overrides the CLI default"
    );
    assert_eq!(
        list_ns(q(&[("namespace", "")])).as_deref(),
        Some("cli-ns"),
        "an empty query namespace falls back to the CLI default"
    );
    assert_eq!(effective_namespace(&q(&[]), None), None);
}

#[test]
fn parse_query_decodes_pairs() {
    let m = parse_query("a=1&b=hello%20world&c=&d");
    assert_eq!(query_value(&m, "a"), Some("1"));
    assert_eq!(query_value(&m, "b"), Some("hello world"));
    assert_eq!(query_value(&m, "c"), Some(""));
    assert_eq!(query_value(&m, "d"), Some(""));
    assert_eq!(query_value(&m, "e"), None);
}

#[test]
fn split_path_query_splits_on_question_mark() {
    assert_eq!(
        split_path_query("/api/memories?x=1"),
        ("/api/memories".to_string(), "x=1".to_string())
    );
    assert_eq!(
        split_path_query("/api/stats"),
        ("/api/stats".to_string(), String::new())
    );
}

#[test]
fn escapes_are_read_and_other_text_is_kept() {
    assert_eq!(percent_decode("caf%C3%A9+%26"), "caf\u{e9} &");
    assert_eq!(percent_decode("%63%61%66%c3%a9"), "caf\u{e9}");
    assert_eq!(percent_decode("%c3%A9%C3%a9"), "\u{e9}\u{e9}");
    assert_eq!(percent_decode("100%"), "100%");
    assert_eq!(percent_decode("%zz%4"), "%zz%4");
    assert_eq!(percent_decode("%ff"), "\u{fffd}", "bytes that are no text are replaced");
    assert_eq!(percent_decode("plain-text_1.~"), "plain-text_1.~");
}

#[test]
fn the_last_of_two_pairs_counts() {
    let m = parse_query("a=1&a=2");
    assert_eq!(query_value(&m, "a"), Some("2"));
}

#[test]
fn ids_are_numbers() {
    assert_eq!(parse_id("18446744073709551615"), Some(u64::MAX));
    assert_eq!(parse_id("18446744073709551616"), None);
    assert_eq!(parse_id(""), None);
    assert_eq!(parse_csv_ids("1,2,3"), Some(vec![1, 2, 3]));
    assert_eq!(parse_csv_ids("1, 2"), None);
    assert_eq!(parse_csv_ids("1,x"), None);
    assert_eq!(parse_csv_ids(""), None);
}

#[test]
fn text_in_a_reply_is_quoted() {
    let r = HttpReply::error(404, "no \"page\"\n");
    let v: serde_json::Value = serde_json::from_str(&r.body).unwrap();
    assert_eq!(v["error"], "no \"page\"\n");
}

#[test]
fn a_lost_connection_is_made_anew_once() {
    let after = |events: &[BridgeEvent]| {
        events
            .iter()
            .fold(BridgeStage::Calling, |stage, event| bridge_step(stage, *event))
    };
    let (ok, lost) = (BridgeEvent::Replied, BridgeEvent::Failed);
    assert_eq!(after(&[ok]), BridgeStage::Answered);
    assert_eq!(after(&[lost]), BridgeStage::Reconnecting);
    assert_eq!(after(&[lost, ok]), BridgeStage::Answered);
    assert_eq!(after(&[lost, lost]), BridgeStage::Unreachable);
    assert_eq!(after(&[lost, lost, ok]), BridgeStage::Unreachable);
    assert_eq!(after(&[ok, lost]), BridgeStage::Answered);
    assert_eq!(
        unreachable_reply("connection refused"),
        Response::internal("daemon unreachable: connection refused".to_string())
    );
}
