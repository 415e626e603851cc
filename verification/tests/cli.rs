use anamnesis::cli::{
    call_oneshot, check, doctor, extract_namespace, format_oneshot_stdout, is_extract_audit,
    oneshot_outcome, oneshot_request, parse_audit_support, parse_contamination_category,
    parse_relation_verdict, prepare_manual_migration, probe_lock, render_extract_outcome,
    run_embedded_oneshot, run_extract_worker, run_oneshot, run_oneshot_client, wants_embedded,
    write_migration_summary, Cli, Commands, HookEvent, LockProbe, ManualEvent, ManualFault,
    ManualStage, MigrationOutcome, Oneshot, Route, Setup, WorkerError, WorkerNoop, WorkerOutcome,
};
use anamnesis::extract::{AuditSupport, ContaminationCategory, RelationVerdict};
use anamnesis::memory::NamespaceKey;
use anamnesis::proto::{EngineErrorKind, Request, Response};

fn recall_cli(embedded: bool) -> Cli {
    Cli {
        command: Some(Commands::Recall {
            query: "caller provenance".to_string(),
            limit: 20,
            namespace: None,
            embedded,
        }),
    }
}

fn stats_cli(recall: bool, embedded: bool) -> Cli {
    Cli {
        command: Some(Commands::Stats {
            namespace: None,
            recall,
            embedded,
        }),
    }
}

fn audit_cli(
    namespace: Option<&str>,
    candidate: Option<(u64, AuditSupport)>,
    relation: Option<(u64, RelationVerdict)>,
    reviewer: Option<&str>,
) -> Cli {
    Cli {
        command: Some(Commands::Extract {
            audit: true,
            namespace: namespace.map(str::to_string),
            limit: 25,
            candidate: candidate.map(|(id, _)| id),
            support: candidate.map(|(_, s)| s),
            contamination: None,
            relation: relation.map(|(id, _)| id),
            relation_verdict: relation.map(|(_, v)| v),
            reviewer: reviewer.map(str::to_string),
        }),
    }
}

#[test]
fn raw_cli_recall_builds_an_unclassified_daemon_request() {
    let request = oneshot_request(&recall_cli(false), "nobody")
        .expect("raw daemon-routed recall must build a request");
    assert!(matches!(
        request,
        Request::Recall {
            query,
            limit: Some(20),
            namespace: None,
            event_kind: None,
            ..
        } if query == "caller provenance"
    ));
}

#[test]
fn stats_recall_cli_parses_and_sends_true_to_daemon() {
    let request = oneshot_request(&stats_cli(true, false), "nobody")
        .expect("stats --recall must build a daemon request");
    assert!(matches!(
        request,
        Request::Stats {
            namespace: None,
            recall: Some(true),
        }
    ));
}

#[test]
fn stats_without_recall_preserves_none_on_daemon_request() {
    let request = oneshot_request(&stats_cli(false, false), "nobody")
        .expect("stats without --recall must build a daemon request");
    assert!(matches!(
        request,
        Request::Stats {
            namespace: None,
            recall: None,
        }
    ));
    assert_eq!(
        format_oneshot_stdout(&stats_cli(false, false), "graph stats", None),
        "graph stats\n",
        "the existing daemon stats path must keep its one trailing newline"
    );
}

#[test]
fn an_account_of_recalls_brings_its_own_line_end() {
    assert_eq!(
        format_oneshot_stdout(&stats_cli(true, false), "stats\n", None),
        "stats\n"
    );
    let list = audit_cli(None, None, None, None);
    assert_eq!(
        format_oneshot_stdout(&list, "{}", Some("report\n".to_string())),
        "report\n"
    );
    assert_eq!(format_oneshot_stdout(&list, "{}", None), "{}\n");
}

#[test]
fn already_compatible_cli_outcome_is_noop_without_backup_path() {
    let summary = write_migration_summary(
        "default",
        &MigrationOutcome::NoOp {
            model: "intfloat/multilingual-e5-small".to_string(),
            dimensions: 384,
        },
    );
    assert_eq!(
        summary,
        "embedding migration no-op: namespace=default model=intfloat/multilingual-e5-small dimensions=384 already compatible\n"
    );
    assert!(!summary.contains("backup="));
}

#[test]
fn a_migration_names_its_backup() {
    let summary = write_migration_summary(
        "default",
        &MigrationOutcome::Migrated {
            migrated: 7,
            resumed: "false".to_string(),
            backup: "/tmp/memory.db.bak".to_string(),
        },
    );
    assert!(summary.contains("backup=/tmp/memory.db.bak"), "{summary}");
    assert!(summary.contains("namespace=default"), "{summary}");
}

#[test]
fn audit_request_is_daemon_only_and_carries_no_worker_configuration() {
    let cli = audit_cli(Some("project/resolved-namespace"), None, None, None);
    assert!(matches!(
        oneshot_request(&cli, "nobody"),
        Some(Request::ExtractionAuditList {
            namespace: Some(namespace),
            ..
        }) if namespace == "project/resolved-namespace"
    ));
    assert!(is_extract_audit(&cli));
    assert!(!wants_embedded(&cli, false));
}

#[test]
fn verdicts_name_who_gave_them() {
    let candidate = audit_cli(None, Some((7, AuditSupport::Partial)), None, Some(" kim "));
    assert!(matches!(
        oneshot_request(&candidate, "nobody"),
        Some(Request::UpdateExtractionCandidateAudit {
            candidate_id: 7,
            support: AuditSupport::Partial,
            reviewer,
            ..
        }) if reviewer == "kim"
    ));
    let relation = audit_cli(None, None, Some((9, RelationVerdict::WrongDirection)), Some("  "));
    assert!(matches!(
        oneshot_request(&relation, "nobody"),
        Some(Request::UpdateExtractionRelationAudit {
            relation_id: 9,
            verdict: RelationVerdict::WrongDirection,
            reviewer,
            ..
        }) if reviewer == "nobody"
    ));
}

#[test]
fn extract_outcome_rendering_keeps_successes_concise_and_failures_typed() {
    for outcome in [
        WorkerOutcome::Staged {
            run_id: 41,
            candidate_count: 3,
            relation_count: 2,
        },
        WorkerOutcome::AlreadyStaged {
            run_id: 42,
            candidate_count: 5,
            relation_count: 4,
        },
    ] {
        let rendered = render_extract_outcome(Ok(outcome));
        assert_eq!(rendered.exit_code, 0);
        assert!(rendered.stderr.is_empty());
        assert!(
            rendered.stdout.contains("run_id="),
            "successful extraction must identify its run: {}",
            rendered.stdout
        );
        assert!(
            rendered.stdout.contains("candidate_count=")
                && rendered.stdout.contains("relation_count="),
            "successful extraction must report candidate and relation counts: {}",
            rendered.stdout
        );
    }

    for outcome in [
        WorkerOutcome::Noop(WorkerNoop::ModeOff),
        WorkerOutcome::Noop(WorkerNoop::WorkerBusy),
        WorkerOutcome::Noop(WorkerNoop::BelowThreshold),
    ] {
        let rendered = render_extract_outcome(Ok(outcome));
        assert_eq!(rendered.exit_code, 0);
        assert!(rendered.stderr.is_empty());
        assert!(!rendered.stdout.contains('\n'));
    }

    let failed = render_extract_outcome(Err(WorkerError::Runtime("boom".into())));
    assert_ne!(failed.exit_code, 0);
    assert!(failed.stdout.is_empty());
    assert!(failed.stderr.contains("runtime"));
}

#[test]
fn the_worker_runs_only_for_extract() {
    let cli = Cli {
        command: Some(Commands::Extract {
            audit: false,
            namespace: Some("proj".to_string()),
            limit: 25,
            candidate: None,
            support: None,
            contamination: None,
            relation: None,
            relation_verdict: None,
            reviewer: None,
        }),
    };
    assert_eq!(extract_namespace(&cli), Some("proj".to_string()));
    let ran = run_extract_worker(&cli, Ok(WorkerOutcome::Noop(WorkerNoop::ModeOff)));
    assert!(ran.is_ok(), "{ran:?}");
    let failed = run_extract_worker(&cli, Err(WorkerError::Runtime("boom".to_string())));
    assert!(failed.unwrap_err().contains("boom"));
}

#[test]
fn words_of_a_verdict_are_read() {
    assert_eq!(parse_audit_support("partial"), Ok(AuditSupport::Partial));
    assert_eq!(
        parse_contamination_category("unsupported-claim"),
        Ok(ContaminationCategory::UnsupportedClaim)
    );
    assert_eq!(
        parse_relation_verdict("wrong-direction"),
        Ok(RelationVerdict::WrongDirection)
    );
    assert!(parse_audit_support("maybe").is_err());
    assert!(parse_contamination_category("dirt").is_err());
    assert!(parse_relation_verdict("sideways").is_err());
}

#[test]
fn commands_go_where_they_belong() {
    assert!(wants_embedded(&recall_cli(true), false));
    assert!(!wants_embedded(&recall_cli(false), false));
    assert!(wants_embedded(&recall_cli(false), true));
    assert_eq!(run_oneshot(&recall_cli(true), true), Route::Dispatch);
    assert_eq!(run_oneshot(&recall_cli(false), false), Route::Client);
    assert_eq!(oneshot_outcome(Route::Client), Oneshot::Client);
    assert_eq!(oneshot_outcome(Route::Dispatch), Oneshot::Done);
    assert_eq!(oneshot_outcome(Route::Serve), Oneshot::Serve);
    let hook = Cli {
        command: Some(Commands::Hook {
            event: HookEvent::Stop,
        }),
    };
    assert_eq!(oneshot_request(&hook, "nobody"), None);
    assert!(run_embedded_oneshot(&hook, "nobody").is_err());
    assert!(run_oneshot_client(&hook, "nobody").is_err());
    assert_eq!(
        run_embedded_oneshot(&recall_cli(true), "nobody").ok(),
        run_oneshot_client(&recall_cli(false), "nobody").ok()
    );
}

#[test]
fn a_refusal_is_an_error_of_the_command() {
    assert_eq!(
        call_oneshot(Response::ok("fine".to_string())),
        Ok("fine".to_string())
    );
    assert!(call_oneshot(Response::internal("boom".to_string()))
        .unwrap_err()
        .contains("boom"));
}

#[test]
fn a_manual_migration_locks_before_it_resolves() {
    let path = || "/tmp/memory.db".to_string();
    let mut stage = ManualStage::Locate;
    for (event, next) in [
        (
            ManualEvent::Located { path: Some(path()) },
            ManualStage::Look { path: path() },
        ),
        (
            ManualEvent::Looked { is_file: Ok(true) },
            ManualStage::Lock { path: path() },
        ),
        (
            ManualEvent::Locked { result: Ok(()) },
            ManualStage::Resolve { path: path() },
        ),
        (
            ManualEvent::Resolved { path: Ok(path()) },
            ManualStage::Ready { path: path() },
        ),
    ] {
        stage = prepare_manual_migration(stage, event);
        assert_eq!(stage, next);
    }
}

#[test]
fn each_fault_of_a_manual_migration_is_told() {
    let path = || "/tmp/memory.db".to_string();
    let faults = [
        prepare_manual_migration(ManualStage::Locate, ManualEvent::Located { path: None }),
        prepare_manual_migration(
            ManualStage::Look { path: path() },
            ManualEvent::Looked {
                is_file: Err("gone".to_string()),
            },
        ),
        prepare_manual_migration(
            ManualStage::Look { path: path() },
            ManualEvent::Looked { is_file: Ok(false) },
        ),
        prepare_manual_migration(
            ManualStage::Lock { path: path() },
            ManualEvent::Locked {
                result: Err("held".to_string()),
            },
        ),
        prepare_manual_migration(
            ManualStage::Resolve { path: path() },
            ManualEvent::Resolved {
                path: Err("loop".to_string()),
            },
        ),
    ];
    let key = NamespaceKey::new("default");
    let expected = [
        ManualFault::NotFileBacked,
        ManualFault::Missing {
            path: path(),
            error: "gone".to_string(),
        },
        ManualFault::NotRegular { path: path() },
        ManualFault::InUse {
            error: "held".to_string(),
        },
        ManualFault::Unresolved {
            path: path(),
            error: "loop".to_string(),
        },
    ];
    for (stage, fault) in faults.into_iter().zip(expected) {
        assert_eq!(
            stage,
            ManualStage::Refused {
                fault: fault.clone()
            }
        );
        let error = fault.error(&key);
        assert!(!error.message.is_empty());
        assert!(matches!(
            error.kind,
            EngineErrorKind::InvalidInput | EngineErrorKind::Storage
        ));
    }
}

#[test]
fn the_setup_report_has_a_line_for_each_check() {
    let report = doctor(&Setup {
        default_namespace: "default".to_string(),
        reinforce_on_recall: true,
        db: "/home/a/.anamnesis/memory.db".to_string(),
        db_dir: "/home/a/.anamnesis".to_string(),
        db_dir_ok: true,
        lock_path: "/home/a/.anamnesis/memory.db.lock".to_string(),
        lock: LockProbe::Free,
        model_cache: "/home/a/.anamnesis/models".to_string(),
        model_cached: false,
    });
    assert!(report.starts_with("anamnesis doctor\n====================\n"), "{report}");
    assert!(report.contains("[..] default db: /home/a/.anamnesis/memory.db\n"), "{report}");
    assert_eq!(report.lines().count(), 8, "{report}");
    assert!(report.contains(&check("default namespace", true, "default")), "{report}");
    assert!(!probe_lock("x", &LockProbe::Held).0);
    assert!(probe_lock("x", &LockProbe::NoFile).0);
    assert!(
        !probe_lock(
            "x",
            &LockProbe::Unreadable {
                error: "denied".to_string()
            }
        )
        .0
    );
}
