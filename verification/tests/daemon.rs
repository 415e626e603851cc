use anamnesis::daemon::{
    acquire_daemon, canonicalize_dir_of, database_parts, fallback_socket, grace_duration,
    grace_step, release, sanitize_stem, socket_parts, socket_path_for_db, wait_for_idle_grace, AcquireEvent, AcquireStage,
    BindOutcome, ClientTracker, GraceEvent, GracePhase, ProbeOutcome, ReleaseStep,
    SOCKET_PATH_BUDGET,
};

fn text(path: Vec<u8>) -> String {
    String::from_utf8(path).unwrap()
}

fn socket(dir: &str) -> Option<String> {
    socket_path_for_db(
        dir.as_bytes(),
        Some("memory"),
        0x0123_4567_89ab_cdef,
        b"/run/user/1000",
        b"/tmp",
    )
    .map(text)
}

#[test]
fn socket_path_is_sibling_of_db() {
    assert_eq!(
        socket("/var/lib/anamnesis").as_deref(),
        Some("/var/lib/anamnesis/memory.sock")
    );
}

#[test]
fn socket_path_is_deterministic_for_same_db() {
    assert_eq!(socket("/var/lib/anamnesis"), socket("/var/lib/anamnesis"));
}

#[test]
fn overlong_db_path_falls_back_to_short_hashed_socket() {
    let deep = format!("/tmp/{}", "x".repeat(200));
    let sock = socket(&deep).unwrap();
    assert!(
        sock.len() <= SOCKET_PATH_BUDGET,
        "socket path {sock:?} exceeds the sun_path budget"
    );
    assert_eq!(sock, "/run/user/1000/anamnesis-memory-0123456789abcdef.sock");
}

#[test]
fn a_long_runtime_directory_gives_way_to_the_temporary_one() {
    let long = format!("/{}", "r".repeat(150));
    assert_eq!(
        fallback_socket(Some("Memory"), 255, long.as_bytes(), b"/tmp").map(text),
        Some("/tmp/anamnesis-00000000000000ff.sock".to_string())
    );
    assert_eq!(
        fallback_socket(Some("Memory"), 255, long.as_bytes(), long.as_bytes()),
        None
    );
}

#[test]
fn stems_are_safe_names() {
    assert_eq!(sanitize_stem(" Team Memory/1 "), "team-memory-1");
    assert_eq!(sanitize_stem("   "), "memory");
    assert_eq!(sanitize_stem("a_b-c"), "a_b-c");
    assert_eq!(sanitize_stem(&sanitize_stem("Caf\u{e9}")), sanitize_stem("Caf\u{e9}"));
}

#[test]
fn a_directory_that_cannot_be_resolved_is_kept() {
    assert_eq!(
        canonicalize_dir_of(b"/var/m.db", b"m.db", Some(b"/private/var")),
        b"/private/var/m.db".to_vec()
    );
    assert_eq!(
        canonicalize_dir_of(b"/var/m.db", b"m.db", None),
        b"/var/m.db".to_vec()
    );
}

/// Takes over a database whose lock is free or not, on a fresh socket.
fn acquire(lock_is_free: bool) -> AcquireStage {
    let stage = acquire_daemon(
        AcquireStage::Locking,
        AcquireEvent::Lock { held: lock_is_free },
    );
    acquire_daemon(
        stage,
        AcquireEvent::Bind {
            outcome: BindOutcome::Bound,
        },
    )
}

#[test]
fn second_acquire_on_same_db_loses_the_race() {
    let mut locked = false;
    let first = acquire(!locked);
    assert_eq!(first, AcquireStage::Serving, "first daemon should win the lock");
    locked = true;
    let second = acquire(!locked);
    assert_eq!(second, AcquireStage::Lost, "second daemon must lose the race");
    for step in release() {
        if step == ReleaseStep::Unlock {
            locked = false;
        }
    }
    let third = acquire(!locked);
    assert_eq!(
        third,
        AcquireStage::Serving,
        "after release a new daemon can acquire"
    );
}

#[test]
fn a_socket_is_taken_over_only_from_nobody() {
    let probing = acquire_daemon(
        AcquireStage::Binding,
        AcquireEvent::Bind {
            outcome: BindOutcome::AddressInUse,
        },
    );
    assert_eq!(probing, AcquireStage::Probing);
    for (outcome, next) in [
        (ProbeOutcome::Connected, AcquireStage::Refused),
        (ProbeOutcome::Refused, AcquireStage::Reclaiming),
        (ProbeOutcome::Missing, AcquireStage::Reclaiming),
        (ProbeOutcome::Failed, AcquireStage::Failed),
    ] {
        assert_eq!(acquire_daemon(probing, AcquireEvent::Probe { outcome }), next);
    }
}

#[test]
fn the_socket_goes_before_the_lock() {
    assert_eq!(
        release(),
        vec![ReleaseStep::Flush, ReleaseStep::Unlink, ReleaseStep::Unlock]
    );
}

#[test]
fn grace_duration_reads_env_with_default() {
    assert_eq!(grace_duration(None), 30);
    assert_eq!(grace_duration(Some(" 5 ")), 5);
    assert_eq!(grace_duration(Some("soon")), 30);
}

#[test]
fn idle_grace_returns_after_window_when_zero_clients() {
    let tracker = ClientTracker::new();
    let phase = wait_for_idle_grace(tracker.current());
    assert_eq!(phase, GracePhase::Window, "an idle daemon waits for the window");
    assert_eq!(
        grace_step(phase, GraceEvent::Elapsed, tracker.current()),
        GracePhase::Exit
    );
}

#[test]
fn idle_grace_is_canceled_by_a_new_connection() {
    let mut tracker = ClientTracker::new();
    tracker.connect();
    let mut phase = wait_for_idle_grace(tracker.current());
    for event in [GraceEvent::Elapsed, GraceEvent::Changed, GraceEvent::Elapsed] {
        phase = grace_step(phase, event, tracker.current());
        assert_ne!(
            phase,
            GracePhase::Exit,
            "grace must not fire while a client is connected"
        );
    }
    assert!(tracker.disconnect(), "the last client left");
    phase = grace_step(phase, GraceEvent::Changed, tracker.current());
    assert_eq!(phase, GracePhase::Window);
    assert_eq!(
        grace_step(phase, GraceEvent::Elapsed, tracker.current()),
        GracePhase::Exit
    );
}

#[test]
fn a_path_is_parted_as_std_parts_it() {
    for path in [
        "", "/", ".", "..", "a", "a.db", "/a.db", "/x/a.db", "x/a.db", "./a.db", "x/.hidden",
        "x/.hidden.db", "x/a.b.db", "x/a.", "x/..a", "x/...", "x/..", "x/a.db/", "x/a.db/.",
        "//a.db", "x//a.db", "x/./a.db",
    ] {
        let p = std::path::Path::new(path);
        let (dir, stem) = socket_parts(path.as_bytes());
        let above = p.parent().map_or(".", |d| d.to_str().unwrap());
        assert_eq!(text(dir), above, "{path:?}");
        assert_eq!(stem.map(text).as_deref(), p.file_stem().map(|s| s.to_str().unwrap()), "{path:?}");
        let (resolve, name) = database_parts(path.as_bytes());
        assert_eq!(text(resolve), if above.is_empty() { "." } else { above }, "{path:?}");
        assert_eq!(text(name), p.file_name().map_or("", |s| s.to_str().unwrap()), "{path:?}");
    }
    assert_eq!(
        socket_parts(b"/home/a/memory.db"),
        (b"/home/a".to_vec(), Some(b"memory".to_vec()))
    );
}
