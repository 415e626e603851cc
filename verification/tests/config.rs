use anamnesis::config::{
    anamnesis_home, ancestors_of, default_db_path, model_cache_dir, parent_of, parse_env,
    parse_env_size, parse_env_string, positive_env_enabled, positive_value_enabled,
    resolve_project_db, Config, Environment, DEFAULT_EMBED_MODEL, DEFAULT_HOOK_CONTEXT_TURNS,
    DEFAULT_HOOK_COSINE_GATE, DEFAULT_HOOK_SEED_COSINE_GATE, DEFAULT_HOOK_THRESHOLD,
    DEFAULT_HOOK_TOPK,
};

fn config(default_db: &str) -> Config {
    Config {
        default_db: default_db.as_bytes().to_vec(),
        default_namespace: "default".to_string(),
        reinforce_on_recall: true,
        hook_threshold: DEFAULT_HOOK_THRESHOLD,
        hook_cosine_gate: DEFAULT_HOOK_COSINE_GATE,
        hook_seed_cosine_gate: DEFAULT_HOOK_SEED_COSINE_GATE,
        hook_context_turns: DEFAULT_HOOK_CONTEXT_TURNS,
        hook_topk: DEFAULT_HOOK_TOPK,
        hook_seed_k: 5,
        hook_timeout_ms: 1500,
        capture_enabled: true,
        extract_threshold_n: 20,
        embed_model: DEFAULT_EMBED_MODEL.to_string(),
        auto_migrate_embeddings: true,
    }
}

fn unset() -> Environment {
    Environment {
        db: None,
        namespace: None,
        reinforce: None,
        hook_threshold: None,
        hook_cosine_gate: None,
        hook_seed_cosine_gate: None,
        hook_context_turns: None,
        hook_topk: None,
        hook_seed_k: None,
        hook_timeout_ms: None,
        capture_enabled: None,
        extract_threshold_n: None,
        embed_model: None,
        auto_migrate_embeddings: None,
    }
}

#[test]
fn reinforce_defaults_true_and_can_disable() {
    let cfg = config("x");
    assert!(cfg.reinforce_on_recall);
    assert_eq!(cfg.db_dir(), b".".to_vec());
    assert!(Config::from_env(unset(), b"x".to_vec()).reinforce_on_recall);
    let mut env = unset();
    env.reinforce = Some("0".to_string());
    assert!(!Config::from_env(env, b"x".to_vec()).reinforce_on_recall);
}

#[test]
fn db_dir_is_parent_of_default_db() {
    let cfg = config("/var/lib/anamnesis/memory.db");
    assert_eq!(cfg.db_dir(), b"/var/lib/anamnesis".to_vec());
}

#[test]
fn project_scope_found_in_nearest_ancestor() {
    let dirs = ancestors_of(b"/tmp/root/a/b/c");
    let marked = dirs.iter().map(|d| d == b"/tmp/root").collect();
    assert_eq!(
        resolve_project_db(&dirs, &marked),
        Some(b"/tmp/root/.anamnesis/memory.db".to_vec())
    );
    let nearer = dirs
        .iter()
        .map(|d| d == b"/tmp/root" || d == b"/tmp/root/a")
        .collect();
    assert_eq!(
        resolve_project_db(&dirs, &nearer),
        Some(b"/tmp/root/a/.anamnesis/memory.db".to_vec())
    );
}

#[test]
fn no_marker_falls_back_to_global() {
    let dirs = ancestors_of(b"/tmp/root");
    let marked = dirs.iter().map(|_| false).collect();
    assert_eq!(resolve_project_db(&dirs, &marked), None);
    assert_eq!(
        default_db_path(None, b"/home/a/.anamnesis"),
        b"/home/a/.anamnesis/memory.db".to_vec()
    );
}

#[test]
fn parse_env_falls_back_on_unset_and_garbage() {
    assert_eq!(parse_env_size(&None, 5usize), 5);
    assert_eq!(
        parse_env(&None, DEFAULT_HOOK_THRESHOLD),
        DEFAULT_HOOK_THRESHOLD
    );
    assert_eq!(parse_env(&None, 1500u64), 1500);
    assert_eq!(parse_env(&Some("garbage".to_string()), 1500u64), 1500);
    assert_eq!(parse_env(&Some("42".to_string()), 1500u64), 42);
}

#[test]
fn capture_knobs_have_sane_defaults() {
    let cfg = config("x");
    assert!(cfg.capture_enabled);
    assert_eq!(cfg.extract_threshold_n, 20);
    let cfg = Config::from_env(unset(), b"x".to_vec());
    assert!(cfg.capture_enabled);
    assert_eq!(cfg.extract_threshold_n, 20);
}

#[test]
fn hook_gate_knobs_default_and_parse() {
    let cfg = config("x");
    assert_eq!(f64::from_bits(cfg.hook_cosine_gate), 0.86);
    assert_eq!(f64::from_bits(cfg.hook_seed_cosine_gate), 0.80);
    assert_eq!(cfg.hook_context_turns, 3);
    assert_eq!(cfg.hook_topk, DEFAULT_HOOK_TOPK);
    assert_eq!(
        Config::from_env(unset(), b"x".to_vec()).hook_cosine_gate,
        DEFAULT_HOOK_COSINE_GATE
    );
    let mut env = unset();
    env.hook_cosine_gate = Some(0.5f64.to_bits());
    env.hook_context_turns = Some("7".to_string());
    let cfg = Config::from_env(env, b"x".to_vec());
    assert_eq!(f64::from_bits(cfg.hook_cosine_gate), 0.5);
    assert_eq!(cfg.hook_context_turns, 7);
}

#[test]
fn operations_hook_topk_default_matches_source() {
    let expected = format!("| `ANAMNESIS_HOOK_TOPK` | `{DEFAULT_HOOK_TOPK}` |");
    assert_eq!(expected, "| `ANAMNESIS_HOOK_TOPK` | `3` |");
}

#[test]
fn embed_model_default_is_multilingual_e5_small() {
    assert_eq!(DEFAULT_EMBED_MODEL, "multilingual-e5-small");
    assert_eq!(parse_env_string(&None, DEFAULT_EMBED_MODEL), DEFAULT_EMBED_MODEL);
}

#[test]
fn auto_migration_positive_flag_defaults_enabled_and_accepts_falseish_values() {
    assert!(positive_env_enabled(&None));
    for value in ["0", "false", "FALSE", " no "] {
        assert!(!positive_value_enabled(value));
    }
    assert!(positive_value_enabled("yes"));
}

#[test]
fn default_hook_threshold_is_a_sane_positive_prior() {
    let threshold = f64::from_bits(DEFAULT_HOOK_THRESHOLD);
    assert!(threshold.is_finite());
    assert!(threshold > 1.0);
    assert_eq!(threshold, 13.0);
}

#[test]
fn the_parent_of_a_path_is_as_std_has_it() {
    for path in [
        "", "/", "//", "a", "a/", "/a", "/a/", "a/b", "/a/b", "a//b", "/a//b//", "a/.", "./a",
        "a/./b", ".", "..", "../a", "/.", "a/..", "./.", "/./a",
    ] {
        let expected = std::path::Path::new(path)
            .parent()
            .map(|p| p.to_str().unwrap().as_bytes().to_vec());
        assert_eq!(parent_of(path.as_bytes()), expected, "{path:?}");
    }
}

#[test]
fn homes_and_caches_have_fixed_places() {
    assert_eq!(
        anamnesis_home(Some(b"/home/a"), b"/tmp"),
        b"/home/a/.anamnesis".to_vec()
    );
    assert_eq!(anamnesis_home(None, b"/tmp"), b"/tmp/.anamnesis".to_vec());
    assert_eq!(
        default_db_path(Some(b"/p/memory.db".to_vec()), b"/home/a/.anamnesis"),
        b"/p/memory.db".to_vec()
    );
    assert_eq!(
        model_cache_dir(Some(b"/cache".to_vec()), b"/home/a/.anamnesis"),
        b"/cache".to_vec()
    );
}
