//! The settings of the service: what the environment says, or else a default.
//! Paths are sequences of bytes; numbers that may have a fraction are given by
//! the bits of their double-precision form.

use crate::daemon::{entry_path, join_path};
use crate::extract::text_view;
use crate::text::{lower, lower_text, parse_u64, parse_unsigned, same, trim, trimmed};
use vstd::prelude::*;
use vstd::slice::slice_to_vec;
use vstd::utf8::encode_utf8;

verus! {

/// The bits of the score below which a hook stays silent: 13.0.
pub const DEFAULT_HOOK_THRESHOLD: u64 = 0x402a_0000_0000_0000;

/// The bits of the cosine below which a prompt recalls nothing: 0.86.
pub const DEFAULT_HOOK_COSINE_GATE: u64 = 0x3feb_851e_b851_eb85;

/// The bits of the cosine below which a session is seeded with nothing: 0.80.
pub const DEFAULT_HOOK_SEED_COSINE_GATE: u64 = 0x3fe9_9999_9999_999a;

/// The number of recent turns that join a prompt.
pub const DEFAULT_HOOK_CONTEXT_TURNS: usize = 3;

/// The number of memories that a prompt brings in at most.
pub const DEFAULT_HOOK_TOPK: usize = 3;

/// The number of memories that a session is seeded with.
pub const DEFAULT_HOOK_SEED_K: usize = 5;

/// How long a hook may take, in milliseconds.
pub const DEFAULT_HOOK_TIMEOUT_MS: u64 = 1500;

/// The number of waiting turns that calls for extraction.
pub const DEFAULT_EXTRACT_THRESHOLD_N: usize = 20;

/// The embedding model.
pub const DEFAULT_EMBED_MODEL: &'static str = "multilingual-e5-small";

/// The settings.
#[derive(Debug, Clone)]
pub struct Config {
    pub default_db: Vec<u8>,
    pub default_namespace: String,
    pub reinforce_on_recall: bool,
    pub hook_threshold: u64,
    pub hook_cosine_gate: u64,
    pub hook_seed_cosine_gate: u64,
    pub hook_context_turns: usize,
    pub hook_topk: usize,
    pub hook_seed_k: usize,
    pub hook_timeout_ms: u64,
    pub capture_enabled: bool,
    pub extract_threshold_n: usize,
    pub embed_model: String,
    pub auto_migrate_embeddings: bool,
}

/// What the environment says, variable by variable; nothing where a variable
/// is not set, or is no text. The three numbers with a fraction are given
/// where their variable spells one.
#[derive(Debug)]
pub struct Environment {
    pub db: Option<Vec<u8>>,
    pub namespace: Option<String>,
    pub reinforce: Option<String>,
    pub hook_threshold: Option<u64>,
    pub hook_cosine_gate: Option<u64>,
    pub hook_seed_cosine_gate: Option<u64>,
    pub hook_context_turns: Option<String>,
    pub hook_topk: Option<String>,
    pub hook_seed_k: Option<String>,
    pub hook_timeout_ms: Option<String>,
    pub capture_enabled: Option<String>,
    pub extract_threshold_n: Option<String>,
    pub embed_model: Option<String>,
    pub auto_migrate_embeddings: Option<String>,
}

/// Whether a value leaves something switched on.
pub open spec fn is_on(value: Seq<char>) -> bool {
    let v = lower(trim(value));
    v != "0"@ && v != "false"@ && v != "no"@
}

/// Whether a variable leaves something switched on; it does where it is not
/// set.
pub open spec fn switched_on(variable: Option<Seq<char>>) -> bool {
    match variable {
        Some(value) => is_on(value),
        None => true,
    }
}

/// Whether a value leaves something switched on.
pub fn positive_value_enabled(value: &str) -> (r: bool)
    ensures
        r == is_on(value@),
{
    let t = trimmed(value);
    let v = lower_text(t.as_str());
    !same(v.as_str(), "0") && !same(v.as_str(), "false") && !same(v.as_str(), "no")
}

/// Whether a variable leaves something switched on.
pub fn positive_env_enabled(variable: &Option<String>) -> (r: bool)
    ensures
        r == switched_on(text_view(*variable)),
{
    match variable {
        Some(value) => positive_value_enabled(value.as_str()),
        None => true,
    }
}

/// The number that a variable spells, white space around it aside, or the
/// default.
pub open spec fn setting(variable: Option<Seq<char>>, max: nat, default: nat) -> nat {
    match variable {
        Some(value) => match parse_unsigned(trim(value), max) {
            Some(n) => n,
            None => default,
        },
        None => default,
    }
}

proof fn lemma_parse_narrow(s: Seq<char>, max: nat, wide: nat)
    requires
        max <= wide,
    ensures
        parse_unsigned(s, max) == (match parse_unsigned(s, wide) {
            Some(n) => if n <= max {
                Some(n)
            } else {
                None
            },
            None => None,
        }),
{
}

/// The number that a variable spells, or the default.
pub fn parse_env(variable: &Option<String>, default: u64) -> (r: u64)
    ensures
        r == setting(text_view(*variable), u64::MAX as nat, default as nat),
{
    match variable {
        Some(value) => {
            let t = trimmed(value.as_str());
            match parse_u64(t.as_str()) {
                Some(n) => n,
                None => default,
            }
        },
        None => default,
    }
}

/// The size that a variable spells, or the default.
pub fn parse_env_size(variable: &Option<String>, default: usize) -> (r: usize)
    ensures
        r == setting(text_view(*variable), usize::MAX as nat, default as nat),
{
    match variable {
        Some(value) => {
            let t = trimmed(value.as_str());
            proof {
                lemma_parse_narrow(t@, usize::MAX as nat, u64::MAX as nat);
            }
            match parse_u64(t.as_str()) {
                Some(n) => if n as u128 <= usize::MAX as u128 {
                    n as usize
                } else {
                    default
                },
                None => default,
            }
        },
        None => default,
    }
}

/// The text of a variable without white space around it, or the default where
/// nothing is left.
pub open spec fn text_setting(variable: Option<Seq<char>>, default: Seq<char>) -> Seq<char> {
    match variable {
        Some(value) => if trim(value).len() > 0 {
            trim(value)
        } else {
            default
        },
        None => default,
    }
}

/// The text of a variable, or the default.
pub fn parse_env_string(variable: &Option<String>, default: &str) -> (r: String)
    ensures
        r@ == text_setting(text_view(*variable), default@),
{
    match variable {
        Some(value) => {
            let t = trimmed(value.as_str());
            if t.as_str().is_empty() {
                default.to_owned()
            } else {
                t
            }
        },
        None => default.to_owned(),
    }
}

/// A number that was given, or the default.
pub open spec fn given_or(value: Option<u64>, default: u64) -> u64 {
    match value {
        Some(v) => v,
        None => default,
    }
}

fn number_or(value: Option<u64>, default: u64) -> (r: u64)
    ensures
        r == given_or(value, default),
{
    match value {
        Some(v) => v,
        None => default,
    }
}

/// Where the body of a path begins: after the slash of an absolute one, and
/// after the dot of one that begins in the current directory.
pub open spec fn body_start(p: Seq<u8>) -> int {
    if p.len() > 0 && (p[0] == 0x2f || (p[0] == 0x2e && (p.len() == 1 || p[1] == 0x2f))) {
        1
    } else {
        0
    }
}

/// Where the last part of a path begins, in its body.
pub open spec fn last_part_at(p: Seq<u8>, start: int) -> int
    decreases p.len(),
{
    if p.len() <= start || p.len() == 0 || p.last() == 0x2f {
        p.len() as int
    } else {
        last_part_at(p.drop_last(), start)
    }
}

/// The path without its last part.
pub open spec fn without_last(p: Seq<u8>, start: int) -> Seq<u8> {
    let at = last_part_at(p, start);
    if at > start {
        p.take(at - 1)
    } else {
        p.take(start)
    }
}

/// Whether the last part of a path names something: it is not empty, and not a
/// single dot.
pub open spec fn ends_in_name(p: Seq<u8>, start: int) -> bool {
    let part = p.skip(last_part_at(p, start));
    part.len() > 0 && part != seq![0x2eu8]
}

/// The last part of a path begins in its body.
pub proof fn lemma_last_part_at(p: Seq<u8>, start: int)
    requires
        0 <= start <= p.len(),
    ensures
        start <= last_part_at(p, start) <= p.len(),
    decreases p.len(),
{
    if p.len() > start && p.last() != 0x2f {
        lemma_last_part_at(p.drop_last(), start);
    }
}

/// The path without parts at its end that name nothing.
pub open spec fn trimmed_path(p: Seq<u8>, start: int) -> Seq<u8>
    decreases p.len(),
    when 0 <= start <= p.len()
{
    proof {
        lemma_last_part_at(p, start);
    }
    if p.len() == start || ends_in_name(p, start) {
        p
    } else {
        trimmed_path(without_last(p, start), start)
    }
}

/// The directory that a path lies in; nothing for the root and for the empty
/// path.
pub open spec fn parent_dir(p: Seq<u8>) -> Option<Seq<u8>> {
    let start = body_start(p);
    let q = trimmed_path(p, start);
    if q.len() > start {
        Some(trimmed_path(without_last(q, start), start))
    } else if start == 1 && p[0] == 0x2e {
        Some(Seq::empty())
    } else {
        None
    }
}

proof fn lemma_trimmed_path(p: Seq<u8>, start: int)
    requires
        0 <= start <= p.len(),
    ensures
        start <= trimmed_path(p, start).len() <= p.len(),
        trimmed_path(p, start) == p.take(trimmed_path(p, start).len() as int),
    decreases p.len(),
{
    lemma_last_part_at(p, start);
    if p.len() > start && !ends_in_name(p, start) {
        let q = without_last(p, start);
        lemma_trimmed_path(q, start);
        let n = trimmed_path(q, start).len() as int;
        assert(q.take(n) =~= p.take(n));
    } else {
        assert(p.take(p.len() as int) =~= p);
    }
}

/// The directory that a path lies in has a shorter path.
pub proof fn lemma_parent_shorter(p: Seq<u8>)
    ensures
        parent_dir(p) matches Some(q) ==> q.len() < p.len(),
{
    let start = body_start(p);
    lemma_trimmed_path(p, start);
    let q = trimmed_path(p, start);
    if q.len() > start {
        lemma_last_part_at(q, start);
        lemma_trimmed_path(without_last(q, start), start);
    }
}

fn find_body(p: &[u8]) -> (r: usize)
    ensures
        r == body_start(p@),
        r <= p@.len(),
{
    if p.len() > 0 && (p[0] == 0x2f || (p[0] == 0x2e && (p.len() == 1 || p[1] == 0x2f))) {
        1
    } else {
        0
    }
}

fn find_last_part(p: &[u8], len: usize, start: usize) -> (r: usize)
    requires
        start <= len <= p@.len(),
    ensures
        r == last_part_at(p@.take(len as int), start as int),
        start <= r <= len,
{
    let mut i: usize = len;
    while i > start && p[i - 1] != 0x2f
        invariant
            start <= i <= len <= p@.len(),
            last_part_at(p@.take(len as int), start as int) == last_part_at(
                p@.take(i as int),
                start as int,
            ),
        decreases i,
    {
        proof {
            let here = p@.take(i as int);
            assert(here.drop_last() =~= p@.take(i - 1));
            assert(here.last() == p@[i - 1]);
        }
        i -= 1;
    }
    assert(i > start ==> p@.take(i as int).last() == p@[i - 1]);
    i
}

fn trimmed_len(p: &[u8], len: usize, start: usize) -> (r: usize)
    requires
        start <= len <= p@.len(),
    ensures
        start <= r <= len,
        p@.take(r as int) == trimmed_path(p@.take(len as int), start as int),
{
    let mut n: usize = len;
    loop
        invariant
            start <= n <= len <= p@.len(),
            trimmed_path(p@.take(n as int), start as int) == trimmed_path(
                p@.take(len as int),
                start as int,
            ),
        decreases n,
    {
        if n == start {
            return n;
        }
        let at = find_last_part(p, n, start);
        let ghost here = p@.take(n as int);
        let ghost part = here.skip(at as int);
        if at < n && !(at + 1 == n && p[at] == 0x2e) {
            assert(part.len() > 0);
            assert(part != seq![0x2eu8]) by {
                assert(part[0] == p@[at as int]);
            }
            return n;
        }
        proof {
            if at < n {
                assert(part =~= seq![0x2eu8]);
            }
            assert(!ends_in_name(here, start as int));
            assert(at > start ==> here.take(at - 1) =~= p@.take(at - 1));
            assert(here.take(start as int) =~= p@.take(start as int));
        }
        n = if at > start {
            at - 1
        } else {
            start
        };
    }
}

/// The directory that a path lies in.
pub fn parent_of(p: &[u8]) -> (r: Option<Vec<u8>>)
    ensures
        match r {
            Some(q) => parent_dir(p@) == Some(q@),
            None => parent_dir(p@) is None,
        },
{
    let start = find_body(p);
    assert(p@.take(p@.len() as int) =~= p@);
    let n = trimmed_len(p, p.len(), start);
    if n > start {
        let at = find_last_part(p, n, start);
        let m: usize = if at > start {
            at - 1
        } else {
            start
        };
        let ghost q = p@.take(n as int);
        proof {
            assert(at > start ==> q.take(at - 1) =~= p@.take(at - 1));
            assert(q.take(start as int) =~= p@.take(start as int));
        }
        let k = trimmed_len(p, m, start);
        let out = slice_to_vec(vstd::slice::slice_subrange(p, 0, k));
        assert(out@ =~= p@.take(k as int));
        Some(out)
    } else if start == 1 && p[0] == 0x2e {
        Some(Vec::new())
    } else {
        None
    }
}

/// The name of what a path leads to; nothing for the root, the current
/// directory and the directory above.
pub open spec fn file_name(p: Seq<u8>) -> Option<Seq<u8>> {
    let start = body_start(p);
    let q = trimmed_path(p, start);
    let part = q.skip(last_part_at(q, start));
    if q.len() <= start || part == seq![0x2eu8, 0x2e] {
        None
    } else {
        Some(part)
    }
}

/// The name of what a path leads to.
pub fn file_name_of(p: &[u8]) -> (r: Option<Vec<u8>>)
    ensures
        match r {
            Some(name) => file_name(p@) == Some(name@),
            None => file_name(p@) is None,
        },
{
    let start = find_body(p);
    assert(p@.take(p@.len() as int) =~= p@);
    let n = trimmed_len(p, p.len(), start);
    if n == start {
        return None;
    }
    let at = find_last_part(p, n, start);
    let name = slice_to_vec(vstd::slice::slice_subrange(p, at, n));
    assert(name@ =~= p@.take(n as int).skip(at as int));
    if name.len() == 2 && name[0] == 0x2e && name[1] == 0x2e {
        assert(name@ =~= seq![0x2eu8, 0x2e]);
        return None;
    }
    Some(name)
}

/// A path and the directories that it lies in, from the inside out.
pub open spec fn ancestors(p: Seq<u8>) -> Seq<Seq<u8>>
    decreases p.len(),
{
    proof {
        lemma_parent_shorter(p);
    }
    match parent_dir(p) {
        Some(q) => seq![p] + ancestors(q),
        None => seq![p],
    }
}

/// Paths by their bytes.
pub open spec fn path_views(v: Seq<Vec<u8>>) -> Seq<Seq<u8>> {
    v.map_values(|p: Vec<u8>| p@)
}

/// A path and the directories that it lies in, from the inside out.
pub fn ancestors_of(start: &[u8]) -> (r: Vec<Vec<u8>>)
    ensures
        path_views(r@) == ancestors(start@),
{
    let mut out: Vec<Vec<u8>> = Vec::new();
    let mut here: Vec<u8> = slice_to_vec(start);
    assert(path_views(out@) =~= Seq::<Seq<u8>>::empty());
    assert(path_views(out@) + ancestors(here@) =~= ancestors(start@));
    loop
        invariant
            path_views(out@) + ancestors(here@) == ancestors(start@),
        decreases here@.len(),
    {
        proof {
            lemma_parent_shorter(here@);
        }
        let up = parent_of(here.as_slice());
        let ghost before = out@;
        let ghost path = here@;
        match up {
            Some(q) => {
                out.push(here);
                assert(path_views(out@) =~= path_views(before).push(path));
                assert(path_views(out@) + ancestors(q@) =~= path_views(before) + (seq![path]
                    + ancestors(q@)));
                here = q;
            },
            None => {
                out.push(here);
                assert(path_views(out@) =~= path_views(before) + seq![path]);
                return out;
            },
        }
    }
}

/// The database of a project whose directory is given.
pub open spec fn project_db(dir: Seq<u8>) -> Seq<u8> {
    entry_path(entry_path(dir, encode_utf8(".anamnesis"@)), encode_utf8("memory.db"@))
}

/// The database of the first directory that is marked as a project.
pub fn resolve_project_db(dirs: &Vec<Vec<u8>>, marked: &Vec<bool>) -> (r: Option<Vec<u8>>)
    requires
        dirs@.len() == marked@.len(),
    ensures
        match r {
            Some(db) => exists|i: int|
                0 <= i < marked@.len() && #[trigger] marked@[i] && db@ == project_db(dirs@[i]@) && (
                forall|j: int| 0 <= j < i ==> !#[trigger] marked@[j]),
            None => forall|j: int| 0 <= j < marked@.len() ==> !#[trigger] marked@[j],
        },
{
    let mut i: usize = 0;
    while i < marked.len()
        invariant
            0 <= i <= marked@.len() == dirs@.len(),
            forall|j: int| 0 <= j < i ==> !#[trigger] marked@[j],
        decreases marked@.len() - i,
    {
        if marked[i] {
            let home = join_path(dirs[i].as_slice(), ".anamnesis");
            let db = join_path(home.as_slice(), "memory.db");
            assert(db@ == project_db(dirs@[i as int]@));
            return Some(db);
        }
        i += 1;
    }
    None
}

/// The directory in which the service keeps its files: under the user's home,
/// or under the directory for temporary files where there is no home.
pub fn anamnesis_home(home: Option<&[u8]>, temp: &[u8]) -> (r: Vec<u8>)
    ensures
        r@ == (match home {
            Some(h) => entry_path(h@, encode_utf8(".anamnesis"@)),
            None => entry_path(temp@, encode_utf8(".anamnesis"@)),
        }),
{
    match home {
        Some(h) => join_path(h, ".anamnesis"),
        None => join_path(temp, ".anamnesis"),
    }
}

/// The database where none is set: that of the project, or else the one in the
/// directory of the service.
pub fn default_db_path(project: Option<Vec<u8>>, home: &[u8]) -> (r: Vec<u8>)
    ensures
        r@ == (match project {
            Some(p) => p@,
            None => entry_path(home@, encode_utf8("memory.db"@)),
        }),
{
    match project {
        Some(p) => p,
        None => join_path(home, "memory.db"),
    }
}

/// The directory of the embedding models: the one that is set, or else the one
/// in the directory of the service.
pub fn model_cache_dir(set: Option<Vec<u8>>, home: &[u8]) -> (r: Vec<u8>)
    ensures
        r@ == (match set {
            Some(dir) => dir@,
            None => entry_path(home@, encode_utf8("models"@)),
        }),
{
    match set {
        Some(dir) => dir,
        None => join_path(home, "models"),
    }
}

/// Whether settings are what an environment says, where `default_db` is the
/// database to take where none is set.
pub open spec fn resolved(config: Config, env: Environment, default_db: Vec<u8>) -> bool {
    let size = usize::MAX as nat;
    &&& config.default_db@ == (match env.db {
        Some(db) => db@,
        None => default_db@,
    })
    &&& config.default_namespace@ == (match env.namespace {
        Some(n) => n@,
        None => "default"@,
    })
    &&& config.reinforce_on_recall == switched_on(text_view(env.reinforce))
    &&& config.hook_threshold == given_or(env.hook_threshold, DEFAULT_HOOK_THRESHOLD)
    &&& config.hook_cosine_gate == given_or(env.hook_cosine_gate, DEFAULT_HOOK_COSINE_GATE)
    &&& config.hook_seed_cosine_gate == given_or(
        env.hook_seed_cosine_gate,
        DEFAULT_HOOK_SEED_COSINE_GATE,
    )
    &&& config.hook_context_turns == setting(
        text_view(env.hook_context_turns),
        size,
        DEFAULT_HOOK_CONTEXT_TURNS as nat,
    )
    &&& config.hook_topk == setting(text_view(env.hook_topk), size, DEFAULT_HOOK_TOPK as nat)
    &&& config.hook_seed_k == setting(text_view(env.hook_seed_k), size, DEFAULT_HOOK_SEED_K as nat)
    &&& config.hook_timeout_ms == setting(
        text_view(env.hook_timeout_ms),
        u64::MAX as nat,
        DEFAULT_HOOK_TIMEOUT_MS as nat,
    )
    &&& config.capture_enabled == switched_on(text_view(env.capture_enabled))
    &&& config.extract_threshold_n == setting(
        text_view(env.extract_threshold_n),
        size,
        DEFAULT_EXTRACT_THRESHOLD_N as nat,
    )
    &&& config.embed_model@ == text_setting(text_view(env.embed_model), DEFAULT_EMBED_MODEL@)
    &&& config.auto_migrate_embeddings == switched_on(text_view(env.auto_migrate_embeddings))
}

/// Whether a value says no: `0`, `false` or `no`, in letters of either case, with
/// white space around it or without.
pub open spec fn is_no(value: Seq<char>) -> bool {
    lower(trim(value)) == "0"@ || lower(trim(value)) == "false"@ || lower(trim(value)) == "no"@
}

/// Each setting is the one that its own variable gives. Without a variable, or
/// where a variable spells no number, it is the documented default; what can be
/// switched off is switched on unless its variable says no.
pub proof fn settings_come_from_their_own_variable(
    config: Config,
    env: Environment,
    default_db: Vec<u8>,
)
    requires
        resolved(config, env, default_db),
    ensures
        env.db matches Some(db) ==> config.default_db@ == db@,
        env.db is None ==> config.default_db@ == default_db@,
        env.namespace matches Some(n) ==> config.default_namespace@ == n@,
        env.namespace is None ==> config.default_namespace@ == "default"@,
        env.reinforce is None ==> config.reinforce_on_recall,
        env.reinforce matches Some(v) ==> (config.reinforce_on_recall <==> !is_no(v@)),
        env.capture_enabled is None ==> config.capture_enabled,
        env.capture_enabled matches Some(v) ==> (config.capture_enabled <==> !is_no(v@)),
        env.auto_migrate_embeddings is None ==> config.auto_migrate_embeddings,
        env.auto_migrate_embeddings matches Some(v) ==> (config.auto_migrate_embeddings <==> !is_no(v@)),
        env.hook_threshold is None ==> config.hook_threshold == 0x402a_0000_0000_0000,
        env.hook_threshold matches Some(v) ==> config.hook_threshold == v,
        env.hook_cosine_gate is None ==> config.hook_cosine_gate == 0x3feb_851e_b851_eb85,
        env.hook_cosine_gate matches Some(v) ==> config.hook_cosine_gate == v,
        env.hook_seed_cosine_gate is None ==> config.hook_seed_cosine_gate == 0x3fe9_9999_9999_999a,
        env.hook_seed_cosine_gate matches Some(v) ==> config.hook_seed_cosine_gate == v,
        env.hook_context_turns is None ==> config.hook_context_turns == 3,
        env.hook_context_turns matches Some(v) ==> match parse_unsigned(trim(v@), usize::MAX as nat) {
            Some(n) => config.hook_context_turns == n,
            None => config.hook_context_turns == 3,
        },
        env.hook_topk is None ==> config.hook_topk == 3,
        env.hook_topk matches Some(v) ==> match parse_unsigned(trim(v@), usize::MAX as nat) {
            Some(n) => config.hook_topk == n,
            None => config.hook_topk == 3,
        },
        env.hook_seed_k is None ==> config.hook_seed_k == 5,
        env.hook_seed_k matches Some(v) ==> match parse_unsigned(trim(v@), usize::MAX as nat) {
            Some(n) => config.hook_seed_k == n,
            None => config.hook_seed_k == 5,
        },
        env.hook_timeout_ms is None ==> config.hook_timeout_ms == 1500,
        env.hook_timeout_ms matches Some(v) ==> match parse_unsigned(trim(v@), u64::MAX as nat) {
            Some(n) => config.hook_timeout_ms == n,
            None => config.hook_timeout_ms == 1500,
        },
        env.extract_threshold_n is None ==> config.extract_threshold_n == 20,
        env.extract_threshold_n matches Some(v) ==> match parse_unsigned(trim(v@), usize::MAX as nat) {
            Some(n) => config.extract_threshold_n == n,
            None => config.extract_threshold_n == 20,
        },
        env.embed_model is None ==> config.embed_model@ == "multilingual-e5-small"@,
        env.embed_model matches Some(v) ==> config.embed_model@ == (if trim(v@).len() > 0 {
            trim(v@)
        } else {
            "multilingual-e5-small"@
        }),
{
}

/// A project keeps its database in a directory of its own below it.
pub proof fn projects_keep_their_database_below_them(dir: Seq<u8>)
    requires
        dir.len() > 0,
        dir.last() != 0x2f,
    ensures
        project_db(dir) == dir + encode_utf8("/.anamnesis/memory.db"@),
{
    reveal_strlit(".anamnesis");
    reveal_strlit("memory.db");
    reveal_strlit("/.anamnesis/memory.db");
    vstd::utf8::is_ascii_chars_encode_utf8(".anamnesis"@);
    vstd::utf8::is_ascii_chars_encode_utf8("memory.db"@);
    vstd::utf8::is_ascii_chars_encode_utf8("/.anamnesis/memory.db"@);
    let home = encode_utf8(".anamnesis"@);
    assert(home.len() == 10 && home[9] == 's' as u8);
    assert(entry_path(dir, home).last() == home[9]);
    assert(project_db(dir) =~= dir + encode_utf8("/.anamnesis/memory.db"@));
}

impl Config {
    /// Reads the settings off the environment.
    pub fn from_env(env: Environment, default_db: Vec<u8>) -> (r: Self)
        ensures
            resolved(r, env, default_db),
    {
        Config {
            reinforce_on_recall: positive_env_enabled(&env.reinforce),
            hook_threshold: number_or(env.hook_threshold, DEFAULT_HOOK_THRESHOLD),
            hook_cosine_gate: number_or(env.hook_cosine_gate, DEFAULT_HOOK_COSINE_GATE),
            hook_seed_cosine_gate: number_or(
                env.hook_seed_cosine_gate,
                DEFAULT_HOOK_SEED_COSINE_GATE,
            ),
            hook_context_turns: parse_env_size(&env.hook_context_turns, DEFAULT_HOOK_CONTEXT_TURNS),
            hook_topk: parse_env_size(&env.hook_topk, DEFAULT_HOOK_TOPK),
            hook_seed_k: parse_env_size(&env.hook_seed_k, DEFAULT_HOOK_SEED_K),
            hook_timeout_ms: parse_env(&env.hook_timeout_ms, DEFAULT_HOOK_TIMEOUT_MS),
            capture_enabled: positive_env_enabled(&env.capture_enabled),
            extract_threshold_n: parse_env_size(
                &env.extract_threshold_n,
                DEFAULT_EXTRACT_THRESHOLD_N,
            ),
            embed_model: parse_env_string(&env.embed_model, DEFAULT_EMBED_MODEL),
            auto_migrate_embeddings: positive_env_enabled(&env.auto_migrate_embeddings),
            default_namespace: match env.namespace {
                Some(n) => n,
                None => "default".to_owned(),
            },
            default_db: match env.db {
                Some(db) => db,
                None => default_db,
            },
        }
    }

    /// The directory of the databases: that of the default one, or the current
    /// one where its path names none.
    pub fn db_dir(&self) -> (r: Vec<u8>)
        ensures
            r@ == (match parent_dir(self.default_db@) {
                Some(dir) => if dir.len() > 0 {
                    dir
                } else {
                    seq![0x2eu8]
                },
                None => seq![0x2eu8],
            }),
    {
        let mut here: Vec<u8> = Vec::new();
        here.push(0x2e);
        assert(here@ =~= seq![0x2eu8]);
        match parent_of(self.default_db.as_slice()) {
            Some(dir) => if dir.len() > 0 {
                dir
            } else {
                here
            },
            None => here,
        }
    }
}

proof fn lemma_entry_part(dir: Seq<u8>, name: Seq<u8>, start: int)
    requires
        0 <= start <= dir.len(),
        !name.contains(0x2f),
    ensures
        last_part_at(dir + seq![0x2fu8] + name, start) == dir.len() + 1,
    decreases name.len(),
{
    let p = dir + seq![0x2fu8] + name;
    if name.len() == 0 {
        assert(p.last() == 0x2f);
    } else {
        assert(p.last() == name.last());
        assert(name.contains(name.last()));
        assert(p.drop_last() =~= dir + seq![0x2fu8] + name.drop_last());
        assert(!name.drop_last().contains(0x2f)) by {
            assert forall|i: int| 0 <= i < name.drop_last().len() implies name.drop_last()[i]
                != 0x2f by {
                assert(name.contains(name[i]));
            }
        }
        lemma_entry_part(dir, name.drop_last(), start);
    }
}

/// An entry of a directory is found in it under its name: its path leads back to
/// the directory and to the name. The path of the directory ends in neither a
/// slash nor a dot.
pub proof fn entries_are_found_in_their_directory(dir: Seq<u8>, name: Seq<u8>)
    requires
        dir.len() > 0,
        dir.last() != 0x2f,
        dir.last() != 0x2e,
        name.len() > 0,
        !name.contains(0x2f),
        name != seq![0x2eu8],
        name != seq![0x2eu8, 0x2e],
    ensures
        parent_dir(dir + seq![0x2fu8] + name) == Some(dir),
        file_name(dir + seq![0x2fu8] + name) == Some(name),
{
    let p = dir + seq![0x2fu8] + name;
    let start = body_start(p);
    assert(p[0] == dir[0]);
    assert(dir.len() > 1 ==> p[1] == dir[1]);
    assert(dir.last() == dir[dir.len() - 1]);
    assert(start == body_start(dir) && start < dir.len());
    lemma_entry_part(dir, name, start);
    assert(p.skip(dir.len() as int + 1) =~= name);
    assert(trimmed_path(p, start) == p);
    assert(without_last(p, start) =~= dir);
    lemma_last_part_at(dir.drop_last(), start);
    let part = dir.skip(last_part_at(dir, start));
    assert(part.last() == dir.last());
    assert(part != seq![0x2eu8]);
    assert(trimmed_path(dir, start) == dir);
}

/// The directories that a path lies in are listed from the inside out: the path
/// itself, then each time the directory of the one before, up to one that lies in
/// no other.
pub proof fn directories_are_listed_from_the_inside_out(p: Seq<u8>)
    ensures
        ancestors(p).len() > 0,
        ancestors(p)[0] == p,
        forall|i: int|
            0 <= i < ancestors(p).len() - 1 ==> parent_dir(#[trigger] ancestors(p)[i]) == Some(
                ancestors(p)[i + 1],
            ),
        parent_dir(ancestors(p).last()) is None,
    decreases p.len(),
{
    if let Some(q) = parent_dir(p) {
        lemma_parent_shorter(p);
        directories_are_listed_from_the_inside_out(q);
        let all = ancestors(p);
        let rest = ancestors(q);
        assert(all == seq![p] + rest);
        assert(all.last() == rest.last());
        assert forall|i: int| 0 <= i < all.len() - 1 implies parent_dir(#[trigger] all[i]) == Some(
            all[i + 1],
        ) by {
            assert(all[i + 1] == rest[i]);
            if i > 0 {
                assert(all[i] == rest[i - 1]);
            }
        }
    }
}

/// A slash at the end of a path changes nothing, nor does a dot after it.
pub proof fn slashes_and_dots_at_the_end_change_nothing(p: Seq<u8>)
    requires
        p.len() > 0,
    ensures
        parent_dir(p + seq![0x2fu8]) == parent_dir(p),
        file_name(p + seq![0x2fu8]) == file_name(p),
        parent_dir(p + seq![0x2fu8, 0x2e]) == parent_dir(p),
        file_name(p + seq![0x2fu8, 0x2e]) == file_name(p),
{
    let a = p + seq![0x2fu8];
    let b = p + seq![0x2fu8, 0x2e];
    let start = body_start(p);
    assert(a[0] == p[0] && b[0] == p[0]);
    assert(p.len() > 1 ==> a[1] == p[1] && b[1] == p[1]);
    assert(p.len() == 1 ==> a[1] == 0x2f && b[1] == 0x2f);
    assert(body_start(a) == start && body_start(b) == start);
    assert(a.last() == 0x2f);
    assert(a.skip(a.len() as int).len() == 0);
    assert(without_last(a, start) =~= p);
    assert(b.last() == 0x2e && b.drop_last() =~= a);
    assert(last_part_at(b, start) == p.len() + 1);
    assert(b.skip(p.len() as int + 1) =~= seq![0x2eu8]);
    assert(without_last(b, start) =~= p);
}

/// Paths are listed one for one, in their order.
pub proof fn paths_are_listed_in_order(v: Seq<Vec<u8>>, i: int)
    ensures
        path_views(v).len() == v.len(),
        0 <= i < v.len() ==> path_views(v)[i] == v[i]@,
{
}

}
