//! The rules of the shared daemon: the socket it listens on, when a socket
//! left behind may be taken over, and when an idle daemon may leave.

use crate::config::{file_name, file_name_of, parent_dir, parent_of};
use crate::outside::hex_char;
use crate::text::{
    chars_of, is_white_space, lower_char, lowered, parse_u64, parse_unsigned, text_of, trim, trimmed,
};
use vstd::prelude::*;
use vstd::string::StringExecFns;
use vstd::utf8::encode_utf8;

verus! {

/// The room a socket path has in the address that the kernel takes, on the
/// platform that gives least, including the closing zero byte.
pub const SUN_PATH_MAX: usize = 104;

/// The longest socket path.
pub const SOCKET_PATH_BUDGET: usize = 103;

/// Whether `c` may stand in a file name as it is.
pub open spec fn is_name_char(c: char) -> bool {
    'a' <= c <= 'z' || 'A' <= c <= 'Z' || '0' <= c <= '9' || c == '-' || c == '_'
}

/// What a character becomes in a safe file name: a small letter, a digit, a
/// hyphen or an underscore.
pub open spec fn name_char(c: char) -> char {
    if is_name_char(c) {
        lower_char(c)
    } else {
        '-'
    }
}

/// The safe file name made of a text; never empty.
pub open spec fn sanitized(s: Seq<char>) -> Seq<char> {
    if trim(s).len() == 0 {
        "memory"@
    } else {
        trim(s).map_values(|c: char| name_char(c))
    }
}

/// Whether `s` is a safe file name: not empty, and made of small letters,
/// digits, hyphens and underscores.
pub open spec fn is_safe_name(s: Seq<char>) -> bool {
    s.len() > 0 && forall|i: int|
        0 <= i < s.len() ==> is_name_char(#[trigger] s[i]) && lower_char(s[i]) == s[i]
}

/// Makes a safe file name of a text.
pub fn sanitize_stem(s: &str) -> (r: String)
    ensures
        r@ == sanitized(s@),
        is_safe_name(r@),
{
    let t = trimmed(s);
    let v = chars_of(t.as_str());
    let mut out = String::new();
    let mut i: usize = 0;
    while i < v.len()
        invariant
            v@ == trim(s@),
            0 <= i <= v@.len(),
            out@ == v@.take(i as int).map_values(|c: char| name_char(c)),
        decreases v@.len() - i,
    {
        let c = v[i];
        if ('a' <= c && c <= 'z') || ('A' <= c && c <= 'Z') || ('0' <= c && c <= '9') || c == '-' || c
            == '_' {
            out.push(lowered(c));
        } else {
            out.push('-');
        }
        assert(v@.take(i + 1).map_values(|c: char| name_char(c)) =~= v@.take(
            i as int,
        ).map_values(|c: char| name_char(c)).push(name_char(c)));
        i += 1;
    }
    assert(v@.take(i as int) =~= v@);
    proof {
        sanitized_is_safe(s@);
    }
    if v.len() == 0 {
        "memory".to_owned()
    } else {
        out
    }
}

/// A safe file name is what every text is made into.
pub proof fn sanitized_is_safe(s: Seq<char>)
    ensures
        is_safe_name(sanitized(s)),
{
    reveal_strlit("memory");
    let t = trim(s);
    let n = sanitized(s);
    if t.len() > 0 {
        assert forall|i: int| 0 <= i < n.len() implies is_name_char(#[trigger] n[i]) && lower_char(n[i])
            == n[i] by {
            assert(n[i] == name_char(t[i]));
        }
    }
}

/// A safe file name is left as it is.
pub proof fn sanitizing_keeps_safe_names(s: Seq<char>)
    requires
        is_safe_name(s),
    ensures
        sanitized(s) == s,
{
    assert(is_name_char(s[0]) && is_name_char(s[s.len() - 1]));
    assert(!is_white_space(s[0]) && !is_white_space(s[s.len() - 1]));
    assert(trim(s) == s);
    assert(sanitized(s) =~= s) by {
        assert forall|i: int| 0 <= i < s.len() implies name_char(s[i]) == s[i] by {
            assert(is_name_char(s[i]));
        }
    }
}

/// Making a safe name twice is making it once.
pub proof fn sanitizing_is_idempotent(s: Seq<char>)
    ensures
        sanitized(sanitized(s)) == sanitized(s),
{
    sanitized_is_safe(s);
    sanitizing_keeps_safe_names(sanitized(s));
}

/// A name is made of what is left of a text without the white space around it,
/// character by character: small letters, digits, hyphens and underscores stay,
/// capital letters become small, and anything else becomes a hyphen. Where
/// nothing is left the name is `memory`.
pub proof fn names_are_made_character_by_character(s: Seq<char>, i: int)
    ensures
        trim(s).len() == 0 ==> sanitized(s) == "memory"@,
        trim(s).len() > 0 ==> sanitized(s).len() == trim(s).len(),
        0 <= i < trim(s).len() ==> {
            let c = trim(s)[i];
            let n = sanitized(s)[i];
            &&& 'a' <= c <= 'z' || '0' <= c <= '9' || c == '-' || c == '_' ==> n == c
            &&& 'A' <= c <= 'Z' ==> n as int == c as int + 32
            &&& !('a' <= c <= 'z' || 'A' <= c <= 'Z' || '0' <= c <= '9' || c == '-' || c == '_')
                ==> n == '-'
        },
{
}

/// The `k` low hexadecimal digits of `n`, highest first.
pub open spec fn hex_digits(n: nat, k: nat) -> Seq<char>
    decreases k,
{
    if k == 0 {
        Seq::empty()
    } else {
        hex_digits(n / 16, (k - 1) as nat).push(hex_char(n % 16))
    }
}

fn hex_digit(d: u64) -> (c: char)
    requires
        d < 16,
    ensures
        c == hex_char(d as nat),
{
    if d < 10 {
        (48 + d as u8) as char
    } else {
        (87 + d as u8) as char
    }
}

fn push_hex(out: &mut String, n: u64, k: u32)
    ensures
        final(out)@ == old(out)@ + hex_digits(n as nat, k as nat),
    decreases k,
{
    if k > 0 {
        push_hex(out, n / 16, k - 1);
        out.push(hex_digit(n % 16));
    }
    assert(out@ =~= old(out)@ + hex_digits(n as nat, k as nat));
}

/// The path of the entry `name` in the directory `dir`.
pub open spec fn entry_path(dir: Seq<u8>, name: Seq<u8>) -> Seq<u8> {
    if dir.len() == 0 || dir.last() == 0x2f {
        dir + name
    } else {
        dir.push(0x2f) + name
    }
}

/// The path of an entry of a directory, by the bytes of its name.
pub fn join_bytes(dir: &[u8], name: &[u8]) -> (r: Vec<u8>)
    ensures
        r@ == entry_path(dir@, name@),
{
    let mut out: Vec<u8> = Vec::new();
    let mut i: usize = 0;
    while i < dir.len()
        invariant
            0 <= i <= dir@.len(),
            out@ == dir@.take(i as int),
        decreases dir@.len() - i,
    {
        out.push(dir[i]);
        i += 1;
    }
    assert(dir@.take(i as int) =~= dir@);
    if dir.len() > 0 && dir[dir.len() - 1] != 0x2f {
        out.push(0x2f);
    }
    let ghost base = out@;
    let mut j: usize = 0;
    while j < name.len()
        invariant
            0 <= j <= name@.len(),
            out@ == base + name@.take(j as int),
        decreases name@.len() - j,
    {
        out.push(name[j]);
        assert(name@.take(j + 1) =~= name@.take(j as int).push(name@[j as int]));
        j += 1;
    }
    assert(name@.take(j as int) =~= name@);
    out
}

/// The path of an entry of a directory.
pub fn join_path(dir: &[u8], name: &str) -> (r: Vec<u8>)
    ensures
        r@ == entry_path(dir@, encode_utf8(name@)),
{
    join_bytes(dir, name.as_bytes())
}

/// The stem of the socket's name: that of the database, made safe.
pub open spec fn socket_stem(stem: Option<Seq<char>>) -> Seq<char> {
    sanitized(match stem {
        Some(s) => s,
        None => "memory"@,
    })
}

/// The socket beside the database.
pub open spec fn sibling_path(dir: Seq<u8>, stem: Option<Seq<char>>) -> Seq<u8> {
    entry_path(dir, encode_utf8(socket_stem(stem) + ".sock"@))
}

/// The first characters of a text.
pub open spec fn first_chars(s: Seq<char>, n: int) -> Seq<char> {
    if s.len() <= n {
        s
    } else {
        s.take(n)
    }
}

/// The socket in the runtime directory, told apart by a hash of the whole
/// database path.
pub open spec fn hashed_path(runtime: Seq<u8>, stem: Option<Seq<char>>, hash: nat) -> Seq<u8> {
    entry_path(
        runtime,
        encode_utf8(
            "anamnesis-"@ + first_chars(socket_stem(stem), 16) + "-"@ + hex_digits(hash, 16)
                + ".sock"@,
        ),
    )
}

/// The socket in the directory for temporary files.
pub open spec fn temp_path(temp: Seq<u8>, hash: nat) -> Seq<u8> {
    entry_path(temp, encode_utf8("anamnesis-"@ + hex_digits(hash, 16) + ".sock"@))
}

/// The socket beside the database, where its path is short enough.
pub fn sibling_socket(dir: &[u8], stem: Option<&str>) -> (r: Option<Vec<u8>>)
    ensures
        ({
            let path = sibling_path(dir@, match stem {
                Some(s) => Some(s@),
                None => None,
            });
            match r {
                Some(p) => p@ == path && path.len() <= SOCKET_PATH_BUDGET,
                None => path.len() > SOCKET_PATH_BUDGET,
            }
        }),
{
    let safe = match stem {
        Some(s) => sanitize_stem(s),
        None => sanitize_stem("memory"),
    };
    let mut name = safe;
    name.append(".sock");
    let path = join_path(dir, name.as_str());
    if path.len() <= SOCKET_PATH_BUDGET {
        Some(path)
    } else {
        None
    }
}

/// The socket elsewhere, for a database whose own directory has too long a
/// path: in the runtime directory, or else in the one for temporary files.
pub fn fallback_socket(stem: Option<&str>, hash: u64, runtime: &[u8], temp: &[u8]) -> (r: Option<
    Vec<u8>,
>)
    ensures
        ({
            let hashed = hashed_path(
                runtime@,
                match stem {
                    Some(s) => Some(s@),
                    None => None,
                },
                hash as nat,
            );
            let last = temp_path(temp@, hash as nat);
            match r {
                Some(p) => p@.len() <= SOCKET_PATH_BUDGET && p@ == (if hashed.len()
                    <= SOCKET_PATH_BUDGET {
                    hashed
                } else {
                    last
                }),
                None => hashed.len() > SOCKET_PATH_BUDGET && last.len() > SOCKET_PATH_BUDGET,
            }
        }),
{
    let safe = match stem {
        Some(s) => sanitize_stem(s),
        None => sanitize_stem("memory"),
    };
    let v = chars_of(safe.as_str());
    let cut: usize = if v.len() <= 16 {
        v.len()
    } else {
        16
    };
    let prefix = text_of(&v, 0, cut);
    assert(prefix@ =~= first_chars(safe@, 16));
    let mut name = "anamnesis-".to_owned();
    name.append(prefix.as_str());
    name.append("-");
    push_hex(&mut name, hash, 16);
    name.append(".sock");
    let hashed = join_path(runtime, name.as_str());
    if hashed.len() <= SOCKET_PATH_BUDGET {
        return Some(hashed);
    }
    let mut plain = "anamnesis-".to_owned();
    push_hex(&mut plain, hash, 16);
    plain.append(".sock");
    let last = join_path(temp, plain.as_str());
    if last.len() <= SOCKET_PATH_BUDGET {
        Some(last)
    } else {
        None
    }
}

/// The socket of a database: beside it where the path is short enough, else
/// under a hashed name. No path where even that is too long.
pub open spec fn socket_path(
    dir: Seq<u8>,
    stem: Option<Seq<char>>,
    hash: nat,
    runtime: Seq<u8>,
    temp: Seq<u8>,
) -> Option<Seq<u8>> {
    if sibling_path(dir, stem).len() <= SOCKET_PATH_BUDGET {
        Some(sibling_path(dir, stem))
    } else if hashed_path(runtime, stem, hash).len() <= SOCKET_PATH_BUDGET {
        Some(hashed_path(runtime, stem, hash))
    } else if temp_path(temp, hash).len() <= SOCKET_PATH_BUDGET {
        Some(temp_path(temp, hash))
    } else {
        None
    }
}

/// Finds the socket of the database with the given stem in the directory
/// `dir`; `hash` is a hash of the whole database path.
pub fn socket_path_for_db(
    dir: &[u8],
    stem: Option<&str>,
    hash: u64,
    runtime: &[u8],
    temp: &[u8],
) -> (r: Option<Vec<u8>>)
    ensures
        ({
            let path = socket_path(
                dir@,
                match stem {
                    Some(s) => Some(s@),
                    None => None,
                },
                hash as nat,
                runtime@,
                temp@,
            );
            match r {
                Some(p) => path == Some(p@),
                None => path is None,
            }
        }),
{
    match sibling_socket(dir, stem) {
        Some(p) => Some(p),
        None => fallback_socket(stem, hash, runtime, temp),
    }
}

/// Whatever path a daemon is given, it fits the address the kernel takes.
pub proof fn socket_path_fits(
    dir: Seq<u8>,
    stem: Option<Seq<char>>,
    hash: nat,
    runtime: Seq<u8>,
    temp: Seq<u8>,
)
    ensures
        socket_path(dir, stem, hash, runtime, temp) matches Some(p) ==> p.len() < SUN_PATH_MAX,
{
}

/// The socket stands beside the database, under the database's name, wherever
/// that path is short enough; else it stands in the runtime directory, under the
/// beginning of the name and the hash of the whole path; else in the directory
/// for temporary files, under the hash alone; and where no path is short enough
/// there is none.
pub proof fn sockets_stand_where_their_path_fits(
    dir: Seq<u8>,
    stem: Option<Seq<char>>,
    hash: nat,
    runtime: Seq<u8>,
    temp: Seq<u8>,
)
    ensures
        ({
            let name = sanitized(if stem is Some {
                stem->0
            } else {
                "memory"@
            });
            let start = if name.len() <= 16 {
                name
            } else {
                name.take(16)
            };
            let beside = entry_path(dir, encode_utf8(name + ".sock"@));
            let hashed = entry_path(
                runtime,
                encode_utf8("anamnesis-"@ + start + "-"@ + hex_digits(hash, 16) + ".sock"@),
            );
            let last = entry_path(
                temp,
                encode_utf8("anamnesis-"@ + hex_digits(hash, 16) + ".sock"@),
            );
            &&& beside.len() <= 103 ==> socket_path(dir, stem, hash, runtime, temp) == Some(beside)
            &&& beside.len() > 103 && hashed.len() <= 103 ==> socket_path(
                dir,
                stem,
                hash,
                runtime,
                temp,
            ) == Some(hashed)
            &&& beside.len() > 103 && hashed.len() > 103 && last.len() <= 103 ==> socket_path(
                dir,
                stem,
                hash,
                runtime,
                temp,
            ) == Some(last)
            &&& beside.len() > 103 && hashed.len() > 103 && last.len() > 103 ==> socket_path(
                dir,
                stem,
                hash,
                runtime,
                temp,
            ) is None
        }),
{
}

proof fn lemma_hex_digits(m: nat, n: nat, k: nat)
    requires
        hex_digits(m, k) == hex_digits(n, k),
        k > 0,
    ensures
        m % 16 == n % 16,
        hex_digits(m / 16, (k - 1) as nat) == hex_digits(n / 16, (k - 1) as nat),
{
    let a = hex_digits(m, k);
    let b = hex_digits(n, k);
    assert(a.last() == hex_char(m % 16) && b.last() == hex_char(n % 16));
    assert(a.drop_last() =~= hex_digits(m / 16, (k - 1) as nat));
    assert(b.drop_last() =~= hex_digits(n / 16, (k - 1) as nat));
}

/// Different hashes are written differently: the digits tell the number, up to
/// as many as are written.
pub proof fn digits_tell_hashes_apart(m: nat, n: nat, k: nat, bound: nat)
    requires
        m < bound,
        n < bound,
        bound <= vstd::arithmetic::power::pow(16, k),
        hex_digits(m, k) == hex_digits(n, k),
    ensures
        m == n,
    decreases k,
{
    if k == 0 {
        vstd::arithmetic::power::lemma_pow0(16);
    } else {
        lemma_hex_digits(m, n, k);
        reveal(vstd::arithmetic::power::pow);
        let top = vstd::arithmetic::power::pow(16, (k - 1) as nat);
        assert(vstd::arithmetic::power::pow(16, k) == 16 * top);
        assert(m / 16 < top && n / 16 < top);
        digits_tell_hashes_apart(m / 16, n / 16, (k - 1) as nat, top as nat);
    }
}

/// The path of an entry is that of its directory, one slash, and its name.
pub proof fn entries_lie_below_their_directory(dir: Seq<u8>, name: Seq<u8>)
    ensures
        dir.len() == 0 ==> entry_path(dir, name) == name,
        dir.len() > 0 && dir.last() != 0x2f ==> entry_path(dir, name) == dir + seq![0x2fu8] + name,
        dir.len() > 0 && dir.last() == 0x2f ==> entry_path(dir, name) == dir + name,
{
    assert(dir.len() == 0 ==> entry_path(dir, name) =~= name);
    assert(dir.push(0x2f) + name =~= dir + seq![0x2fu8] + name);
}

/// Two spellings of the stem of one database name one socket.
pub proof fn socket_ignores_spelling(
    dir: Seq<u8>,
    stem1: Seq<char>,
    stem2: Seq<char>,
    hash: nat,
    runtime: Seq<u8>,
    temp: Seq<u8>,
)
    requires
        sanitized(stem1) == sanitized(stem2),
    ensures
        socket_path(dir, Some(stem1), hash, runtime, temp) == socket_path(
            dir,
            Some(stem2),
            hash,
            runtime,
            temp,
        ),
{
}

/// The place of the last dot in a name, or -1.
pub open spec fn last_dot(name: Seq<u8>) -> int
    decreases name.len(),
{
    if name.len() == 0 {
        -1
    } else if name.last() == 0x2e {
        name.len() - 1
    } else {
        last_dot(name.drop_last())
    }
}

/// A file name without its extension. A dot at the beginning begins no
/// extension.
pub open spec fn name_stem(name: Seq<u8>) -> Seq<u8> {
    if last_dot(name) > 0 {
        name.take(last_dot(name))
    } else {
        name
    }
}

fn stem_of(name: Vec<u8>) -> (r: Vec<u8>)
    ensures
        r@ == name_stem(name@),
{
    let mut i: usize = name.len();
    assert(name@.take(i as int) =~= name@);
    while i > 0 && name[i - 1] != 0x2e
        invariant
            0 <= i <= name@.len(),
            last_dot(name@.take(i as int)) == last_dot(name@),
        decreases i,
    {
        proof {
            let here = name@.take(i as int);
            assert(here.drop_last() =~= name@.take(i - 1));
            assert(here.last() == name@[i - 1]);
        }
        i -= 1;
    }
    assert(i > 0 ==> name@.take(i as int).last() == name@[i - 1]);
    if i > 1 {
        let stem = vstd::slice::slice_to_vec(
            vstd::slice::slice_subrange(name.as_slice(), 0, i - 1),
        );
        assert(stem@ =~= name@.take(i - 1));
        stem
    } else {
        name
    }
}

/// The directory of a database, and its name without its extension; a path that
/// lies in no directory lies in the current one.
pub open spec fn parts_of(path: Seq<u8>) -> (Seq<u8>, Option<Seq<u8>>) {
    (
        match parent_dir(path) {
            Some(dir) => dir,
            None => seq![0x2eu8],
        },
        match file_name(path) {
            Some(name) => Some(name_stem(name)),
            None => None,
        },
    )
}

/// Parts the path of a database into what its socket is named by: its directory
/// and its stem.
pub fn socket_parts(path: &[u8]) -> (r: (Vec<u8>, Option<Vec<u8>>))
    ensures
        r.0@ == parts_of(path@).0,
        match r.1 {
            Some(stem) => parts_of(path@).1 == Some(stem@),
            None => parts_of(path@).1 is None,
        },
{
    let dir: Vec<u8> = match parent_of(path) {
        Some(dir) => dir,
        None => vec![0x2eu8],
    };
    assert(parent_dir(path@) is None ==> dir@ =~= seq![0x2eu8]);
    let stem: Option<Vec<u8>> = match file_name_of(path) {
        Some(name) => Some(stem_of(name)),
        None => None,
    };
    (dir, stem)
}

/// The directory of a database that is to be resolved, and the name of its
/// file, which may be empty.
pub fn database_parts(db: &[u8]) -> (r: (Vec<u8>, Vec<u8>))
    ensures
        r.0@ == (match parent_dir(db@) {
            Some(dir) => if dir.len() > 0 {
                dir
            } else {
                seq![0x2eu8]
            },
            None => seq![0x2eu8],
        }),
        r.1@ == (match file_name(db@) {
            Some(name) => name,
            None => Seq::empty(),
        }),
{
    let name: Vec<u8> = match file_name_of(db) {
        Some(name) => name,
        None => Vec::new(),
    };
    if let Some(dir) = parent_of(db) {
        if dir.len() > 0 {
            return (dir, name);
        }
    }
    let here: Vec<u8> = vec![0x2eu8];
    assert(here@ =~= seq![0x2eu8]);
    (here, name)
}

/// The path of a database with its directory in canonical form, where the
/// directory could be resolved, else as it was given.
pub fn canonicalize_dir_of(db: &[u8], file_name: &[u8], resolved: Option<&[u8]>) -> (r: Vec<u8>)
    ensures
        r@ == (match resolved {
            Some(dir) => entry_path(dir@, file_name@),
            None => db@,
        }),
{
    match resolved {
        Some(dir) => join_bytes(dir, file_name),
        None => vstd::slice::slice_to_vec(db),
    }
}

/// How an attempt to listen on the socket went.
#[derive(Debug, Clone, Copy, PartialEq, Eq, Structural)]
pub enum BindOutcome {
    Bound,
    AddressInUse,
    Failed,
}

/// How an attempt to reach a listener on the socket went.
#[derive(Debug, Clone, Copy, PartialEq, Eq, Structural)]
pub enum ProbeOutcome {
    Connected,
    Refused,
    Missing,
    Failed,
}

/// How far a daemon has come in taking over a database.
#[derive(Debug, Clone, Copy, PartialEq, Eq, Structural)]
pub enum AcquireStage {
    /// Asking for the database lock.
    Locking,
    /// Holding the lock, and trying to listen on the socket.
    Binding,
    /// The socket exists: finding out whether somebody listens on it.
    Probing,
    /// Nobody does: removing the socket and listening anew.
    Reclaiming,
    /// Listening.
    Serving,
    /// Another daemon owns the database; leave without a trace.
    Lost,
    /// Somebody listens on the socket although the lock was free; give up.
    Refused,
    /// Give up with the error at hand.
    Failed,
}

/// What happened in the present stage.
#[derive(Debug, Clone, Copy, PartialEq, Eq, Structural)]
pub enum AcquireEvent {
    /// Whether the lock was obtained.
    Lock { held: bool },
    /// How listening went.
    Bind { outcome: BindOutcome },
    /// How reaching a listener went.
    Probe { outcome: ProbeOutcome },
}

/// The stage that follows; an event that does not belong to the present stage
/// changes nothing.
pub open spec fn acquire_next(stage: AcquireStage, event: AcquireEvent) -> AcquireStage {
    match (stage, event) {
        (AcquireStage::Locking, AcquireEvent::Lock { held }) => if held {
            AcquireStage::Binding
        } else {
            AcquireStage::Lost
        },
        (AcquireStage::Binding, AcquireEvent::Bind { outcome }) => match outcome {
            BindOutcome::Bound => AcquireStage::Serving,
            BindOutcome::AddressInUse => AcquireStage::Probing,
            BindOutcome::Failed => AcquireStage::Failed,
        },
        (AcquireStage::Probing, AcquireEvent::Probe { outcome }) => match outcome {
            ProbeOutcome::Connected => AcquireStage::Refused,
            ProbeOutcome::Refused | ProbeOutcome::Missing => AcquireStage::Reclaiming,
            ProbeOutcome::Failed => AcquireStage::Failed,
        },
        (AcquireStage::Reclaiming, AcquireEvent::Bind { outcome }) => match outcome {
            BindOutcome::Bound => AcquireStage::Serving,
            BindOutcome::AddressInUse | BindOutcome::Failed => AcquireStage::Failed,
        },
        _ => stage,
    }
}

/// Takes the next step of taking over a database.
pub fn acquire_daemon(stage: AcquireStage, event: AcquireEvent) -> (r: AcquireStage)
    ensures
        r == acquire_next(stage, event),
{
    match stage {
        AcquireStage::Locking => match event {
            AcquireEvent::Lock { held } => if held {
                AcquireStage::Binding
            } else {
                AcquireStage::Lost
            },
            _ => stage,
        },
        AcquireStage::Binding => match event {
            AcquireEvent::Bind { outcome } => match outcome {
                BindOutcome::Bound => AcquireStage::Serving,
                BindOutcome::AddressInUse => AcquireStage::Probing,
                BindOutcome::Failed => AcquireStage::Failed,
            },
            _ => stage,
        },
        AcquireStage::Probing => match event {
            AcquireEvent::Probe { outcome } => match outcome {
                ProbeOutcome::Connected => AcquireStage::Refused,
                ProbeOutcome::Refused => AcquireStage::Reclaiming,
                ProbeOutcome::Missing => AcquireStage::Reclaiming,
                ProbeOutcome::Failed => AcquireStage::Failed,
            },
            _ => stage,
        },
        AcquireStage::Reclaiming => match event {
            AcquireEvent::Bind { outcome } => match outcome {
                BindOutcome::Bound => AcquireStage::Serving,
                _ => AcquireStage::Failed,
            },
            _ => stage,
        },
        _ => stage,
    }
}

/// The stage after a series of events.
pub open spec fn acquire_run(events: Seq<AcquireEvent>) -> AcquireStage
    decreases events.len(),
{
    if events.len() == 0 {
        AcquireStage::Locking
    } else {
        acquire_next(acquire_run(events.drop_last()), events.last())
    }
}

/// A daemon serves only once it listens; it gives up where the lock is not its
/// own, where somebody else listens, and where listening fails for any other
/// reason; and it takes a socket over only where nobody answers on it.
pub proof fn databases_are_taken_over_step_by_step(stage: AcquireStage, event: AcquireEvent)
    ensures
        acquire_next(AcquireStage::Locking, AcquireEvent::Lock { held: true })
            == AcquireStage::Binding,
        acquire_next(AcquireStage::Locking, AcquireEvent::Lock { held: false })
            == AcquireStage::Lost,
        acquire_next(AcquireStage::Binding, AcquireEvent::Bind { outcome: BindOutcome::Bound })
            == AcquireStage::Serving,
        acquire_next(
            AcquireStage::Binding,
            AcquireEvent::Bind { outcome: BindOutcome::AddressInUse },
        ) == AcquireStage::Probing,
        acquire_next(
            AcquireStage::Probing,
            AcquireEvent::Probe { outcome: ProbeOutcome::Refused },
        ) == AcquireStage::Reclaiming,
        acquire_next(
            AcquireStage::Probing,
            AcquireEvent::Probe { outcome: ProbeOutcome::Missing },
        ) == AcquireStage::Reclaiming,
        acquire_next(
            AcquireStage::Probing,
            AcquireEvent::Probe { outcome: ProbeOutcome::Connected },
        ) == AcquireStage::Refused,
        acquire_next(AcquireStage::Reclaiming, AcquireEvent::Bind { outcome: BindOutcome::Bound })
            == AcquireStage::Serving,
        acquire_next(stage, event) == AcquireStage::Serving ==> stage == AcquireStage::Serving || ((
        stage == AcquireStage::Binding || stage == AcquireStage::Reclaiming) && event == (
        AcquireEvent::Bind { outcome: BindOutcome::Bound })),
        acquire_next(stage, event) == AcquireStage::Failed ==> stage == AcquireStage::Failed || (
        stage == AcquireStage::Binding && event == (AcquireEvent::Bind {
            outcome: BindOutcome::Failed,
        })) || (stage == AcquireStage::Probing && event == (AcquireEvent::Probe {
            outcome: ProbeOutcome::Failed,
        })) || (stage == AcquireStage::Reclaiming && event is Bind && event != (
        AcquireEvent::Bind { outcome: BindOutcome::Bound })),
        (stage == AcquireStage::Binding || stage == AcquireStage::Reclaiming) && event == (
        AcquireEvent::Bind { outcome: BindOutcome::Failed }) ==> acquire_next(stage, event)
            == AcquireStage::Failed,
        stage == AcquireStage::Reclaiming && event == (AcquireEvent::Bind {
            outcome: BindOutcome::AddressInUse,
        }) ==> acquire_next(stage, event) == AcquireStage::Failed,
        stage == AcquireStage::Probing && event == (AcquireEvent::Probe {
            outcome: ProbeOutcome::Failed,
        }) ==> acquire_next(stage, event) == AcquireStage::Failed,
        stage == AcquireStage::Lost || stage == AcquireStage::Refused || stage
            == AcquireStage::Failed || stage == AcquireStage::Serving ==> acquire_next(stage, event)
            == stage,
{
}

/// The socket is touched only by the holder of the database lock, and removed
/// only where nobody listens on it.
pub proof fn socket_belongs_to_the_lock_holder(events: Seq<AcquireEvent>)
    ensures
        acquire_run(events) != AcquireStage::Locking && acquire_run(events) != AcquireStage::Lost
            ==> events.contains(AcquireEvent::Lock { held: true }),
        acquire_run(events) == AcquireStage::Reclaiming ==> events.contains(
            AcquireEvent::Probe { outcome: ProbeOutcome::Refused },
        ) || events.contains(AcquireEvent::Probe { outcome: ProbeOutcome::Missing }),
    decreases events.len(),
{
    if events.len() > 0 {
        let init = events.drop_last();
        socket_belongs_to_the_lock_holder(init);
        assert forall|e: AcquireEvent| init.contains(e) implies events.contains(e) by {
            let i = choose|i: int| 0 <= i < init.len() && init[i] == e;
            assert(events[i] == e);
        }
        assert(events.contains(events.last())) by {
            assert(events[events.len() - 1] == events.last());
        }
    }
}

/// One step of leaving.
#[derive(Debug, Clone, Copy, PartialEq, Eq, Structural)]
pub enum ReleaseStep {
    /// Write the memory out.
    Flush,
    /// Remove the socket.
    Unlink,
    /// Give the database lock back.
    Unlock,
}

/// The steps of leaving, in order: the memory is written out first, and the
/// lock is given back only when the socket is gone.
pub fn release() -> (r: Vec<ReleaseStep>)
    ensures
        r@ == seq![ReleaseStep::Flush, ReleaseStep::Unlink, ReleaseStep::Unlock],
{
    let r = vec![ReleaseStep::Flush, ReleaseStep::Unlink, ReleaseStep::Unlock];
    assert(r@ =~= seq![ReleaseStep::Flush, ReleaseStep::Unlink, ReleaseStep::Unlock]);
    r
}

/// The clients that are connected.
#[derive(Debug)]
pub struct ClientTracker {
    count: usize,
}

impl View for ClientTracker {
    type V = nat;

    closed spec fn view(&self) -> nat {
        self.count as nat
    }
}

impl ClientTracker {
    /// No client is connected.
    pub fn new() -> (r: Self)
        ensures
            r@ == 0,
    {
        ClientTracker { count: 0 }
    }

    /// A client connects.
    pub fn connect(&mut self)
        requires
            old(self)@ < usize::MAX,
        ensures
            final(self)@ == old(self)@ + 1,
    {
        self.count = self.count + 1;
    }

    /// A client leaves; tells whether it was the last one.
    pub fn disconnect(&mut self) -> (last: bool)
        requires
            old(self)@ > 0,
        ensures
            final(self)@ == old(self)@ - 1,
            last == (final(self)@ == 0),
    {
        self.count = self.count - 1;
        self.count == 0
    }

    /// How many clients are connected.
    pub fn current(&self) -> (r: usize)
        ensures
            r == self@,
    {
        self.count
    }
}

/// Where the wait for an idle daemon stands.
#[derive(Debug, Clone, Copy, PartialEq, Eq, Structural)]
pub enum GracePhase {
    /// Clients are connected: wait for a change.
    Busy,
    /// No client is connected: wait for a change or for the window to pass.
    Window,
    /// The daemon may leave.
    Exit,
}

/// What ended a wait.
#[derive(Debug, Clone, Copy, PartialEq, Eq, Structural)]
pub enum GraceEvent {
    /// A client came or left.
    Changed,
    /// The grace window passed.
    Elapsed,
}

/// Where the wait for an idle daemon goes from `phase`, given what ended the
/// last wait and how many clients are connected now.
pub open spec fn grace_next(phase: GracePhase, event: GraceEvent, clients: nat) -> GracePhase {
    if phase == GracePhase::Exit {
        GracePhase::Exit
    } else if clients > 0 {
        GracePhase::Busy
    } else if phase == GracePhase::Window && event == GraceEvent::Elapsed {
        GracePhase::Exit
    } else {
        GracePhase::Window
    }
}

/// Where the wait for an idle daemon starts.
pub fn wait_for_idle_grace(clients: usize) -> (r: GracePhase)
    ensures
        r == (if clients > 0 {
            GracePhase::Busy
        } else {
            GracePhase::Window
        }),
{
    if clients > 0 {
        GracePhase::Busy
    } else {
        GracePhase::Window
    }
}

/// The next phase of the wait for an idle daemon.
pub fn grace_step(phase: GracePhase, event: GraceEvent, clients: usize) -> (r: GracePhase)
    ensures
        r == grace_next(phase, event, clients as nat),
{
    match phase {
        GracePhase::Exit => GracePhase::Exit,
        GracePhase::Busy => if clients > 0 {
            GracePhase::Busy
        } else {
            GracePhase::Window
        },
        GracePhase::Window => if clients > 0 {
            GracePhase::Busy
        } else {
            match event {
                GraceEvent::Elapsed => GracePhase::Exit,
                GraceEvent::Changed => GracePhase::Window,
            }
        },
    }
}

/// The phase after a series of waits.
pub open spec fn grace_run(events: Seq<(GraceEvent, nat)>, start: GracePhase) -> GracePhase
    decreases events.len(),
{
    if events.len() == 0 {
        start
    } else {
        grace_next(grace_run(events.drop_last(), start), events.last().0, events.last().1)
    }
}

/// A daemon leaves only after a whole window without any change, at a moment
/// when no client is connected.
pub proof fn grace_exits_only_idle(events: Seq<(GraceEvent, nat)>, start: GracePhase)
    requires
        start != GracePhase::Exit,
        grace_run(events, start) == GracePhase::Exit,
    ensures
        exists|i: int|
            0 <= i < events.len() && (#[trigger] events[i]) == (GraceEvent::Elapsed, 0nat)
                && grace_run(events.take(i), start) == GracePhase::Window,
    decreases events.len(),
{
    let init = events.drop_last();
    if grace_run(init, start) == GracePhase::Exit {
        grace_exits_only_idle(init, start);
        let i = choose|i: int|
            0 <= i < init.len() && (#[trigger] init[i]) == (GraceEvent::Elapsed, 0nat) && grace_run(
                init.take(i),
                start,
            ) == GracePhase::Window;
        assert(init.take(i) =~= events.take(i));
        assert(events[i] == (GraceEvent::Elapsed, 0nat));
    } else {
        let i = events.len() - 1;
        assert(events.take(i) =~= init);
        assert(events[i] == (GraceEvent::Elapsed, 0nat));
    }
}

/// A daemon without clients leaves after a whole window without any change; a
/// change begins the window anew, and a client that is connected ends it.
pub proof fn idle_daemons_leave(phase: GracePhase, event: GraceEvent, clients: nat)
    ensures
        grace_next(GracePhase::Window, GraceEvent::Elapsed, 0) == GracePhase::Exit,
        grace_next(GracePhase::Window, GraceEvent::Changed, 0) == GracePhase::Window,
        grace_next(GracePhase::Busy, event, 0) == GracePhase::Window,
        phase != GracePhase::Exit && clients > 0 ==> grace_next(phase, event, clients)
            == GracePhase::Busy,
        grace_next(GracePhase::Exit, event, clients) == GracePhase::Exit,
{
}

/// While clients stay connected the daemon does not leave.
pub proof fn grace_stays_while_connected(events: Seq<(GraceEvent, nat)>, start: GracePhase)
    requires
        start != GracePhase::Exit,
        forall|i: int| 0 <= i < events.len() ==> (#[trigger] events[i]).1 > 0,
    ensures
        grace_run(events, start) != GracePhase::Exit,
    decreases events.len(),
{
    if events.len() > 0 {
        assert(events[events.len() - 1].1 > 0);
        assert forall|i: int| 0 <= i < events.drop_last().len() implies (
        #[trigger] events.drop_last()[i]).1 > 0 by {
            assert(events.drop_last()[i] == events[i]);
        }
        grace_stays_while_connected(events.drop_last(), start);
    }
}

/// The grace window in seconds where none is set.
pub const DEFAULT_GRACE_SECS: u64 = 30;

/// The grace window in seconds: what the setting spells, or the default.
pub fn grace_duration(setting: Option<&str>) -> (r: u64)
    ensures
        r == (match setting {
            Some(v) => match parse_unsigned(trim(v@), u64::MAX as nat) {
                Some(secs) => secs as u64,
                None => DEFAULT_GRACE_SECS,
            },
            None => DEFAULT_GRACE_SECS,
        }),
        setting is None ==> r == 30,
{
    match setting {
        Some(v) => {
            let t = trimmed(v);
            match parse_u64(t.as_str()) {
                Some(secs) => secs,
                None => DEFAULT_GRACE_SECS,
            }
        },
        None => DEFAULT_GRACE_SECS,
    }
}

proof fn lemma_last_dot(start: Seq<u8>, end: Seq<u8>)
    requires
        !end.contains(0x2e),
    ensures
        last_dot(start + seq![0x2eu8] + end) == start.len(),
        last_dot(end) == -1,
    decreases end.len(),
{
    let name = start + seq![0x2eu8] + end;
    if end.len() > 0 {
        assert(name.last() == end.last());
        assert(end.contains(end.last()));
        assert(name.drop_last() =~= start + seq![0x2eu8] + end.drop_last());
        assert(!end.drop_last().contains(0x2e)) by {
            assert forall|i: int| 0 <= i < end.drop_last().len() implies end.drop_last()[i]
                != 0x2e by {
                assert(end.contains(end[i]));
            }
        }
        lemma_last_dot(start, end.drop_last());
    } else {
        assert(name.last() == 0x2e);
    }
}

/// A name loses its extension, which begins at its last dot, and nothing else. A
/// name without a dot, or with one only at its beginning, has no extension.
pub proof fn names_lose_their_extension(stem: Seq<u8>, extension: Seq<u8>)
    requires
        !extension.contains(0x2e),
    ensures
        stem.len() > 0 ==> name_stem(stem + seq![0x2eu8] + extension) == stem,
        name_stem(seq![0x2eu8] + extension) == seq![0x2eu8] + extension,
        name_stem(extension) == extension,
{
    lemma_last_dot(stem, extension);
    lemma_last_dot(Seq::empty(), extension);
    assert(Seq::<u8>::empty() + seq![0x2eu8] + extension =~= seq![0x2eu8] + extension);
    assert((stem + seq![0x2eu8] + extension).take(stem.len() as int) =~= stem);
}

/// The socket of a database is named by the directory of the database and by its
/// name without the extension.
pub proof fn databases_are_parted_into_directory_and_stem(
    dir: Seq<u8>,
    stem: Seq<u8>,
    extension: Seq<u8>,
)
    requires
        dir.len() > 0,
        dir.last() != 0x2f,
        dir.last() != 0x2e,
        stem.len() > 0,
        !stem.contains(0x2f),
        extension.len() > 0,
        !extension.contains(0x2f),
        !extension.contains(0x2e),
    ensures
        parts_of(dir + seq![0x2fu8] + (stem + seq![0x2eu8] + extension)) == (dir, Some(stem)),
        forall|path: Seq<u8>|
            parent_dir(path) is None ==> (#[trigger] parts_of(path)).0 == seq![0x2eu8],
{
    let name = stem + seq![0x2eu8] + extension;
    assert(!name.contains(0x2f)) by {
        assert forall|i: int| 0 <= i < name.len() implies name[i] != 0x2f by {
            if i < stem.len() {
                assert(stem.contains(stem[i]));
            } else if i > stem.len() {
                assert(extension.contains(extension[i - stem.len() - 1]));
                assert(name[i] == extension[i - stem.len() - 1]);
            }
        }
    }
    assert(name.last() == extension.last());
    assert(extension.contains(extension.last()));
    assert(name.len() > 2);
    crate::config::entries_are_found_in_their_directory(dir, name);
    names_lose_their_extension(stem, extension);
}

}
