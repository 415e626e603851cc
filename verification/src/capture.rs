//! Captured turns: the key by which a turn is recognised again, and the marks
//! by which a turn is delivered for extraction at least once and at most twice.

use crate::outside::{sha256_hex, sha256_text};
use crate::text::{
    decimal, lemma_decimal, parse_of_decimal, parse_u32, parse_u64, parse_unsigned, push_decimal,
    same, split_once, split_once_at, starts_with, strip_prefix, trim, trimmed,
};
use vstd::prelude::*;
use vstd::string::StringExecFns;
use vstd::utf8::encode_utf8;

verus! {

/// Metadata key of the turn key of a captured node.
pub const META_TURN_KEY: &'static str = "anamnesis:turn_key";

/// Metadata key that marks a node as captured.
pub const META_CAPTURE: &'static str = "anamnesis:capture";

/// Metadata key of the extraction mark of a captured node.
pub const META_EXTRACTED: &'static str = "anamnesis:extracted";

/// How often a captured turn is delivered before it counts as extracted.
pub const EXTRACT_MAX_PULL_ATTEMPTS: u32 = 2;

/// How long a delivered turn may stay unanswered before it is delivered again,
/// in milliseconds.
pub const DEFAULT_EXTRACT_REDELIVERY_MS: u64 = 21_600_000;

/// How long a delivered turn may stay unanswered: what the setting spells, or
/// the default.
pub fn extract_redelivery_ms(setting: Option<&str>) -> (r: u64)
    ensures
        r == (match setting {
            Some(v) => match parse_unsigned(trim(v@), u64::MAX as nat) {
                Some(ms) => ms as u64,
                None => DEFAULT_EXTRACT_REDELIVERY_MS,
            },
            None => DEFAULT_EXTRACT_REDELIVERY_MS,
        }),
        setting is None ==> r == 6 * 60 * 60 * 1000,
{
    match setting {
        Some(v) => {
            let t = trimmed(v);
            match parse_u64(t.as_str()) {
                Some(ms) => ms,
                None => DEFAULT_EXTRACT_REDELIVERY_MS,
            }
        },
        None => DEFAULT_EXTRACT_REDELIVERY_MS,
    }
}

/// How many turns one delivery holds where the caller names no limit.
pub const DEFAULT_PULL_LIMIT: usize = 50;

/// The extraction state that a mark stands for.
#[derive(Debug, Clone, Copy, PartialEq, Eq, Structural)]
pub enum ExtractedState {
    /// Queued and never delivered.
    New,
    /// Delivered, and waiting for its result.
    Pending { at_ms: u64, attempt: u32 },
    /// Done, or not a mark at all: never queued again.
    Done,
}

/// The mark of a turn delivered at `at_ms` for the `attempt`-th time.
pub open spec fn pending_mark(at_ms: nat, attempt: nat) -> Seq<char> {
    "pending:"@ + decimal(at_ms) + ":"@ + decimal(attempt)
}

/// The state that a mark spells.
pub open spec fn state_of(mark: Option<Seq<char>>) -> ExtractedState {
    match mark {
        None => ExtractedState::Done,
        Some(s) => if s == "false"@ {
            ExtractedState::New
        } else if !starts_with(s, "pending:"@) {
            ExtractedState::Done
        } else {
            match split_once(s.skip("pending:"@.len() as int), ':') {
                None => ExtractedState::Done,
                Some((ts, n)) => match (
                    parse_unsigned(ts, u64::MAX as nat),
                    parse_unsigned(n, u32::MAX as nat),
                ) {
                    (Some(at_ms), Some(attempt)) => ExtractedState::Pending {
                        at_ms: at_ms as u64,
                        attempt: attempt as u32,
                    },
                    _ => ExtractedState::Done,
                },
            }
        },
    }
}

/// Reads an extraction mark.
pub fn parse_extracted_state(v: Option<&str>) -> (r: ExtractedState)
    ensures
        r == state_of(match v {
            Some(s) => Some(s@),
            None => None,
        }),
{
    let s = match v {
        Some(s) => s,
        None => {
            return ExtractedState::Done;
        },
    };
    if same(s, "false") {
        return ExtractedState::New;
    }
    if let Some(rest) = strip_prefix(s, "pending:") {
        if let Some((ts, n)) = split_once_at(rest.as_str(), ':') {
            if let Some(at_ms) = parse_u64(ts.as_str()) {
                if let Some(attempt) = parse_u32(n.as_str()) {
                    return ExtractedState::Pending { at_ms, attempt };
                }
            }
        }
    }
    ExtractedState::Done
}

/// Reading the mark of a delivery gives the delivery back.
pub proof fn pending_mark_reads_back(at_ms: u64, attempt: u32)
    ensures
        state_of(Some(pending_mark(at_ms as nat, attempt as nat))) == (ExtractedState::Pending {
            at_ms,
            attempt,
        }),
{
    reveal_strlit("pending:");
    reveal_strlit("false");
    reveal_strlit(":");
    let mark = pending_mark(at_ms as nat, attempt as nat);
    let ts = decimal(at_ms as nat);
    let n = decimal(attempt as nat);
    assert(mark[0] == 'p');
    assert("false"@[0] == 'f');
    assert(mark.take("pending:"@.len() as int) =~= "pending:"@);
    let rest = mark.skip("pending:"@.len() as int);
    assert(rest =~= ts + ":"@ + n);
    lemma_decimal(at_ms as nat);
    assert forall|i: int| 0 <= i < ts.len() implies rest[i] != ':' by {
        assert(rest[i] == ts[i]);
        assert(crate::text::is_digit(ts[i]));
    }
    crate::text::lemma_first_index_is(rest, ':', ts.len() as int);
    assert(rest.take(ts.len() as int) =~= ts);
    assert(rest.skip(ts.len() as int + 1) =~= n);
    parse_of_decimal(at_ms as nat, u64::MAX as nat);
    parse_of_decimal(attempt as nat, u32::MAX as nat);
}

/// The number of the delivery that a turn in this state gets next.
pub open spec fn next_attempt(state: ExtractedState) -> nat {
    match state {
        ExtractedState::Pending { attempt, .. } => attempt as nat + 1,
        _ => 1,
    }
}

/// The mark that a turn in this state gets when it is delivered at `now_ms`:
/// the last allowed delivery marks it as done.
pub open spec fn next_mark(state: ExtractedState, now_ms: nat) -> Seq<char> {
    if next_attempt(state) >= EXTRACT_MAX_PULL_ATTEMPTS {
        "true"@
    } else {
        pending_mark(now_ms, next_attempt(state))
    }
}

/// Whether a turn in this state is queued again at `now_ms`: it was never
/// delivered, or its delivery is older than `ttl` and another one is allowed.
pub open spec fn requeues(state: ExtractedState, now_ms: nat, ttl: nat) -> bool {
    match state {
        ExtractedState::New => true,
        ExtractedState::Pending { at_ms, attempt } => attempt < EXTRACT_MAX_PULL_ATTEMPTS && now_ms
            > at_ms + ttl,
        ExtractedState::Done => false,
    }
}

/// The mark of the next delivery.
pub fn delivery_mark(state: ExtractedState, now_ms: u64) -> (r: String)
    ensures
        r@ == next_mark(state, now_ms as nat),
{
    let attempt: u64 = match state {
        ExtractedState::Pending { attempt, .. } => attempt as u64 + 1,
        _ => 1,
    };
    if attempt >= EXTRACT_MAX_PULL_ATTEMPTS as u64 {
        "true".to_owned()
    } else {
        let mut out = "pending:".to_owned();
        push_decimal(&mut out, now_ms);
        out.append(":");
        push_decimal(&mut out, attempt);
        out
    }
}

/// Whether a turn in this state is queued again.
pub fn is_requeued(state: ExtractedState, now_ms: u64, ttl: u64) -> (r: bool)
    ensures
        r == requeues(state, now_ms as nat, ttl as nat),
{
    match state {
        ExtractedState::New => true,
        ExtractedState::Pending { at_ms, attempt } => attempt < EXTRACT_MAX_PULL_ATTEMPTS
            && now_ms.saturating_sub(at_ms) > ttl,
        ExtractedState::Done => false,
    }
}

/// The mark of a first delivery tells when it was made and that it was the
/// first, and the mark of any later one says that the turn is done.
pub proof fn marks_tell_the_delivery(state: ExtractedState, now_ms: nat)
    ensures
        state == ExtractedState::New || state == ExtractedState::Done || (state matches
            ExtractedState::Pending { attempt, .. } && attempt == 0) ==> next_mark(state, now_ms)
            == "pending:"@ + decimal(now_ms) + ":"@ + decimal(1),
        state matches ExtractedState::Pending { attempt, .. } && attempt >= 1 ==> next_mark(
            state,
            now_ms,
        ) == "true"@,
{
}

/// A turn that was never delivered is queued, one that is done or bears no mark
/// is not, and one that was delivered is queued again only after its time has
/// passed, and only once.
pub proof fn queues_hold_what_is_still_to_deliver(mark: Option<Seq<char>>, now_ms: nat, ttl: nat)
    ensures
        mark == Some("false"@) ==> requeues(state_of(mark), now_ms, ttl),
        mark is None ==> !requeues(state_of(mark), now_ms, ttl),
        mark == Some("true"@) ==> !requeues(state_of(mark), now_ms, ttl),
        requeues(state_of(mark), now_ms, ttl) && mark != Some("false"@) ==> (state_of(mark)
            matches ExtractedState::Pending { at_ms, attempt } && attempt < 2 && now_ms > at_ms
            + ttl),
{
    done_is_never_requeued(now_ms, ttl);
}

/// What a delivery marks as done is never queued again.
pub proof fn done_is_never_requeued(now_ms: nat, ttl: nat)
    ensures
        !requeues(state_of(Some("true"@)), now_ms, ttl),
{
    reveal_strlit("true");
    reveal_strlit("false");
    reveal_strlit("pending:");
    assert("true"@[0] == 't');
    assert("false"@[0] == 'f');
    assert("pending:"@[0] == 'p');
    assert("true"@.len() < "pending:"@.len());
}

/// A turn is delivered at most twice: the delivery of a turn that was queued
/// again after its first delivery marks it as done.
pub proof fn second_delivery_is_the_last(at_ms: u64, now_ms: nat)
    ensures
        next_mark(ExtractedState::New, at_ms as nat) == pending_mark(at_ms as nat, 1),
        next_mark(state_of(Some(pending_mark(at_ms as nat, 1))), now_ms) == "true"@,
{
    pending_mark_reads_back(at_ms, 1);
}

/// A delivered turn is queued again exactly after its waiting time has passed.
pub proof fn delivered_turn_waits(at_ms: u64, now_ms: nat, ttl: nat)
    ensures
        requeues(state_of(Some(pending_mark(at_ms as nat, 1))), now_ms, ttl) <==> now_ms > at_ms + ttl,
{
    pending_mark_reads_back(at_ms, 1);
}

/// A captured turn over time: its mark, whether it waits in the queue, and how
/// often it was delivered.
pub struct TurnHistory {
    pub mark: Seq<char>,
    pub queued: bool,
    pub deliveries: nat,
}

/// What can happen to a captured turn.
pub enum TurnEvent {
    /// The queue is rebuilt from the marks.
    Rebuild { now_ms: u64, ttl: u64 },
    /// The turn is delivered, where it waits.
    Deliver { now_ms: u64 },
}

/// A turn that was just captured.
pub open spec fn fresh_turn() -> TurnHistory {
    TurnHistory { mark: "false"@, queued: true, deliveries: 0 }
}

/// A turn after one event.
pub open spec fn turn_after(h: TurnHistory, e: TurnEvent) -> TurnHistory {
    let state = state_of(Some(h.mark));
    match e {
        TurnEvent::Rebuild { now_ms, ttl } => TurnHistory {
            queued: requeues(state, now_ms as nat, ttl as nat),
            ..h
        },
        TurnEvent::Deliver { now_ms } => if h.queued {
            TurnHistory {
                mark: next_mark(state, now_ms as nat),
                queued: false,
                deliveries: h.deliveries + 1,
            }
        } else {
            h
        },
    }
}

/// A captured turn after a sequence of events.
pub open spec fn turn_history(events: Seq<TurnEvent>) -> TurnHistory
    decreases events.len(),
{
    if events.len() == 0 {
        fresh_turn()
    } else {
        turn_after(turn_history(events.drop_last()), events.last())
    }
}

/// How far a turn has come: its mark tells how often it was delivered.
spec fn is_tracked(h: TurnHistory) -> bool {
    ||| h.mark == "false"@ && h.deliveries == 0 && h.queued
    ||| h.deliveries == 1 && exists|at_ms: u64| h.mark == #[trigger] pending_mark(at_ms as nat, 1)
    ||| h.mark == "true"@ && h.deliveries == 2 && !h.queued
}

proof fn lemma_tracked(events: Seq<TurnEvent>)
    ensures
        is_tracked(turn_history(events)),
    decreases events.len(),
{
    if events.len() > 0 {
        lemma_tracked(events.drop_last());
        let before = turn_history(events.drop_last());
        let after = turn_history(events);
        if before.deliveries == 1 {
            let at_ms = choose|at_ms: u64| before.mark == #[trigger] pending_mark(at_ms as nat, 1);
            pending_mark_reads_back(at_ms, 1);
            assert(after.deliveries == 1 ==> after.mark == pending_mark(at_ms as nat, 1));
        } else if before.deliveries == 2 {
            if let TurnEvent::Rebuild { now_ms, ttl } = events.last() {
                done_is_never_requeued(now_ms as nat, ttl as nat);
            }
        } else if let TurnEvent::Deliver { now_ms } = events.last() {
            assert(after.mark == pending_mark(now_ms as nat, 1));
        }
    }
}

/// However often the queue is rebuilt and turns are delivered, a captured turn
/// waits until it is delivered, and it is delivered at most twice.
pub proof fn turn_is_delivered_once_or_twice(events: Seq<TurnEvent>)
    ensures
        turn_history(events).deliveries == 0 ==> turn_history(events).queued,
        turn_history(events).deliveries <= 2,
{
    lemma_tracked(events);
}

/// The `k` low bytes of `n`, lowest first.
pub open spec fn le_bytes(n: nat, k: nat) -> Seq<u8>
    decreases k,
{
    if k == 0 {
        Seq::empty()
    } else {
        seq![(n % 256) as u8] + le_bytes(n / 256, (k - 1) as nat)
    }
}

/// The bytes that identify a turn: its session, its speaker and its text, each
/// closed by a zero byte, and its time in eight bytes, lowest first.
pub open spec fn turn_bytes(
    session: Seq<char>,
    speaker: Seq<char>,
    text: Seq<char>,
    at_ms: nat,
) -> Seq<u8> {
    encode_utf8(session).push(0) + encode_utf8(speaker).push(0) + encode_utf8(text).push(0)
        + le_bytes(at_ms, 8)
}

fn push_bytes(out: &mut Vec<u8>, bytes: &[u8])
    ensures
        final(out)@ == old(out)@ + bytes@,
{
    let ghost before = out@;
    let mut i: usize = 0;
    while i < bytes.len()
        invariant
            0 <= i <= bytes@.len(),
            out@ == before + bytes@.take(i as int),
        decreases bytes@.len() - i,
    {
        out.push(bytes[i]);
        assert(bytes@.take(i + 1) =~= bytes@.take(i as int).push(bytes@[i as int]));
        i += 1;
    }
    assert(bytes@.take(i as int) =~= bytes@);
}

fn push_le_bytes(out: &mut Vec<u8>, n: u64, k: u32)
    ensures
        final(out)@ == old(out)@ + le_bytes(n as nat, k as nat),
    decreases k,
{
    if k > 0 {
        out.push((n % 256) as u8);
        push_le_bytes(out, n / 256, k - 1);
    }
    assert(out@ =~= old(out)@ + le_bytes(n as nat, k as nat));
}

/// The key by which a captured turn is recognised again, across restarts.
pub fn turn_key(session: &str, speaker: &str, text: &str, at_ms: u64) -> (r: String)
    ensures
        r@ == sha256_hex(turn_bytes(session@, speaker@, text@, at_ms as nat)),
        r@.len() == 64,
{
    let mut bytes: Vec<u8> = Vec::new();
    push_bytes(&mut bytes, session.as_bytes());
    bytes.push(0);
    push_bytes(&mut bytes, speaker.as_bytes());
    bytes.push(0);
    push_bytes(&mut bytes, text.as_bytes());
    bytes.push(0);
    push_le_bytes(&mut bytes, at_ms, 8);
    assert(bytes@ =~= turn_bytes(session@, speaker@, text@, at_ms as nat));
    sha256_text(bytes.as_slice())
}

/// Whether none of the bytes is zero.
spec fn zero_free(bytes: Seq<u8>) -> bool {
    forall|i: int| 0 <= i < bytes.len() ==> #[trigger] bytes[i] != 0
}

proof fn lemma_scalar_zero_free(c: char)
    requires
        c != '\0',
    ensures
        zero_free(vstd::utf8::encode_scalar(c as u32)),
{
    let v = c as u32;
    assert(v != 0);
    assert(v <= 0x7f && v != 0 ==> (v & 0x7f) as u8 != 0) by (bit_vector);
    assert(0xC0 | ((v >> 6) & 0x1F) as u8 != 0) by (bit_vector);
    assert(0xE0 | ((v >> 12) & 0x0F) as u8 != 0) by (bit_vector);
    assert(0xF0 | ((v >> 18) & 0x7) as u8 != 0) by (bit_vector);
    assert(0x80 | (v & 0x3F) as u8 != 0) by (bit_vector);
    assert(0x80 | ((v >> 6) & 0x3F) as u8 != 0) by (bit_vector);
    assert(0x80 | ((v >> 12) & 0x3F) as u8 != 0) by (bit_vector);
}

proof fn lemma_text_zero_free(s: Seq<char>)
    requires
        !s.contains('\0'),
    ensures
        zero_free(encode_utf8(s)),
    decreases s.len(),
{
    if s.len() > 0 {
        assert(s[0] != '\0');
        lemma_scalar_zero_free(s[0]);
        assert(!s.drop_first().contains('\0')) by {
            assert forall|i: int| 0 <= i < s.drop_first().len() implies s.drop_first()[i] != '\0' by {
                assert(s.drop_first()[i] == s[i + 1]);
            }
        }
        lemma_text_zero_free(s.drop_first());
    }
}

proof fn lemma_cut_at_zero(a: Seq<u8>, x: Seq<u8>, b: Seq<u8>, y: Seq<u8>)
    requires
        zero_free(a),
        zero_free(b),
        a.push(0) + x == b.push(0) + y,
    ensures
        a == b,
        x == y,
{
    let s = a.push(0) + x;
    let t = b.push(0) + y;
    if a.len() < b.len() {
        assert(s[a.len() as int] == 0);
        assert(t[a.len() as int] == b[a.len() as int]);
    } else if b.len() < a.len() {
        assert(t[b.len() as int] == 0);
        assert(s[b.len() as int] == a[b.len() as int]);
    }
    assert(a =~= s.take(a.len() as int));
    assert(b =~= t.take(b.len() as int));
    assert(x =~= s.skip(a.len() as int + 1));
    assert(y =~= t.skip(b.len() as int + 1));
}

proof fn lemma_le_bytes_len(n: nat, k: nat)
    ensures
        le_bytes(n, k).len() == k,
    decreases k,
{
    if k > 0 {
        lemma_le_bytes_len(n / 256, (k - 1) as nat);
    }
}

proof fn lemma_le_bytes_injective(m: nat, n: nat, k: nat, bound: nat)
    requires
        le_bytes(m, k) == le_bytes(n, k),
        m < bound,
        n < bound,
        bound <= vstd::arithmetic::power::pow(256, k),
    ensures
        m == n,
    decreases k,
{
    if k == 0 {
        vstd::arithmetic::power::lemma_pow0(256);
    } else {
        let a = le_bytes(m, k);
        let b = le_bytes(n, k);
        assert(a[0] == (m % 256) as u8);
        assert(b[0] == (n % 256) as u8);
        assert(a.skip(1) =~= le_bytes(m / 256, (k - 1) as nat));
        assert(b.skip(1) =~= le_bytes(n / 256, (k - 1) as nat));
        reveal(vstd::arithmetic::power::pow);
        let top = vstd::arithmetic::power::pow(256, (k - 1) as nat);
        assert(vstd::arithmetic::power::pow(256, k) == 256 * top);
        assert(m / 256 < top && n / 256 < top);
        lemma_le_bytes_injective(m / 256, n / 256, (k - 1) as nat, top as nat);
    }
}

/// Turns that differ in any field are told apart by their bytes, provided that
/// neither session nor speaker holds the zero character that closes them.
pub proof fn turn_bytes_tell_turns_apart(
    session1: Seq<char>,
    speaker1: Seq<char>,
    text1: Seq<char>,
    at1: u64,
    session2: Seq<char>,
    speaker2: Seq<char>,
    text2: Seq<char>,
    at2: u64,
)
    requires
        !session1.contains('\0'),
        !session2.contains('\0'),
        !speaker1.contains('\0'),
        !speaker2.contains('\0'),
        turn_bytes(session1, speaker1, text1, at1 as nat) == turn_bytes(
            session2,
            speaker2,
            text2,
            at2 as nat,
        ),
    ensures
        session1 == session2,
        speaker1 == speaker2,
        text1 == text2,
        at1 == at2,
{
    let (s1, p1, t1) = (encode_utf8(session1), encode_utf8(speaker1), encode_utf8(text1));
    let (s2, p2, t2) = (encode_utf8(session2), encode_utf8(speaker2), encode_utf8(text2));
    let (l1, l2) = (le_bytes(at1 as nat, 8), le_bytes(at2 as nat, 8));
    lemma_text_zero_free(session1);
    lemma_text_zero_free(session2);
    lemma_text_zero_free(speaker1);
    lemma_text_zero_free(speaker2);
    let r1 = p1.push(0) + (t1.push(0) + l1);
    let r2 = p2.push(0) + (t2.push(0) + l2);
    assert(turn_bytes(session1, speaker1, text1, at1 as nat) =~= s1.push(0) + r1);
    assert(turn_bytes(session2, speaker2, text2, at2 as nat) =~= s2.push(0) + r2);
    lemma_cut_at_zero(s1, r1, s2, r2);
    lemma_cut_at_zero(p1, t1.push(0) + l1, p2, t2.push(0) + l2);
    lemma_le_bytes_len(at1 as nat, 8);
    lemma_le_bytes_len(at2 as nat, 8);
    let (e1, e2) = (t1.push(0) + l1, t2.push(0) + l2);
    assert(t1 =~= e1.take(e1.len() - 9));
    assert(t2 =~= e2.take(e2.len() - 9));
    assert(l1 =~= e1.skip(e1.len() - 8));
    assert(l2 =~= e2.skip(e2.len() - 8));
    assert(vstd::arithmetic::power::pow(256, 8) == 0x1_0000_0000_0000_0000) by {
        reveal_with_fuel(vstd::arithmetic::power::pow, 9);
    }
    lemma_le_bytes_injective(at1 as nat, at2 as nat, 8, 0x1_0000_0000_0000_0000);
    vstd::utf8::encode_utf8_decode_utf8(session1);
    vstd::utf8::encode_utf8_decode_utf8(session2);
    vstd::utf8::encode_utf8_decode_utf8(speaker1);
    vstd::utf8::encode_utf8_decode_utf8(speaker2);
    vstd::utf8::encode_utf8_decode_utf8(text1);
    vstd::utf8::encode_utf8_decode_utf8(text2);
}

}
