//! The choice of a batch of captured turns for an extractor: one conversation
//! of one scope at a time, the oldest first.

use crate::dispatch::extract::{
    capture_sources, captured, handed_out_sources_can_be_staged, is_capture, lemma_captured,
    snapshot_fault, source_of, source_views,
};
use crate::extract::{ExtractionSource, SourceView};
use crate::memory::KeySet;
use crate::store::{Graph, Node};
use crate::text::same;
use vstd::prelude::*;

verus! {

/// The turns in the order of their times with one turn more, which comes after
/// those of the same time.
pub open spec fn with_turn(turns: Seq<SourceView>, turn: SourceView) -> Seq<SourceView>
    decreases turns.len(),
{
    if turns.len() == 0 || turns.last().at_ms <= turn.at_ms {
        turns.push(turn)
    } else {
        with_turn(turns.drop_last(), turn).push(turns.last())
    }
}

/// The turns that were not processed, in the order of their times.
pub open spec fn waiting(sources: Seq<SourceView>, processed: Set<Seq<char>>) -> Seq<SourceView>
    decreases sources.len(),
{
    if sources.len() == 0 {
        Seq::empty()
    } else if processed.contains(sources.last().turn_key) {
        waiting(sources.drop_last(), processed)
    } else {
        with_turn(waiting(sources.drop_last(), processed), sources.last())
    }
}

/// Whether two turns belong to the same conversation in the same scope.
pub open spec fn together(a: SourceView, b: SourceView) -> bool {
    a.session_id == b.session_id && a.scope == b.scope
}

/// The turns that belong together with the given one, in order.
pub open spec fn companions(turns: Seq<SourceView>, turn: SourceView) -> Seq<SourceView>
    decreases turns.len(),
{
    if turns.len() == 0 {
        Seq::empty()
    } else if together(turns.last(), turn) {
        companions(turns.drop_last(), turn).push(turns.last())
    } else {
        companions(turns.drop_last(), turn)
    }
}

/// The first turn whose companions are at least `min` in number, counted over
/// all turns.
pub open spec fn first_full(turns: Seq<SourceView>, min: nat, upto: nat) -> Option<SourceView>
    decreases upto,
{
    if upto == 0 {
        None
    } else {
        let last = turns[upto - 1];
        match first_full(turns, min, (upto - 1) as nat) {
            Some(t) => Some(t),
            None => if companions(turns, last).len() >= min {
                Some(last)
            } else {
                None
            },
        }
    }
}

/// At most the first `max` turns.
pub open spec fn at_most(turns: Seq<SourceView>, max: nat) -> Seq<SourceView> {
    if turns.len() > max {
        turns.take(max as int)
    } else {
        turns
    }
}

/// The batch for an extractor: of the conversations with at least `min` turns
/// that were not processed, the one with the oldest such turn, in the order of
/// time and without its turns beyond `max`.
pub open spec fn batch(
    sources: Seq<SourceView>,
    processed: Set<Seq<char>>,
    min: nat,
    max: nat,
) -> Seq<SourceView> {
    let turns = waiting(sources, processed);
    match first_full(turns, min, turns.len()) {
        Some(t) => at_most(companions(turns, t), max),
        None => Seq::empty(),
    }
}

proof fn lemma_with_turn(turns: Seq<SourceView>, turn: SourceView, i: int)
    requires
        0 <= i <= turns.len(),
        i > 0 ==> turns[i - 1].at_ms <= turn.at_ms,
        forall|k: int| i <= k < turns.len() ==> (#[trigger] turns[k]).at_ms > turn.at_ms,
    ensures
        with_turn(turns, turn) == turns.insert(i, turn),
    decreases turns.len(),
{
    if i == turns.len() {
        assert(turns.insert(i, turn) =~= turns.push(turn));
    } else {
        assert(turns[turns.len() - 1].at_ms > turn.at_ms);
        let fewer = turns.drop_last();
        lemma_with_turn(fewer, turn, i);
        assert(fewer.insert(i, turn).push(turns.last()) =~= turns.insert(i, turn));
    }
}

fn insert_turn(turns: &mut Vec<ExtractionSource>, turn: ExtractionSource)
    ensures
        source_views(final(turns)@) == with_turn(source_views(old(turns)@), turn@),
{
    let ghost all = source_views(turns@);
    let mut i: usize = turns.len();
    while i > 0 && turns[i - 1].at_ms > turn.at_ms
        invariant
            0 <= i <= turns@.len(),
            all == source_views(turns@),
            forall|k: int| i <= k < turns@.len() ==> (#[trigger] all[k]).at_ms > turn.at_ms,
        decreases i,
    {
        i -= 1;
    }
    proof {
        lemma_with_turn(all, turn@, i as int);
        assert(i > 0 ==> all[i - 1] == turns@[i - 1]@);
    }
    turns.insert(i, turn);
    assert(source_views(turns@) =~= all.insert(i as int, turn@));
}

fn copy_source(s: &ExtractionSource) -> (r: ExtractionSource)
    ensures
        r@ == s@,
{
    ExtractionSource {
        node_id: s.node_id,
        turn_key: s.turn_key.clone(),
        session_id: s.session_id.clone(),
        scope: s.scope.clone(),
        content: s.content.clone(),
        content_hash: s.content_hash.clone(),
        at_ms: s.at_ms,
    }
}

fn waiting_turns(sources: &Vec<ExtractionSource>, processed: &KeySet) -> (r: Vec<ExtractionSource>)
    ensures
        source_views(r@) == waiting(source_views(sources@), processed@),
{
    let ghost all = source_views(sources@);
    let mut out: Vec<ExtractionSource> = Vec::new();
    let mut i: usize = 0;
    assert(all.take(0) =~= Seq::<SourceView>::empty());
    assert(source_views(out@) =~= Seq::<SourceView>::empty());
    while i < sources.len()
        invariant
            0 <= i <= sources@.len(),
            all == source_views(sources@),
            source_views(out@) == waiting(all.take(i as int), processed@),
        decreases sources@.len() - i,
    {
        proof {
            let next = all.take(i + 1);
            assert(next.drop_last() =~= all.take(i as int));
            assert(next.last() == sources@[i as int]@);
        }
        if !processed.contains(sources[i].turn_key.as_str()) {
            insert_turn(&mut out, copy_source(&sources[i]));
        }
        i += 1;
    }
    assert(all.take(i as int) =~= all);
    out
}

fn are_together(a: &ExtractionSource, b: &ExtractionSource) -> (r: bool)
    ensures
        r == together(a@, b@),
{
    same(a.session_id.as_str(), b.session_id.as_str()) && same(a.scope.as_str(), b.scope.as_str())
}

fn companions_of(turns: &Vec<ExtractionSource>, at: usize) -> (r: Vec<ExtractionSource>)
    requires
        at < turns@.len(),
    ensures
        source_views(r@) == companions(source_views(turns@), turns@[at as int]@),
{
    let ghost all = source_views(turns@);
    let mut out: Vec<ExtractionSource> = Vec::new();
    let mut i: usize = 0;
    assert(all.take(0) =~= Seq::<SourceView>::empty());
    assert(source_views(out@) =~= Seq::<SourceView>::empty());
    while i < turns.len()
        invariant
            0 <= i <= turns@.len(),
            at < turns@.len(),
            all == source_views(turns@),
            source_views(out@) == companions(all.take(i as int), turns@[at as int]@),
        decreases turns@.len() - i,
    {
        proof {
            let next = all.take(i + 1);
            assert(next.drop_last() =~= all.take(i as int));
            assert(next.last() == turns@[i as int]@);
        }
        if are_together(&turns[i], &turns[at]) {
            let ghost before = out@;
            out.push(copy_source(&turns[i]));
            assert(source_views(out@) =~= source_views(before).push(turns@[i as int]@));
        }
        i += 1;
    }
    assert(all.take(i as int) =~= all);
    out
}

/// Chooses the batch for an extractor.
pub fn scan(
    sources: &Vec<ExtractionSource>,
    processed: &KeySet,
    min_turns: u32,
    max_turns: u32,
) -> (r: Vec<ExtractionSource>)
    ensures
        source_views(r@) == batch(
            source_views(sources@),
            processed@,
            min_turns as nat,
            max_turns as nat,
        ),
{
    let turns = waiting_turns(sources, processed);
    let ghost all = source_views(turns@);
    let mut i: usize = 0;
    while i < turns.len()
        invariant
            0 <= i <= turns@.len(),
            all == source_views(turns@),
            all == waiting(source_views(sources@), processed@),
            first_full(all, min_turns as nat, i as nat) is None,
        decreases turns@.len() - i,
    {
        let mut group = companions_of(&turns, i);
        assert(all[i as int] == turns@[i as int]@);
        assert(source_views(group@).len() == group@.len());
        if group.len() as u128 >= min_turns as u128 {
            proof {
                lemma_first_full(all, min_turns as nat, (i + 1) as nat, all.len());
            }
            if group.len() as u128 > max_turns as u128 {
                let ghost before = group@;
                group.truncate(max_turns as usize);
                assert(source_views(group@) =~= source_views(before).take(max_turns as int));
            }
            return group;
        }
        i += 1;
    }
    let none: Vec<ExtractionSource> = Vec::new();
    assert(source_views(none@) =~= Seq::<SourceView>::empty());
    none
}

/// Chooses the batch for an extractor among the captured turns of a namespace.
pub fn scan_namespace(
    graph: &Graph,
    processed: &KeySet,
    min_turns: u32,
    max_turns: u32,
) -> (r: Vec<ExtractionSource>)
    ensures
        source_views(r@) == batch(
            captured(graph.nodes@),
            processed@,
            min_turns as nat,
            max_turns as nat,
        ),
{
    let sources = capture_sources(graph);
    scan(&sources, processed, min_turns, max_turns)
}

proof fn lemma_first_full(turns: Seq<SourceView>, min: nat, some: nat, upto: nat)
    requires
        some <= upto,
        first_full(turns, min, some) is Some,
    ensures
        first_full(turns, min, upto) == first_full(turns, min, some),
    decreases upto,
{
    if some < upto {
        lemma_first_full(turns, min, some, (upto - 1) as nat);
    }
}

proof fn lemma_companion(turns: Seq<SourceView>, turn: SourceView, s: SourceView)
    requires
        companions(turns, turn).contains(s),
    ensures
        together(s, turn),
        turns.contains(s),
    decreases turns.len(),
{
    if turns.len() > 0 {
        let fewer = companions(turns.drop_last(), turn);
        let at = choose|at: int| 0 <= at < companions(turns, turn).len() && companions(turns, turn)[at] == s;
        if together(turns.last(), turn) && at == fewer.len() {
            assert(turns[turns.len() - 1] == s);
        } else {
            assert(fewer[at] == s);
            lemma_companion(turns.drop_last(), turn, s);
            let k = choose|k: int| 0 <= k < turns.drop_last().len() && turns.drop_last()[k] == s;
            assert(turns[k] == s);
        }
    }
}

proof fn lemma_with_turn_contains(turns: Seq<SourceView>, turn: SourceView, s: SourceView)
    requires
        with_turn(turns, turn).contains(s),
    ensures
        s == turn || turns.contains(s),
    decreases turns.len(),
{
    let all = with_turn(turns, turn);
    let at = choose|at: int| 0 <= at < all.len() && all[at] == s;
    if turns.len() == 0 || turns.last().at_ms <= turn.at_ms {
        if at < turns.len() {
            assert(turns[at] == s);
        }
    } else {
        let fewer = with_turn(turns.drop_last(), turn);
        if at < fewer.len() {
            assert(fewer[at] == s);
            lemma_with_turn_contains(turns.drop_last(), turn, s);
            if s != turn {
                let k = choose|k: int| 0 <= k < turns.drop_last().len() && turns.drop_last()[k] == s;
                assert(turns[k] == s);
            }
        } else {
            assert(turns[turns.len() - 1] == s);
        }
    }
}

proof fn lemma_waiting(sources: Seq<SourceView>, processed: Set<Seq<char>>, s: SourceView)
    requires
        waiting(sources, processed).contains(s),
    ensures
        sources.contains(s),
        !processed.contains(s.turn_key),
    decreases sources.len(),
{
    if sources.len() > 0 {
        let fewer = sources.drop_last();
        if processed.contains(sources.last().turn_key) {
            lemma_waiting(fewer, processed, s);
        } else {
            lemma_with_turn_contains(waiting(fewer, processed), sources.last(), s);
            if s != sources.last() {
                lemma_waiting(fewer, processed, s);
            }
        }
        if s == sources.last() && !processed.contains(sources.last().turn_key) {
            assert(sources[sources.len() - 1] == s);
        } else {
            let k = choose|k: int| 0 <= k < fewer.len() && fewer[k] == s;
            assert(sources[k] == s);
        }
    }
}

/// Every turn of a batch is one of the sources, was not processed, and belongs
/// together with every other turn of the batch; and a batch holds no more
/// turns than allowed.
pub proof fn batch_is_one_fresh_conversation(
    sources: Seq<SourceView>,
    processed: Set<Seq<char>>,
    min: nat,
    max: nat,
    i: int,
    j: int,
)
    requires
        0 <= i < batch(sources, processed, min, max).len(),
        0 <= j < batch(sources, processed, min, max).len(),
    ensures
        batch(sources, processed, min, max).len() <= max,
        sources.contains(batch(sources, processed, min, max)[i]),
        !processed.contains(batch(sources, processed, min, max)[i].turn_key),
        together(batch(sources, processed, min, max)[i], batch(sources, processed, min, max)[j]),
{
    let turns = waiting(sources, processed);
    let t = first_full(turns, min, turns.len())->0;
    let group = companions(turns, t);
    let b = batch(sources, processed, min, max);
    assert(group[i] == b[i] && group[j] == b[j]);
    lemma_companion(turns, t, b[i]);
    lemma_companion(turns, t, b[j]);
    lemma_waiting(sources, processed, b[i]);
}

/// Whether turns stand in the order of their times.
pub open spec fn in_time(turns: Seq<SourceView>) -> bool {
    forall|i: int, j: int|
        0 <= i < j < turns.len() ==> (#[trigger] turns[i]).at_ms <= (#[trigger] turns[j]).at_ms
}

proof fn lemma_with_turn_in_time(turns: Seq<SourceView>, turn: SourceView)
    requires
        in_time(turns),
    ensures
        in_time(with_turn(turns, turn)),
        with_turn(turns, turn).contains(turn),
        forall|s: SourceView| turns.contains(s) ==> #[trigger] with_turn(turns, turn).contains(s),
    decreases turns.len(),
{
    let all = with_turn(turns, turn);
    if turns.len() == 0 || turns.last().at_ms <= turn.at_ms {
        assert forall|i: int, j: int| 0 <= i < j < all.len() implies (#[trigger] all[i]).at_ms <= (
        #[trigger] all[j]).at_ms by {
            assert(all[i] == turns[i]);
            if j < turns.len() {
                assert(all[j] == turns[j]);
            } else if i < turns.len() - 1 {
                assert(turns[i].at_ms <= turns[turns.len() - 1].at_ms);
            }
        }
        assert(all[turns.len() as int] == turn);
        assert forall|s: SourceView| turns.contains(s) implies #[trigger] all.contains(s) by {
            let k = choose|k: int| 0 <= k < turns.len() && turns[k] == s;
            assert(all[k] == s);
        }
    } else {
        let fewer = turns.drop_last();
        assert(in_time(fewer)) by {
            assert forall|i: int, j: int| 0 <= i < j < fewer.len() implies (
            #[trigger] fewer[i]).at_ms <= (#[trigger] fewer[j]).at_ms by {
                assert(turns[i].at_ms <= turns[j].at_ms);
            }
        }
        lemma_with_turn_in_time(fewer, turn);
        let inner = with_turn(fewer, turn);
        assert forall|i: int, j: int| 0 <= i < j < all.len() implies (#[trigger] all[i]).at_ms <= (
        #[trigger] all[j]).at_ms by {
            assert(all[i] == inner[i]);
            if j < inner.len() {
                assert(all[j] == inner[j]);
            } else {
                lemma_with_turn_contains(fewer, turn, inner[i]);
                if inner[i] != turn {
                    let k = choose|k: int| 0 <= k < fewer.len() && fewer[k] == inner[i];
                    assert(turns[k].at_ms <= turns[turns.len() - 1].at_ms);
                }
            }
        }
        let m = choose|m: int| 0 <= m < inner.len() && inner[m] == turn;
        assert(all[m] == turn);
        assert forall|s: SourceView| turns.contains(s) implies #[trigger] all.contains(s) by {
            let k = choose|k: int| 0 <= k < turns.len() && turns[k] == s;
            if k < fewer.len() {
                assert(fewer[k] == s);
                assert(inner.contains(s));
                let n = choose|n: int| 0 <= n < inner.len() && inner[n] == s;
                assert(all[n] == s);
            } else {
                assert(all[inner.len() as int] == s);
            }
        }
    }
}

proof fn lemma_waiting_in_time(sources: Seq<SourceView>, processed: Set<Seq<char>>)
    ensures
        in_time(waiting(sources, processed)),
        forall|s: SourceView|
            sources.contains(s) && !processed.contains(s.turn_key) ==> #[trigger] waiting(
                sources,
                processed,
            ).contains(s),
    decreases sources.len(),
{
    if sources.len() > 0 {
        let fewer = sources.drop_last();
        lemma_waiting_in_time(fewer, processed);
        lemma_with_turn_in_time(waiting(fewer, processed), sources.last());
        assert forall|s: SourceView|
            sources.contains(s) && !processed.contains(s.turn_key) implies #[trigger] waiting(
            sources,
            processed,
        ).contains(s) by {
            let k = choose|k: int| 0 <= k < sources.len() && sources[k] == s;
            if k < fewer.len() {
                assert(fewer[k] == s);
                assert(waiting(fewer, processed).contains(s));
            }
        }
    }
}

proof fn lemma_companions_in_time(turns: Seq<SourceView>, turn: SourceView)
    requires
        in_time(turns),
    ensures
        in_time(companions(turns, turn)),
        forall|s: SourceView|
            turns.contains(s) && together(s, turn) ==> #[trigger] companions(turns, turn).contains(
                s,
            ),
    decreases turns.len(),
{
    if turns.len() > 0 {
        let fewer = turns.drop_last();
        assert(in_time(fewer)) by {
            assert forall|i: int, j: int| 0 <= i < j < fewer.len() implies (
            #[trigger] fewer[i]).at_ms <= (#[trigger] fewer[j]).at_ms by {
                assert(turns[i].at_ms <= turns[j].at_ms);
            }
        }
        lemma_companions_in_time(fewer, turn);
        let inner = companions(fewer, turn);
        let all = companions(turns, turn);
        assert forall|i: int, j: int| 0 <= i < j < all.len() implies (#[trigger] all[i]).at_ms <= (
        #[trigger] all[j]).at_ms by {
            assert(all[i] == inner[i]);
            if j < inner.len() {
                assert(all[j] == inner[j]);
            } else {
                lemma_companion(fewer, turn, inner[i]);
                let k = choose|k: int| 0 <= k < fewer.len() && fewer[k] == inner[i];
                assert(turns[k].at_ms <= turns[turns.len() - 1].at_ms);
            }
        }
        assert forall|s: SourceView| turns.contains(s) && together(s, turn) implies #[trigger] all.contains(
            s,
        ) by {
            let k = choose|k: int| 0 <= k < turns.len() && turns[k] == s;
            if k < fewer.len() {
                assert(fewer[k] == s);
                assert(inner.contains(s));
                let n = choose|n: int| 0 <= n < inner.len() && inner[n] == s;
                assert(all[n] == s);
            } else {
                assert(all[inner.len() as int] == s);
            }
        }
    }
}

/// The turns of the conversation of `turn` that were not processed.
pub open spec fn unprocessed_beside(
    sources: Seq<SourceView>,
    processed: Set<Seq<char>>,
    turn: SourceView,
) -> Seq<SourceView> {
    sources.filter(
        |s: SourceView|
            !processed.contains(s.turn_key) && s.session_id == turn.session_id && s.scope
                == turn.scope,
    )
}

proof fn lemma_with_turn_count(turns: Seq<SourceView>, turn: SourceView, t: SourceView)
    ensures
        companions(with_turn(turns, turn), t).len() == companions(turns, t).len() + (if together(
            turn,
            t,
        ) {
            1int
        } else {
            0int
        }),
    decreases turns.len(),
{
    let all = with_turn(turns, turn);
    if turns.len() == 0 || turns.last().at_ms <= turn.at_ms {
        assert(all.drop_last() =~= turns);
    } else {
        lemma_with_turn_count(turns.drop_last(), turn, t);
        assert(all.drop_last() =~= with_turn(turns.drop_last(), turn));
    }
}

proof fn lemma_companions_count(
    sources: Seq<SourceView>,
    processed: Set<Seq<char>>,
    t: SourceView,
)
    ensures
        companions(waiting(sources, processed), t).len() == unprocessed_beside(
            sources,
            processed,
            t,
        ).len(),
    decreases sources.len(),
{
    reveal(Seq::filter);
    if sources.len() > 0 {
        lemma_companions_count(sources.drop_last(), processed, t);
        lemma_with_turn_count(waiting(sources.drop_last(), processed), sources.last(), t);
    }
}

proof fn lemma_full(turns: Seq<SourceView>, min: nat, upto: nat)
    requires
        upto <= turns.len(),
    ensures
        match first_full(turns, min, upto) {
            Some(t) => exists|i: int|
                0 <= i < upto && #[trigger] turns[i] == t && companions(turns, t).len() >= min && (
                forall|j: int|
                    0 <= j < i ==> companions(turns, #[trigger] turns[j]).len() < min),
            None => forall|j: int| 0 <= j < upto ==> companions(turns, #[trigger] turns[j]).len() < min,
        },
    decreases upto,
{
    if upto > 0 {
        lemma_full(turns, min, (upto - 1) as nat);
    }
}

/// Where a conversation has at least `min` turns that were not processed, one is
/// handed out, and only such a one: the one with the oldest turn among them. Of
/// its turns the oldest are handed out, in the order of their times, as many as
/// are allowed.
pub proof fn batches_hold_the_oldest_full_conversation(
    sources: Seq<SourceView>,
    processed: Set<Seq<char>>,
    min: nat,
    max: nat,
    s: SourceView,
)
    requires
        sources.contains(s),
        !processed.contains(s.turn_key),
    ensures
        ({
            let b = batch(sources, processed, min, max);
            &&& in_time(b)
            &&& b.len() > 0 ==> unprocessed_beside(sources, processed, b[0]).len() >= min
            &&& b.len() > 0 ==> b.len() == (if unprocessed_beside(sources, processed, b[0]).len()
                < max {
                unprocessed_beside(sources, processed, b[0]).len()
            } else {
                max
            })
            &&& max > 0 && unprocessed_beside(sources, processed, s).len() >= min ==> b.len() > 0
                && b[0].at_ms <= s.at_ms
            &&& b.len() > 0 && s.session_id == b[0].session_id && s.scope == b[0].scope
                ==> b.contains(s) || b.last().at_ms <= s.at_ms
        }),
{
    let turns = waiting(sources, processed);
    let b = batch(sources, processed, min, max);
    lemma_waiting_in_time(sources, processed);
    lemma_full(turns, min, turns.len());
    assert(turns.contains(s));
    let k = choose|k: int| 0 <= k < turns.len() && turns[k] == s;
    lemma_companions_count(sources, processed, s);
    match first_full(turns, min, turns.len()) {
        None => {
            assert(companions(turns, turns[k]).len() < min);
        },
        Some(t) => {
            let i = choose|i: int|
                0 <= i < turns.len() && #[trigger] turns[i] == t && companions(turns, t).len()
                    >= min && (forall|j: int|
                    0 <= j < i ==> companions(turns, #[trigger] turns[j]).len() < min);
            let group = companions(turns, t);
            lemma_companions_in_time(turns, t);
            lemma_companions_count(sources, processed, t);
            assert(turns.contains(t));
            assert(group.contains(t));
            let g = choose|g: int| 0 <= g < group.len() && group[g] == t;
            assert(group[0].at_ms <= t.at_ms);
            assert forall|x: int, y: int| 0 <= x < y < b.len() implies (#[trigger] b[x]).at_ms <= (
            #[trigger] b[y]).at_ms by {
                assert(group[x].at_ms <= group[y].at_ms);
            }
            if b.len() > 0 {
                assert(b[0] == group[0]);
                lemma_companion(turns, t, group[0]);
                assert(unprocessed_beside(sources, processed, b[0]) =~= unprocessed_beside(
                    sources,
                    processed,
                    t,
                ));
            }
            if companions(turns, s).len() >= min {
                assert(i <= k);
                assert(turns[i].at_ms <= turns[k].at_ms);
            }
            if b.len() > 0 && together(s, b[0]) {
                assert(group.contains(s));
                let n = choose|n: int| 0 <= n < group.len() && group[n] == s;
                if n < b.len() {
                    assert(b[n] == s);
                } else {
                    assert(group[b.len() - 1].at_ms <= group[n].at_ms);
                }
            }
        },
    }
}

/// Whether no two turns stand in the same node.
pub open spec fn distinct(turns: Seq<SourceView>) -> bool {
    forall|i: int, j: int|
        0 <= i < j < turns.len() ==> (#[trigger] turns[i]).node_id != (#[trigger] turns[j]).node_id
}

proof fn lemma_push_distinct(turns: Seq<SourceView>, turn: SourceView)
    requires
        distinct(turns),
        forall|i: int| 0 <= i < turns.len() ==> (#[trigger] turns[i]).node_id != turn.node_id,
    ensures
        distinct(turns.push(turn)),
{
}

proof fn lemma_with_turn_distinct(turns: Seq<SourceView>, turn: SourceView)
    requires
        distinct(turns),
        forall|i: int| 0 <= i < turns.len() ==> (#[trigger] turns[i]).node_id != turn.node_id,
    ensures
        distinct(with_turn(turns, turn)),
    decreases turns.len(),
{
    if turns.len() == 0 || turns.last().at_ms <= turn.at_ms {
        lemma_push_distinct(turns, turn);
    } else {
        let fewer = turns.drop_last();
        lemma_with_turn_distinct(fewer, turn);
        let inner = with_turn(fewer, turn);
        assert forall|i: int| 0 <= i < inner.len() implies (#[trigger] inner[i]).node_id
            != turns.last().node_id by {
            lemma_with_turn_contains(fewer, turn, inner[i]);
            if inner[i] != turn {
                let k = choose|k: int| 0 <= k < fewer.len() && fewer[k] == inner[i];
                assert(turns[k].node_id != turns[turns.len() - 1].node_id);
            } else {
                assert(turns[turns.len() - 1].node_id != turn.node_id);
            }
        }
        lemma_push_distinct(inner, turns.last());
    }
}

proof fn lemma_waiting_distinct(sources: Seq<SourceView>, processed: Set<Seq<char>>)
    requires
        distinct(sources),
    ensures
        distinct(waiting(sources, processed)),
    decreases sources.len(),
{
    if sources.len() > 0 {
        let fewer = sources.drop_last();
        lemma_waiting_distinct(fewer, processed);
        let inner = waiting(fewer, processed);
        assert forall|i: int| 0 <= i < inner.len() implies (#[trigger] inner[i]).node_id
            != sources.last().node_id by {
            lemma_waiting(fewer, processed, inner[i]);
            let k = choose|k: int| 0 <= k < fewer.len() && fewer[k] == inner[i];
            assert(sources[k].node_id != sources[sources.len() - 1].node_id);
        }
        lemma_with_turn_distinct(inner, sources.last());
    }
}

proof fn lemma_companions_distinct(turns: Seq<SourceView>, turn: SourceView)
    requires
        distinct(turns),
    ensures
        distinct(companions(turns, turn)),
    decreases turns.len(),
{
    if turns.len() > 0 {
        let fewer = turns.drop_last();
        lemma_companions_distinct(fewer, turn);
        let inner = companions(fewer, turn);
        assert forall|i: int| 0 <= i < inner.len() implies (#[trigger] inner[i]).node_id
            != turns.last().node_id by {
            lemma_companion(fewer, turn, inner[i]);
            let k = choose|k: int| 0 <= k < fewer.len() && fewer[k] == inner[i];
            assert(turns[k].node_id != turns[turns.len() - 1].node_id);
        }
        lemma_push_distinct(inner, turns.last());
    }
}

proof fn lemma_captured_distinct(nodes: Seq<Node>)
    requires
        forall|i: int, j: int|
            0 <= i < nodes.len() && 0 <= j < nodes.len() && i != j ==> (#[trigger] nodes[i]).id != (
            #[trigger] nodes[j]).id,
    ensures
        distinct(captured(nodes)),
    decreases nodes.len(),
{
    if nodes.len() > 0 {
        let fewer = nodes.drop_last();
        assert forall|i: int, j: int|
            0 <= i < fewer.len() && 0 <= j < fewer.len() && i != j implies (#[trigger] fewer[i]).id
            != (#[trigger] fewer[j]).id by {
            assert(nodes[i].id != nodes[j].id);
        }
        lemma_captured_distinct(fewer);
        let inner = captured(fewer);
        assert forall|i: int| 0 <= i < inner.len() implies (#[trigger] inner[i]).node_id
            != nodes.last().id by {
            lemma_captured(fewer, inner[i]);
            let k = choose|k: int|
                0 <= k < fewer.len() && is_capture(#[trigger] fewer[k]) && source_of(fewer[k])
                    == inner[i];
            assert(nodes[k].id != nodes[nodes.len() - 1].id);
        }
        if is_capture(nodes.last()) {
            lemma_push_distinct(inner, source_of(nodes.last()));
        }
    }
}

/// What a scan hands out can be staged: as long as the nodes are the same, a
/// batch passes as the sources of an extraction.
pub proof fn batches_can_be_staged(
    graph: Graph,
    processed: Set<Seq<char>>,
    min: nat,
    max: nat,
)
    requires
        forall|i: int, j: int|
            0 <= i < graph.nodes@.len() && 0 <= j < graph.nodes@.len() && i != j ==> (
            #[trigger] graph.nodes@[i]).id != (#[trigger] graph.nodes@[j]).id,
    ensures
        snapshot_fault(graph, batch(captured(graph.nodes@), processed, min, max)) is None,
{
    let sources = captured(graph.nodes@);
    let turns = waiting(sources, processed);
    let b = batch(sources, processed, min, max);
    lemma_captured_distinct(graph.nodes@);
    lemma_waiting_distinct(sources, processed);
    if let Some(t) = first_full(turns, min, turns.len()) {
        lemma_companions_distinct(turns, t);
        assert(distinct(b)) by {
            let group = companions(turns, t);
            assert forall|i: int, j: int| 0 <= i < j < b.len() implies (#[trigger] b[i]).node_id != (
            #[trigger] b[j]).node_id by {
                assert(group[i] == b[i] && group[j] == b[j]);
            }
        }
    }
    assert forall|i: int| 0 <= i < b.len() implies sources.contains(#[trigger] b[i]) by {
        batch_is_one_fresh_conversation(sources, processed, min, max, i, i);
    }
    handed_out_sources_can_be_staged(graph, b);
}

/// The companions of a turn are the turns of its conversation in its scope, all
/// of them, in their order.
pub proof fn companions_share_session_and_scope(turns: Seq<SourceView>, turn: SourceView)
    ensures
        companions(turns, turn) == turns.filter(
            |t: SourceView| t.session_id == turn.session_id && t.scope == turn.scope,
        ),
    decreases turns.len(),
{
    reveal(Seq::filter);
    if turns.len() > 0 {
        companions_share_session_and_scope(turns.drop_last(), turn);
    }
}

}
