//! The account of a namespace shows the heading of past recalls exactly where
//! they were asked for.

use crate::dispatch::finish::{account, full_account, StatsOutcome};
use crate::dispatch::render::{
    kind_lines, recall_stats_middle, recall_stats_text, scope_lines, stats_head, stats_text,
    sweep_lines, MemoryStats, RecallStats,
};
use crate::memory::{Ops, RegistryView};
use crate::notes::usage_report;
use crate::text::{contains_text, decimal, is_digit, lemma_decimal};
use vstd::prelude::*;

verus! {

/// How the account of past recalls begins.
pub open spec fn recall_heading() -> Seq<char> {
    "recall telemetry"@
}

/// Whether a text is free of the heading of past recalls.
pub open spec fn without_heading(s: Seq<char>) -> bool {
    !contains_text(s, recall_heading())
}

/// Whether every text that the store hands in for an account is free of the
/// heading of past recalls: the numbers that may have a fraction, the grade,
/// and the names of the scopes.
pub open spec fn hands_in_no_heading(s: MemoryStats) -> bool {
    &&& without_heading(s.orphan_percent@)
    &&& without_heading(s.contradiction_percent@)
    &&& without_heading(s.avg_salience@)
    &&& without_heading(s.average_degree@)
    &&& without_heading(s.stale_percent@)
    &&& without_heading(s.salience_entropy@)
    &&& without_heading(s.grade@)
    &&& forall|i: int|
        0 <= i < s.scope_distribution@.len() ==> without_heading(
            (#[trigger] s.scope_distribution@[i]).0@,
        )
}

/// Whether a character occurs in the heading.
spec fn in_heading(c: char) -> bool {
    c == 'r' || c == 'e' || c == 'c' || c == 'a' || c == 'l' || c == ' ' || c == 't' || c == 'm' || c
        == 'y'
}

/// Whether the heading cannot begin in `s` and end behind it.
spec fn ends_apart(s: Seq<char>) -> bool {
    ||| s.len() == 0
    ||| !in_heading(s.last())
    ||| s.len() >= 2 && s.last() == ' ' && s[s.len() - 2] == ' '
}

/// Whether the heading cannot begin before `s` and end in it.
spec fn starts_apart(s: Seq<char>) -> bool {
    ||| s.len() == 0
    ||| !in_heading(s[0])
    ||| s.len() >= 2 && s[0] == ' ' && s[1] != 't'
}

/// Whether the heading stands at none of the first `n` positions of `s`, as its
/// first and its last character show.
spec fn misses(s: Seq<char>, n: int) -> bool
    decreases n,
{
    n <= 0 || ((s[n - 1] != 'r' || s[n + 14] != 'y') && misses(s, n - 1))
}

proof fn lemma_misses_at(s: Seq<char>, n: int, i: int)
    requires
        misses(s, n),
        0 <= i < n,
    ensures
        s[i] != 'r' || s[i + 15] != 'y',
    decreases n,
{
    if i < n - 1 {
        lemma_misses_at(s, n - 1, i);
    }
}

proof fn lemma_heading_at(s: Seq<char>, i: int)
    requires
        0 <= i <= s.len() - recall_heading().len(),
        s.subrange(i, i + recall_heading().len()) == recall_heading(),
    ensures
        recall_heading().len() == 16,
        s[i] == 'r',
        s[i + 1] == 'e',
        s[i + 2] == 'c',
        s[i + 3] == 'a',
        s[i + 4] == 'l',
        s[i + 5] == 'l',
        s[i + 6] == ' ',
        s[i + 7] == 't',
        s[i + 8] == 'e',
        s[i + 9] == 'l',
        s[i + 10] == 'e',
        s[i + 11] == 'm',
        s[i + 12] == 'e',
        s[i + 13] == 't',
        s[i + 14] == 'r',
        s[i + 15] == 'y',
{
    reveal_strlit("recall telemetry");
    let h = s.subrange(i, i + 16);
    assert(forall|k: int| 0 <= k < 16 ==> #[trigger] h[k] == s[i + k]);
    assert(h[0] == 'r' && h[1] == 'e' && h[2] == 'c' && h[3] == 'a');
    assert(h[4] == 'l' && h[5] == 'l' && h[6] == ' ' && h[7] == 't');
    assert(h[8] == 'e' && h[9] == 'l' && h[10] == 'e' && h[11] == 'm');
    assert(h[12] == 'e' && h[13] == 't' && h[14] == 'r' && h[15] == 'y');
}

/// A fixed text in which the heading fits nowhere is free of it.
proof fn lemma_fixed(s: Seq<char>)
    requires
        misses(s, s.len() - 15),
    ensures
        without_heading(s),
{
    reveal(contains_text);
    let h = recall_heading();
    if contains_text(s, h) {
        let i = choose|i: int|
            0 <= i <= s.len() - h.len() && #[trigger] s.subrange(i, i + h.len()) == h;
        lemma_heading_at(s, i);
        lemma_misses_at(s, s.len() - 15, i);
    }
}

proof fn lemma_number(n: nat)
    ensures
        without_heading(decimal(n)),
        starts_apart(decimal(n)),
        ends_apart(decimal(n)),
        decimal(n).len() > 0,
{
    let d = decimal(n);
    let h = recall_heading();
    reveal(contains_text);
    lemma_decimal(n);
    assert(is_digit(d[0]) && is_digit(d[d.len() - 1]));
    if contains_text(d, h) {
        let i = choose|i: int|
            0 <= i <= d.len() - h.len() && #[trigger] d.subrange(i, i + h.len()) == h;
        lemma_heading_at(d, i);
        assert(is_digit(d[i]));
    }
}

/// Where the heading cannot lie across the seam, two texts that are free of it
/// are free of it together.
proof fn lemma_join(s: Seq<char>, t: Seq<char>)
    requires
        without_heading(s),
        without_heading(t),
        ends_apart(s) || starts_apart(t),
    ensures
        without_heading(s + t),
        t.len() > 0 && ends_apart(t) ==> ends_apart(s + t),
{
    reveal(contains_text);
    let h = recall_heading();
    let u = s + t;
    if contains_text(u, h) {
        let i = choose|i: int|
            0 <= i <= u.len() - h.len() && #[trigger] u.subrange(i, i + h.len()) == h;
        lemma_heading_at(u, i);
        let n = s.len() as int;
        if i + 16 <= n {
            assert(s.subrange(i, i + 16) =~= u.subrange(i, i + 16));
        } else if n <= i {
            assert(t.subrange(i - n, i - n + 16) =~= u.subrange(i, i + 16));
        } else {
            let k = n - i;
            assert(1 <= k <= 15);
            assert(u[n - 1] == s[n - 1]);
            assert(u[n] == t[0]);
            assert(u[i + (k - 1)] == s.last() && u[i + k] == t[0]);
            assert(in_heading(s.last()) && in_heading(t[0]));
            if n >= 2 && s.last() == ' ' {
                assert(k == 7);
                assert(u[i + 5] == s[n - 2]);
            }
            if t[0] == ' ' && t.len() >= 2 {
                assert(k == 6);
                assert(u[i + 7] == t[1]);
            }
        }
    }
}

/// A number behind a fixed text, at the end of an account so far.
proof fn lemma_number_follows(s: Seq<char>, fixed: Seq<char>, n: nat)
    requires
        without_heading(s),
        without_heading(fixed),
        ends_apart(s) || starts_apart(fixed),
    ensures
        without_heading(s + fixed + decimal(n)),
        ends_apart(s + fixed + decimal(n)),
{
    lemma_join(s, fixed);
    lemma_number(n);
    lemma_join(s + fixed, decimal(n));
}

/// A text that is handed in behind a fixed text, at the end of an account so
/// far.
proof fn lemma_text_follows(s: Seq<char>, fixed: Seq<char>, text: Seq<char>)
    requires
        without_heading(s),
        without_heading(fixed),
        without_heading(text),
        ends_apart(s) || starts_apart(fixed),
        fixed.len() > 0,
        ends_apart(fixed),
    ensures
        without_heading(s + fixed + text),
{
    lemma_join(s, fixed);
    lemma_join(s + fixed, text);
}

proof fn lemma_counts(s: MemoryStats) -> (r: Seq<char>)
    requires
        hands_in_no_heading(s),
    ensures
        without_heading(r),
        ends_apart(r),
        r == "nodes:                "@ + decimal(s.node_count as nat) + "\nedges:                "@
            + decimal(s.edge_count as nat) + "\norphans:              "@ + decimal(
            s.orphan_count as nat,
        ) + " ("@ + s.orphan_percent@ + "%)\ncontradictions:       "@ + decimal(
            s.contradiction_count as nat,
        ) + " ("@ + s.contradiction_percent@ + "%)\nsupersedes:           "@ + decimal(
            s.supersede_count as nat,
        ) + "\nretracted:            "@ + decimal(s.retracted_count as nat)
            + "\nmissing embeddings:   "@ + decimal(s.missing_embedding_count as nat),
{
    reveal_strlit("nodes:                ");
    reveal_strlit("\nedges:                ");
    reveal_strlit("\norphans:              ");
    reveal_strlit(" (");
    reveal_strlit("%)\ncontradictions:       ");
    reveal_strlit("%)\nsupersedes:           ");
    reveal_strlit("\nretracted:            ");
    reveal_strlit("\nmissing embeddings:   ");
    reveal_with_fuel(misses, 30);
    lemma_fixed("nodes:                "@);
    lemma_fixed("\nedges:                "@);
    lemma_fixed("\norphans:              "@);
    lemma_fixed(" ("@);
    lemma_fixed("%)\ncontradictions:       "@);
    lemma_fixed("%)\nsupersedes:           "@);
    lemma_fixed("\nretracted:            "@);
    lemma_fixed("\nmissing embeddings:   "@);
    lemma_number(s.node_count as nat);
    let a = "nodes:                "@ + decimal(s.node_count as nat);
    lemma_join("nodes:                "@, decimal(s.node_count as nat));
    lemma_number_follows(a, "\nedges:                "@, s.edge_count as nat);
    let b = a + "\nedges:                "@ + decimal(s.edge_count as nat);
    lemma_number_follows(b, "\norphans:              "@, s.orphan_count as nat);
    let c = b + "\norphans:              "@ + decimal(s.orphan_count as nat);
    lemma_text_follows(c, " ("@, s.orphan_percent@);
    let d = c + " ("@ + s.orphan_percent@;
    lemma_number_follows(d, "%)\ncontradictions:       "@, s.contradiction_count as nat);
    let e = d + "%)\ncontradictions:       "@ + decimal(s.contradiction_count as nat);
    lemma_text_follows(e, " ("@, s.contradiction_percent@);
    let f = e + " ("@ + s.contradiction_percent@;
    lemma_number_follows(f, "%)\nsupersedes:           "@, s.supersede_count as nat);
    let g = f + "%)\nsupersedes:           "@ + decimal(s.supersede_count as nat);
    lemma_number_follows(g, "\nretracted:            "@, s.retracted_count as nat);
    let h = g + "\nretracted:            "@ + decimal(s.retracted_count as nat);
    lemma_number_follows(h, "\nmissing embeddings:   "@, s.missing_embedding_count as nat);
    h + "\nmissing embeddings:   "@ + decimal(s.missing_embedding_count as nat)
}

proof fn lemma_head(s: MemoryStats)
    requires
        hands_in_no_heading(s),
    ensures
        without_heading(stats_head(s)),
        ends_apart(stats_head(s)),
{
    reveal_strlit("\navg salience:         ");
    reveal_strlit("\navg degree:           ");
    reveal_strlit("\nstale (>30d):         ");
    reveal_strlit("%\nsalience entropy:     ");
    reveal_strlit(" bits\npeers:                ");
    reveal_strlit("\nhealth grade:         ");
    reveal_strlit("\n");
    reveal_with_fuel(misses, 30);
    lemma_fixed("\navg salience:         "@);
    lemma_fixed("\navg degree:           "@);
    lemma_fixed("\nstale (>30d):         "@);
    lemma_fixed("%\nsalience entropy:     "@);
    lemma_fixed(" bits\npeers:                "@);
    lemma_fixed("\nhealth grade:         "@);
    lemma_fixed("\n"@);
    let a = lemma_counts(s);
    lemma_text_follows(a, "\navg salience:         "@, s.avg_salience@);
    let b = a + "\navg salience:         "@ + s.avg_salience@;
    lemma_text_follows(b, "\navg degree:           "@, s.average_degree@);
    let c = b + "\navg degree:           "@ + s.average_degree@;
    lemma_text_follows(c, "\nstale (>30d):         "@, s.stale_percent@);
    let d = c + "\nstale (>30d):         "@ + s.stale_percent@;
    lemma_text_follows(d, "%\nsalience entropy:     "@, s.salience_entropy@);
    let e = d + "%\nsalience entropy:     "@ + s.salience_entropy@;
    lemma_number_follows(e, " bits\npeers:                "@, s.peer_count as nat);
    let f = e + " bits\npeers:                "@ + decimal(s.peer_count as nat);
    lemma_text_follows(f, "\nhealth grade:         "@, s.grade@);
    lemma_join(f + "\nhealth grade:         "@ + s.grade@, "\n"@);
}

proof fn lemma_scopes(v: Seq<(String, u64)>)
    requires
        forall|i: int| 0 <= i < v.len() ==> without_heading((#[trigger] v[i]).0@),
    ensures
        without_heading(scope_lines(v)),
        ends_apart(scope_lines(v)),
    decreases v.len(),
{
    reveal_strlit("  ");
    reveal_strlit(": ");
    reveal_strlit("\n");
    reveal_with_fuel(misses, 2);
    lemma_fixed("  "@);
    lemma_fixed(": "@);
    lemma_fixed("\n"@);
    if v.len() == 0 {
        lemma_fixed(Seq::<char>::empty());
    } else {
        let fewer = v.drop_last();
        assert forall|i: int| 0 <= i < fewer.len() implies without_heading(
            (#[trigger] fewer[i]).0@,
        ) by {
            assert(fewer[i] == v[i]);
        }
        lemma_scopes(fewer);
        let a = scope_lines(fewer);
        let name = v[v.len() - 1].0@;
        lemma_text_follows(a, "  "@, name);
        lemma_number_follows(a + "  "@ + name, ": "@, v.last().1 as nat);
        lemma_join(a + "  "@ + name + ": "@ + decimal(v.last().1 as nat), "\n"@);
    }
}

proof fn lemma_stats(s: MemoryStats)
    requires
        hands_in_no_heading(s),
    ensures
        without_heading(stats_text(s)),
        ends_apart(stats_text(s)),
{
    lemma_head(s);
    if s.scope_distribution@.len() > 0 {
        reveal_strlit("scope distribution:\n");
        reveal_with_fuel(misses, 10);
        lemma_fixed("scope distribution:\n"@);
        lemma_join(stats_head(s), "scope distribution:\n"@);
        lemma_scopes(s.scope_distribution@);
        let a = stats_head(s) + "scope distribution:\n"@;
        lemma_join(a, scope_lines(s.scope_distribution@));
        if scope_lines(s.scope_distribution@).len() == 0 {
            assert(a + scope_lines(s.scope_distribution@) =~= a);
        }
    }
}

proof fn lemma_usage_counts(ops: Ops, known: nat) -> (r: Seq<char>)
    ensures
        without_heading(r),
        ends_apart(r),
        r == "usage (this daemon):\n  recalls: "@ + decimal(ops.recalls as nat) + " ("@ + decimal(
            ops.reinforcing_recalls as nat,
        ) + " reinforcing)\n  remembers: "@ + decimal(ops.remembers as nat) + "\n  relates: "@
            + decimal(ops.relates as nat) + "\n  captured turns: "@ + decimal(
            ops.captured_turns as nat,
        ) + " ("@ + decimal(known),
{
    reveal_strlit("usage (this daemon):\n  recalls: ");
    reveal_strlit(" (");
    reveal_strlit(" reinforcing)\n  remembers: ");
    reveal_strlit("\n  relates: ");
    reveal_strlit("\n  captured turns: ");
    reveal_with_fuel(misses, 30);
    lemma_fixed("usage (this daemon):\n  recalls: "@);
    lemma_fixed(" ("@);
    lemma_fixed(" reinforcing)\n  remembers: "@);
    lemma_fixed("\n  relates: "@);
    lemma_fixed("\n  captured turns: "@);
    lemma_number(ops.recalls as nat);
    let a = "usage (this daemon):\n  recalls: "@ + decimal(ops.recalls as nat);
    lemma_join("usage (this daemon):\n  recalls: "@, decimal(ops.recalls as nat));
    lemma_number_follows(a, " ("@, ops.reinforcing_recalls as nat);
    let b = a + " ("@ + decimal(ops.reinforcing_recalls as nat);
    lemma_number_follows(b, " reinforcing)\n  remembers: "@, ops.remembers as nat);
    let c = b + " reinforcing)\n  remembers: "@ + decimal(ops.remembers as nat);
    lemma_number_follows(c, "\n  relates: "@, ops.relates as nat);
    let d = c + "\n  relates: "@ + decimal(ops.relates as nat);
    lemma_number_follows(d, "\n  captured turns: "@, ops.captured_turns as nat);
    let e = d + "\n  captured turns: "@ + decimal(ops.captured_turns as nat);
    lemma_number_follows(e, " ("@, known);
    e + " ("@ + decimal(known)
}

proof fn lemma_usage(ops: Ops, backlog: nat, known: nat, total: nat, stale: nat)
    ensures
        without_heading(usage_report(ops, backlog, known, total, stale)),
{
    reveal_strlit(" known)\n  extraction pulls: ");
    reveal_strlit("\n  extraction backlog: ");
    reveal_strlit("\n  memories: ");
    reveal_strlit(" (");
    reveal_strlit(" stale)\nfailures (this daemon):\n  dispatch errors: ");
    reveal_strlit(" ingest)\n  empty recalls: ");
    reveal_strlit("\n");
    reveal_with_fuel(misses, 50);
    lemma_fixed(" known)\n  extraction pulls: "@);
    lemma_fixed("\n  extraction backlog: "@);
    lemma_fixed("\n  memories: "@);
    lemma_fixed(" ("@);
    lemma_fixed(" stale)\nfailures (this daemon):\n  dispatch errors: "@);
    lemma_fixed(" ingest)\n  empty recalls: "@);
    lemma_fixed("\n"@);
    let a = lemma_usage_counts(ops, known);
    lemma_number_follows(a, " known)\n  extraction pulls: "@, ops.extraction_pulls as nat);
    let b = a + " known)\n  extraction pulls: "@ + decimal(ops.extraction_pulls as nat);
    lemma_number_follows(b, "\n  extraction backlog: "@, backlog);
    let c = b + "\n  extraction backlog: "@ + decimal(backlog);
    lemma_number_follows(c, "\n  memories: "@, total);
    let d = c + "\n  memories: "@ + decimal(total);
    lemma_number_follows(d, " ("@, stale);
    let e = d + " ("@ + decimal(stale);
    let fixed = " stale)\nfailures (this daemon):\n  dispatch errors: "@;
    lemma_number_follows(e, fixed, ops.dispatch_errors as nat);
    let f = e + fixed + decimal(ops.dispatch_errors as nat);
    lemma_number_follows(f, " ("@, ops.ingest_errors as nat);
    let g = f + " ("@ + decimal(ops.ingest_errors as nat);
    lemma_number_follows(g, " ingest)\n  empty recalls: "@, ops.empty_recalls as nat);
    lemma_join(g + " ingest)\n  empty recalls: "@ + decimal(ops.empty_recalls as nat), "\n"@);
}

/// An account for which past recalls were not asked never shows their heading,
/// as long as no text that the store hands in contains it.
pub proof fn plain_account_has_no_recall_heading(
    r: RegistryView,
    key: Seq<char>,
    outcome: StatsOutcome,
)
    requires
        hands_in_no_heading(outcome.stats),
    ensures
        without_heading(account(r, key, outcome)),
        without_heading(full_account(r, key, false, outcome)),
{
    let usage = usage_report(
        r.ops,
        r.queue(key).len(),
        r.seen_turn_keys.len(),
        outcome.total as nat,
        outcome.stale as nat,
    );
    lemma_stats(outcome.stats);
    lemma_usage(
        r.ops,
        r.queue(key).len(),
        r.seen_turn_keys.len(),
        outcome.total as nat,
        outcome.stale as nat,
    );
    reveal_strlit("\n");
    reveal_with_fuel(misses, 2);
    lemma_fixed("\n"@);
    lemma_join(stats_text(outcome.stats), "\n"@);
    lemma_join(stats_text(outcome.stats) + "\n"@, usage);
}

/// Whether a text begins with the heading.
spec fn begins(s: Seq<char>) -> bool {
    s.len() >= 16 && s.take(16) == recall_heading()
}

proof fn lemma_still_begins(s: Seq<char>, t: Seq<char>)
    requires
        begins(s),
    ensures
        begins(s + t),
{
    assert((s + t).take(16) =~= s.take(16));
}

proof fn lemma_recall_text_begins(s: Option<RecallStats>)
    ensures
        begins(recall_stats_text(s)),
{
    let head = "recall telemetry (injection eligibility, not delivery)\n"@;
    assert(begins(head)) by {
        reveal_strlit("recall telemetry");
        reveal_strlit("recall telemetry (injection eligibility, not delivery)\n");
        assert(head.take(16) =~= recall_heading());
    }
    match s {
        None => {
            lemma_still_begins(head, "  telemetry unavailable\n"@);
        },
        Some(s) => {
            let a = head + "  attempts: "@;
            let b = a + decimal(s.total_attempts as nat);
            let c = b + "\n  by event kind:\n"@;
            let d = c + kind_lines(s.by_event_kind@);
            let e = d + recall_stats_middle(s);
            lemma_still_begins(head, "  attempts: "@);
            lemma_still_begins(a, decimal(s.total_attempts as nat));
            lemma_still_begins(b, "\n  by event kind:\n"@);
            lemma_still_begins(c, kind_lines(s.by_event_kind@));
            lemma_still_begins(d, recall_stats_middle(s));
            lemma_still_begins(e, sweep_lines(s.sweep@));
        },
    }
}

/// A text that ends in one that begins with the heading contains it.
proof fn lemma_heading_behind(s: Seq<char>, t: Seq<char>)
    requires
        begins(t),
    ensures
        contains_text(s + t, recall_heading()),
{
    reveal(contains_text);
    let at = s.len() as int;
    assert(recall_heading().len() == 16);
    assert((s + t).subrange(at, at + 16) =~= t.take(16));
}

/// An account for which past recalls were asked always shows their heading,
/// even where they cannot be read.
pub proof fn recall_account_has_its_heading(
    r: RegistryView,
    key: Seq<char>,
    outcome: StatsOutcome,
)
    ensures
        contains_text(full_account(r, key, true, outcome), recall_heading()),
{
    lemma_recall_text_begins(outcome.recall_stats);
    lemma_heading_behind(
        account(r, key, outcome) + "\n"@,
        recall_stats_text(outcome.recall_stats),
    );
}

}
