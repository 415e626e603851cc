//! What comes with a request before the store is asked: the options of a note,
//! the relation between two nodes, a metadata filter, and the turns of a
//! conversation that are new.

use crate::capture::{turn_bytes, turn_key};
use crate::memory::{MemoryRegistry, Ops};
use crate::outside::sha256_hex;
use crate::proto::TurnInput;
use crate::scope::{parse_fault, ScopePath};
use crate::text::{
    decimal, push_decimal, same, split_once, split_once_at, starts_with, strip_prefix, views,
};
use vstd::prelude::*;
use vstd::string::StringExecFns;

verus! {

/// The options of a note.
#[derive(Debug)]
pub struct NoteOptions {
    pub tags: Vec<String>,
    pub metadata: Vec<(String, String)>,
    pub scope: ScopePath,
}

/// The texts that are not empty, in order.
pub open spec fn non_empty_texts(v: Seq<Seq<char>>) -> Seq<Seq<char>>
    decreases v.len(),
{
    if v.len() == 0 {
        Seq::empty()
    } else if v.last().len() == 0 {
        non_empty_texts(v.drop_last())
    } else {
        non_empty_texts(v.drop_last()).push(v.last())
    }
}

/// The tags that are kept are those that have any text, in their order.
pub proof fn kept_tags_are_those_with_text(v: Seq<Seq<char>>)
    ensures
        non_empty_texts(v) == v.filter(|s: Seq<char>| s.len() > 0),
    decreases v.len(),
{
    reveal(Seq::filter);
    if v.len() > 0 {
        kept_tags_are_those_with_text(v.drop_last());
    }
}

/// The scope that a request asks for: the universal one where it names none.
pub open spec fn requested_scope(scope: Option<String>) -> Result<Seq<char>, Seq<char>> {
    match scope {
        None => Ok("universal"@),
        Some(s) => match parse_fault(s@) {
            Some(e) => Err(e.text()),
            None => Ok(s@),
        },
    }
}

/// Reads the scope that a request asks for.
pub fn read_scope(scope: &Option<String>) -> (r: Result<ScopePath, String>)
    ensures
        match requested_scope(*scope) {
            Ok(path) => r is Ok && r->Ok_0@ == path,
            Err(message) => r is Err && r->Err_0@ == message,
        },
{
    match scope {
        None => Ok(ScopePath::universal()),
        Some(s) => match ScopePath::new(s.as_str()) {
            Ok(path) => Ok(path),
            Err(e) => Err(e.message()),
        },
    }
}

/// The tags of a request; empty tags are dropped.
pub open spec fn requested_tags(tags: Option<Vec<String>>) -> Seq<Seq<char>> {
    match tags {
        Some(t) => non_empty_texts(views(t@)),
        None => Seq::empty(),
    }
}

fn keep_tags(tags: Vec<String>) -> (r: Vec<String>)
    ensures
        views(r@) == non_empty_texts(views(tags@)),
{
    let ghost all = views(tags@);
    let mut out: Vec<String> = Vec::new();
    let mut i: usize = 0;
    assert(all.take(0) =~= Seq::<Seq<char>>::empty());
    assert(views(out@) =~= Seq::<Seq<char>>::empty());
    while i < tags.len()
        invariant
            0 <= i <= tags@.len(),
            all == views(tags@),
            views(out@) == non_empty_texts(all.take(i as int)),
        decreases tags@.len() - i,
    {
        let ghost before = out@;
        assert(all.take(i + 1).drop_last() =~= all.take(i as int));
        assert(all.take(i + 1).last() == tags@[i as int]@);
        if !tags[i].as_str().is_empty() {
            out.push(tags[i].clone());
            assert(views(out@) =~= views(before).push(tags@[i as int]@));
        }
        i += 1;
    }
    assert(all.take(i as int) =~= all);
    out
}

/// Reads the options of a note.
pub fn build_note_options(
    tags: Option<Vec<String>>,
    metadata: Option<Vec<(String, String)>>,
    scope: Option<String>,
) -> (r: Result<NoteOptions, String>)
    ensures
        match requested_scope(scope) {
            Ok(path) => r matches Ok(o) && views(o.tags@) == requested_tags(tags) && o.scope@
                == path && o.metadata@ == (match metadata {
                Some(m) => m@,
                None => Seq::empty(),
            }),
            Err(message) => r is Err && r->Err_0@ == message,
        },
{
    let path = match read_scope(&scope) {
        Ok(path) => path,
        Err(message) => {
            return Err(message);
        },
    };
    let tags = match tags {
        Some(t) => keep_tags(t),
        None => Vec::new(),
    };
    let metadata = match metadata {
        Some(m) => m,
        None => Vec::new(),
    };
    assert(tags@.len() == 0 ==> views(tags@) =~= Seq::<Seq<char>>::empty());
    Ok(NoteOptions { tags, metadata, scope: path })
}

/// How one node bears on another.
#[derive(Debug)]
pub enum Relation {
    Causes,
    Contradicts,
    Supports,
    Refutes,
    Reason,
    RejectedAlternative,
    BelongsTo,
    Related,
    Supersedes,
    Custom { label: String },
}

/// A relation by its characters.
pub enum RelationView {
    Causes,
    Contradicts,
    Supports,
    Refutes,
    Reason,
    RejectedAlternative,
    BelongsTo,
    Related,
    Supersedes,
    Custom { label: Seq<char> },
}

impl View for Relation {
    type V = RelationView;

    open spec fn view(&self) -> RelationView {
        match self {
            Relation::Causes => RelationView::Causes,
            Relation::Contradicts => RelationView::Contradicts,
            Relation::Supports => RelationView::Supports,
            Relation::Refutes => RelationView::Refutes,
            Relation::Reason => RelationView::Reason,
            Relation::RejectedAlternative => RelationView::RejectedAlternative,
            Relation::BelongsTo => RelationView::BelongsTo,
            Relation::Related => RelationView::Related,
            Relation::Supersedes => RelationView::Supersedes,
            Relation::Custom { label } => RelationView::Custom { label: label@ },
        }
    }
}

/// The relation that a label names.
pub open spec fn relation_of(s: Seq<char>) -> Option<RelationView> {
    if s == "causes"@ {
        Some(RelationView::Causes)
    } else if s == "contradicts"@ {
        Some(RelationView::Contradicts)
    } else if s == "supports"@ {
        Some(RelationView::Supports)
    } else if s == "refutes"@ {
        Some(RelationView::Refutes)
    } else if s == "reason"@ {
        Some(RelationView::Reason)
    } else if s == "rejected-alternative"@ {
        Some(RelationView::RejectedAlternative)
    } else if s == "belongs-to"@ {
        Some(RelationView::BelongsTo)
    } else if s == "related"@ {
        Some(RelationView::Related)
    } else if s == "supersedes"@ {
        Some(RelationView::Supersedes)
    } else if starts_with(s, "custom:"@) && s.len() > "custom:"@.len() {
        Some(RelationView::Custom { label: s.skip("custom:"@.len() as int) })
    } else {
        None
    }
}

/// The label of a relation.
pub open spec fn relation_label(r: Relation) -> Seq<char> {
    match r {
        Relation::Causes => "causes"@,
        Relation::Contradicts => "contradicts"@,
        Relation::Supports => "supports"@,
        Relation::Refutes => "refutes"@,
        Relation::Reason => "reason"@,
        Relation::RejectedAlternative => "rejected-alternative"@,
        Relation::BelongsTo => "belongs-to"@,
        Relation::Related => "related"@,
        Relation::Supersedes => "supersedes"@,
        Relation::Custom { label } => "custom:"@ + label@,
    }
}

/// A relation that is read from a label has that label.
pub proof fn parsed_relations_have_their_label(s: Seq<char>, r: Relation)
    requires
        relation_of(s) == Some(r@),
    ensures
        relation_label(r) == s,
{
    if starts_with(s, "custom:"@) {
        assert(s =~= s.take("custom:"@.len() as int) + s.skip("custom:"@.len() as int));
    }
}

/// Reading the label of a relation gives the relation back. Only a relation of
/// a caller's own whose name is empty has no label that can be read.
pub proof fn labels_are_read_back(r: Relation)
    requires
        r matches Relation::Custom { label } ==> label@.len() > 0,
    ensures
        relation_of(relation_label(r)) == Some(r@),
{
    reveal_strlit("causes");
    reveal_strlit("contradicts");
    reveal_strlit("supports");
    reveal_strlit("refutes");
    reveal_strlit("reason");
    reveal_strlit("rejected-alternative");
    reveal_strlit("belongs-to");
    reveal_strlit("related");
    reveal_strlit("supersedes");
    reveal_strlit("custom:");
    let s = relation_label(r);
    assert("causes"@[1] == 'a' && "contradicts"@[1] == 'o' && "custom:"@[1] == 'u');
    assert("supports"@[2] == 'p' && "supersedes"@[4] == 'r' && "supports"@[4] == 'o');
    assert("refutes"@[2] == 'f' && "reason"@[2] == 'a' && "related"@[2] == 'l');
    assert("rejected-alternative"@[2] == 'j' && "belongs-to"@[0] == 'b');
    if let Relation::Custom { label } = r {
        assert(s[1] == 'u');
        assert(s[0] == 'c');
        assert("supports"@[0] == 's' && "supersedes"@[0] == 's');
        assert(s.take(7) =~= "custom:"@);
        assert(s.skip(7) =~= label@);
    }
}

/// What to tell a caller whose label names no relation.
pub open spec fn unknown_relation(s: Seq<char>) -> Seq<char> {
    "unknown relation: "@ + s
}

/// Reads the label of a relation.
pub fn parse_relation(s: &str) -> (r: Result<Relation, String>)
    ensures
        match relation_of(s@) {
            Some(v) => r is Ok && r->Ok_0@ == v,
            None => r is Err && r->Err_0@ == unknown_relation(s@),
        },
        r matches Ok(relation) ==> relation_label(relation) == s@,
{
    proof {
        assert forall|relation: Relation|
            relation_of(s@) == Some(#[trigger] relation@) implies relation_label(relation) == s@ by {
            parsed_relations_have_their_label(s@, relation);
        }
    }
    if same(s, "causes") {
        return Ok(Relation::Causes);
    }
    if same(s, "contradicts") {
        return Ok(Relation::Contradicts);
    }
    if same(s, "supports") {
        return Ok(Relation::Supports);
    }
    if same(s, "refutes") {
        return Ok(Relation::Refutes);
    }
    if same(s, "reason") {
        return Ok(Relation::Reason);
    }
    if same(s, "rejected-alternative") {
        return Ok(Relation::RejectedAlternative);
    }
    if same(s, "belongs-to") {
        return Ok(Relation::BelongsTo);
    }
    if same(s, "related") {
        return Ok(Relation::Related);
    }
    if same(s, "supersedes") {
        return Ok(Relation::Supersedes);
    }
    if let Some(label) = strip_prefix(s, "custom:") {
        if !label.as_str().is_empty() {
            return Ok(Relation::Custom { label });
        }
    }
    let mut message = "unknown relation: ".to_owned();
    message.append(s);
    Err(message)
}

/// What to tell a caller whose metadata filter has no equals sign.
pub open spec fn bad_filter(s: Seq<char>) -> Seq<char> {
    "metadata filter must be key=value: "@ + s
}

/// Reads a metadata filter: a key and a value around the first equals sign.
pub fn parse_metadata_filter(s: &str) -> (r: Result<(String, String), String>)
    ensures
        match split_once(s@, '=') {
            Some((k, v)) => r is Ok && r->Ok_0.0@ == k && r->Ok_0.1@ == v,
            None => r is Err && r->Err_0@ == bad_filter(s@),
        },
{
    match split_once_at(s, '=') {
        Some((k, v)) => Ok((k, v)),
        None => {
            let mut message = "metadata filter must be key=value: ".to_owned();
            message.append(s);
            Err(message)
        },
    }
}

/// A turn that is to be stored; a captured one with the key by which it will be
/// recognised again.
#[derive(Debug)]
pub struct TurnDecision {
    pub speaker: String,
    pub text: String,
    pub at_ms: Option<u64>,
    pub key: Option<String>,
}

/// A turn that is to be stored, by its characters.
pub struct DecisionView {
    pub speaker: Seq<char>,
    pub text: Seq<char>,
    pub at_ms: Option<u64>,
    pub key: Option<Seq<char>>,
}

impl View for TurnDecision {
    type V = DecisionView;

    open spec fn view(&self) -> DecisionView {
        DecisionView {
            speaker: self.speaker@,
            text: self.text@,
            at_ms: self.at_ms,
            key: crate::extract::text_view(self.key),
        }
    }
}

/// The key of a turn of a session; a turn without a time counts as of time
/// zero.
pub open spec fn key_of(session: Seq<char>, turn: TurnInput) -> Seq<char> {
    sha256_hex(
        turn_bytes(
            session,
            turn.speaker@,
            turn.text@,
            match turn.at_ms {
                Some(t) => t as nat,
                None => 0,
            },
        ),
    )
}

/// The turns that are to be stored: all of them, or, where turns are captured,
/// those whose key is not known yet.
pub open spec fn decisions(
    seen: Set<Seq<char>>,
    session: Seq<char>,
    turns: Seq<TurnInput>,
    capture: bool,
) -> Seq<DecisionView>
    decreases turns.len(),
{
    if turns.len() == 0 {
        Seq::empty()
    } else {
        let before = decisions(seen, session, turns.drop_last(), capture);
        let turn = turns.last();
        let plain = DecisionView {
            speaker: turn.speaker@,
            text: turn.text@,
            at_ms: turn.at_ms,
            key: None,
        };
        if !capture {
            before.push(plain)
        } else if seen.contains(key_of(session, turn)) {
            before
        } else {
            before.push(DecisionView { key: Some(key_of(session, turn)), ..plain })
        }
    }
}

/// The views of a list of decisions.
pub open spec fn decision_views(v: Seq<TurnDecision>) -> Seq<DecisionView> {
    v.map_values(|d: TurnDecision| d@)
}

/// Picks the turns that are to be stored.
pub fn filter_capture_decisions(
    registry: &MemoryRegistry,
    session: &str,
    turns: &Vec<TurnInput>,
    capture: bool,
) -> (r: Vec<TurnDecision>)
    ensures
        decision_views(r@) == decisions(registry@.seen_turn_keys, session@, turns@, capture),
{
    let mut out: Vec<TurnDecision> = Vec::new();
    let mut i: usize = 0;
    assert(turns@.take(0) =~= Seq::<TurnInput>::empty());
    assert(decision_views(out@) =~= Seq::<DecisionView>::empty());
    while i < turns.len()
        invariant
            0 <= i <= turns@.len(),
            decision_views(out@) == decisions(
                registry@.seen_turn_keys,
                session@,
                turns@.take(i as int),
                capture,
            ),
        decreases turns@.len() - i,
    {
        let turn = &turns[i];
        let ghost before = out@;
        assert(turns@.take(i + 1).drop_last() =~= turns@.take(i as int));
        assert(turns@.take(i + 1).last() == *turn);
        let mut key: Option<String> = None;
        let mut keep = true;
        if capture {
            let at: u64 = match turn.at_ms {
                Some(t) => t,
                None => 0,
            };
            let k = turn_key(session, turn.speaker.as_str(), turn.text.as_str(), at);
            keep = !registry.has_seen(k.as_str());
            key = Some(k);
        }
        if keep {
            let d = TurnDecision {
                speaker: turn.speaker.clone(),
                text: turn.text.clone(),
                at_ms: turn.at_ms,
                key,
            };
            out.push(d);
            assert(decision_views(out@) =~= decision_views(before).push(d@));
        }
        i += 1;
    }
    assert(turns@.take(i as int) =~= turns@);
    out
}

/// Whether a turn is to be stored as it was said.
pub open spec fn stores_turn(session: Seq<char>, turn: TurnInput, d: DecisionView, capture: bool) -> bool {
    &&& d.speaker == turn.speaker@
    &&& d.text == turn.text@
    &&& d.at_ms == turn.at_ms
    &&& d.key is Some <==> capture
    &&& capture ==> d.key == Some(
        sha256_hex(
            turn_bytes(
                session,
                turn.speaker@,
                turn.text@,
                if turn.at_ms is Some {
                    turn.at_ms->0 as nat
                } else {
                    0
                },
            ),
        ),
    )
}

/// The turns that are stored are exactly those that are not known, in their
/// order, each as it was said; without capture they are all of them, and none
/// gets a key.
pub proof fn exactly_the_new_turns_are_stored(
    seen: Set<Seq<char>>,
    session: Seq<char>,
    turns: Seq<TurnInput>,
    capture: bool,
)
    ensures
        ({
            let new = turns.filter(
                |t: TurnInput| !(capture && seen.contains(key_of(session, t))),
            );
            let d = decisions(seen, session, turns, capture);
            &&& d.len() == new.len()
            &&& forall|i: int|
                0 <= i < d.len() ==> stores_turn(session, new[i], #[trigger] d[i], capture)
        }),
    decreases turns.len(),
{
    reveal(Seq::filter);
    if turns.len() > 0 {
        let p = |t: TurnInput| !(capture && seen.contains(key_of(session, t)));
        exactly_the_new_turns_are_stored(seen, session, turns.drop_last(), capture);
        let fewer = decisions(seen, session, turns.drop_last(), capture);
        let d = decisions(seen, session, turns, capture);
        let new = turns.filter(p);
        assert forall|i: int| 0 <= i < d.len() implies stores_turn(
            session,
            new[i],
            #[trigger] d[i],
            capture,
        ) by {
            if i < fewer.len() {
                assert(d[i] == fewer[i]);
                assert(new[i] == turns.drop_last().filter(p)[i]);
            }
        }
    }
}

/// The key of a turn tells its session, speaker, text and time; a turn without a
/// time counts as of time zero.
pub proof fn keys_cover_the_whole_turn(session: Seq<char>, turn: TurnInput)
    ensures
        turn.at_ms is Some ==> key_of(session, turn) == sha256_hex(
            turn_bytes(session, turn.speaker@, turn.text@, turn.at_ms->0 as nat),
        ),
        turn.at_ms is None ==> key_of(session, turn) == sha256_hex(
            turn_bytes(session, turn.speaker@, turn.text@, 0),
        ),
{
}

/// A turn that was captured before is never stored again.
pub proof fn known_turns_are_skipped(
    seen: Set<Seq<char>>,
    session: Seq<char>,
    turns: Seq<TurnInput>,
)
    requires
        forall|i: int| 0 <= i < turns.len() ==> seen.contains(key_of(session, #[trigger] turns[i])),
    ensures
        decisions(seen, session, turns, true) == Seq::<DecisionView>::empty(),
    decreases turns.len(),
{
    if turns.len() > 0 {
        assert(seen.contains(key_of(session, turns[turns.len() - 1])));
        assert forall|i: int| 0 <= i < turns.drop_last().len() implies seen.contains(
            key_of(session, #[trigger] turns.drop_last()[i]),
        ) by {
            assert(turns.drop_last()[i] == turns[i]);
        }
        known_turns_are_skipped(seen, session, turns.drop_last());
    }
}

/// A plain conversation is stored whole, and none of its turns gets a key.
pub proof fn plain_turns_are_all_kept(
    seen: Set<Seq<char>>,
    session: Seq<char>,
    turns: Seq<TurnInput>,
)
    ensures
        decisions(seen, session, turns, false).len() == turns.len(),
        forall|i: int|
            0 <= i < turns.len() ==> (#[trigger] decisions(
                seen,
                session,
                turns,
                false,
            )[i]).key is None,
    decreases turns.len(),
{
    if turns.len() > 0 {
        plain_turns_are_all_kept(seen, session, turns.drop_last());
        let all = decisions(seen, session, turns, false);
        let before = decisions(seen, session, turns.drop_last(), false);
        assert forall|i: int| 0 <= i < turns.len() implies (#[trigger] all[i]).key is None by {
            if i < turns.len() - 1 {
                assert(all[i] == before[i]);
                assert(before[i].key is None);
            }
        }
    }
}

/// The account of what the service did and of what went wrong.
pub open spec fn usage_report(ops: Ops, backlog: nat, known: nat, total: nat, stale: nat) -> Seq<
    char,
> {
    "usage (this daemon):\n  recalls: "@ + decimal(ops.recalls as nat) + " ("@ + decimal(
        ops.reinforcing_recalls as nat,
    ) + " reinforcing)\n  remembers: "@ + decimal(ops.remembers as nat) + "\n  relates: "@ + decimal(
        ops.relates as nat,
    ) + "\n  captured turns: "@ + decimal(ops.captured_turns as nat) + " ("@ + decimal(known)
        + " known)\n  extraction pulls: "@ + decimal(ops.extraction_pulls as nat)
        + "\n  extraction backlog: "@ + decimal(backlog) + "\n  memories: "@ + decimal(total) + " ("@
        + decimal(stale) + " stale)\nfailures (this daemon):\n  dispatch errors: "@ + decimal(
        ops.dispatch_errors as nat,
    ) + " ("@ + decimal(ops.ingest_errors as nat) + " ingest)\n  empty recalls: "@ + decimal(
        ops.empty_recalls as nat,
    ) + "\n"@
}

/// Writes the account of what the service did and of what went wrong.
pub fn format_usage_report(ops: &Ops, backlog: usize, known: usize, total: u64, stale: u64) -> (r:
    String)
    ensures
        r@ == usage_report(*ops, backlog as nat, known as nat, total as nat, stale as nat),
{
    let mut out = "usage (this daemon):\n  recalls: ".to_owned();
    push_decimal(&mut out, ops.recalls);
    out.append(" (");
    push_decimal(&mut out, ops.reinforcing_recalls);
    out.append(" reinforcing)\n  remembers: ");
    push_decimal(&mut out, ops.remembers);
    out.append("\n  relates: ");
    push_decimal(&mut out, ops.relates);
    out.append("\n  captured turns: ");
    push_decimal(&mut out, ops.captured_turns);
    out.append(" (");
    push_decimal(&mut out, known as u64);
    out.append(" known)\n  extraction pulls: ");
    push_decimal(&mut out, ops.extraction_pulls);
    out.append("\n  extraction backlog: ");
    push_decimal(&mut out, backlog as u64);
    out.append("\n  memories: ");
    push_decimal(&mut out, total);
    out.append(" (");
    push_decimal(&mut out, stale);
    out.append(" stale)\nfailures (this daemon):\n  dispatch errors: ");
    push_decimal(&mut out, ops.dispatch_errors);
    out.append(" (");
    push_decimal(&mut out, ops.ingest_errors);
    out.append(" ingest)\n  empty recalls: ");
    push_decimal(&mut out, ops.empty_recalls);
    out.append("\n");
    out
}

/// Each relation is read from its own name and from no other text, a relation of
/// a caller's own from what follows its prefix; any other text is refused and
/// shown.
pub proof fn relations_are_read_by_their_name(s: Seq<char>)
    ensures
        relation_of(s) == Some(RelationView::Causes) <==> s == "causes"@,
        relation_of(s) == Some(RelationView::Contradicts) <==> s == "contradicts"@,
        relation_of(s) == Some(RelationView::Supports) <==> s == "supports"@,
        relation_of(s) == Some(RelationView::Refutes) <==> s == "refutes"@,
        relation_of(s) == Some(RelationView::Reason) <==> s == "reason"@,
        relation_of(s) == Some(RelationView::RejectedAlternative) <==> s
            == "rejected-alternative"@,
        relation_of(s) == Some(RelationView::BelongsTo) <==> s == "belongs-to"@,
        relation_of(s) == Some(RelationView::Related) <==> s == "related"@,
        relation_of(s) == Some(RelationView::Supersedes) <==> s == "supersedes"@,
        relation_of("custom:"@ + s) == (if s.len() > 0 {
            Some(RelationView::Custom { label: s })
        } else {
            None
        }),
        unknown_relation(s) == "unknown relation: "@ + s,
        bad_filter(s) == "metadata filter must be key=value: "@ + s,
{
    reveal_strlit("causes");
    reveal_strlit("contradicts");
    reveal_strlit("supports");
    reveal_strlit("refutes");
    reveal_strlit("reason");
    reveal_strlit("rejected-alternative");
    reveal_strlit("belongs-to");
    reveal_strlit("related");
    reveal_strlit("supersedes");
    reveal_strlit("custom:");
    assert("causes"@[1] == 'a' && "contradicts"@[1] == 'o' && "custom:"@[1] == 'u');
    assert("supports"@[2] == 'p' && "supersedes"@[4] == 'r' && "supports"@[4] == 'o');
    assert("refutes"@[2] == 'f' && "reason"@[2] == 'a' && "related"@[2] == 'l');
    assert("rejected-alternative"@[2] == 'j' && "belongs-to"@[0] == 'b');
    assert("supports"@[0] == 's' && "supersedes"@[0] == 's' && "refutes"@[0] == 'r');
    let t = "custom:"@ + s;
    assert(t[0] == 'c' && t[1] == 'u');
    assert(t.take(7) =~= "custom:"@);
    assert(t.skip(7) =~= s);
}

}
