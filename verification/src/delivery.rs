//! Delivering captured turns for extraction, and rebuilding the queues from
//! the marks on the stored nodes.

use crate::capture::{
    delivery_mark, is_requeued, next_mark, parse_extracted_state, requeues, state_of,
    ExtractedState, DEFAULT_PULL_LIMIT, META_EXTRACTED, META_TURN_KEY,
};
use crate::json::{array_text, json_array, push_json_string};
use crate::memory::{no_queues, opt_view, MemoryRegistry, NamespaceKey, RegistryView};
use crate::outside::json_quoted;
use crate::store::{Graph, Node};
use crate::text::{decimal, push_decimal, views};
use vstd::prelude::*;
use vstd::string::StringExecFns;

verus! {

/// One turn of a delivery, with the mark that its node gets before it leaves
/// the queue.
#[derive(Debug)]
pub struct PullItem {
    pub id: u64,
    pub content: String,
    pub mark: String,
}

/// The last mark that a delivery gives to a node.
pub open spec fn last_mark(items: Seq<PullItem>, id: u64) -> Option<Seq<char>>
    decreases items.len(),
{
    if items.len() == 0 {
        None
    } else if items.last().id == id {
        Some(items.last().mark@)
    } else {
        last_mark(items.drop_last(), id)
    }
}

/// The state of a node once the marks of `done` are written.
pub open spec fn state_after(graph: Graph, done: Seq<PullItem>, id: u64) -> ExtractedState {
    match graph.node(id) {
        None => ExtractedState::New,
        Some(n) => match last_mark(done, id) {
            Some(mark) => state_of(Some(mark)),
            None => state_of(n.meta(META_EXTRACTED@)),
        },
    }
}

/// The content of a node; nothing where the node does not exist.
pub open spec fn content_of(node: Option<Node>) -> Seq<char> {
    match node {
        Some(n) => n.content@,
        None => Seq::empty(),
    }
}

/// Whether `plan` delivers exactly the nodes `ids`, in order, each with its
/// content and with the mark that follows from its state at that point.
pub open spec fn delivers(graph: Graph, ids: Seq<u64>, now_ms: nat, plan: Seq<PullItem>) -> bool {
    &&& plan.len() == ids.len()
    &&& forall|k: int|
        0 <= k < plan.len() ==> {
            &&& (#[trigger] plan[k]).id == ids[k]
            &&& plan[k].content@ == content_of(graph.node(ids[k]))
            &&& plan[k].mark@ == next_mark(state_after(graph, plan.take(k), ids[k]), now_ms)
        }
}

/// The JSON object of one delivered turn.
pub open spec fn item_json(item: PullItem) -> Seq<char> {
    "{\"content\":"@ + json_quoted(item.content@) + ",\"node_id\":"@ + decimal(item.id as nat) + "}"@
}

/// The JSON array of the turns that were delivered.
pub open spec fn delivered_json(items: Seq<PullItem>) -> Seq<char> {
    json_array(items.map_values(|i: PullItem| item_json(i)))
}

/// The numbers of the turns of a delivery.
pub open spec fn item_ids(items: Seq<PullItem>) -> Seq<u64> {
    items.map_values(|i: PullItem| i.id)
}

fn find_last_mark<'a>(items: &'a Vec<PullItem>, id: u64) -> (r: Option<&'a str>)
    ensures
        match r {
            Some(m) => last_mark(items@, id) == Some(m@),
            None => last_mark(items@, id) is None,
        },
{
    let mut i: usize = items.len();
    assert(items@.take(items@.len() as int) =~= items@);
    while i > 0
        invariant
            0 <= i <= items@.len(),
            last_mark(items@, id) == last_mark(items@.take(i as int), id),
        decreases i,
    {
        assert(items@.take(i as int).last() == items@[i - 1]);
        if items[i - 1].id == id {
            return Some(items[i - 1].mark.as_str());
        }
        assert(items@.take(i as int).drop_last() =~= items@.take(i - 1));
        i -= 1;
    }
    None
}

/// Plans the delivery of the given nodes: what is delivered, and the marks to
/// write first, in order.
pub fn plan_pull(graph: &Graph, ids: &Vec<u64>, now_ms: u64) -> (plan: Vec<PullItem>)
    ensures
        delivers(*graph, ids@, now_ms as nat, plan@),
{
    let mut plan: Vec<PullItem> = Vec::new();
    let mut k: usize = 0;
    while k < ids.len()
        invariant
            0 <= k <= ids@.len(),
            plan@.len() == k,
            delivers(*graph, ids@.take(k as int), now_ms as nat, plan@),
        decreases ids@.len() - k,
    {
        let id: u64 = ids[k];
        let ghost done = plan@;
        let (content, state) = match graph.find(id) {
            None => (String::new(), ExtractedState::New),
            Some(node) => {
                let state = match find_last_mark(&plan, id) {
                    Some(mark) => parse_extracted_state(Some(mark)),
                    None => parse_extracted_state(node.get(META_EXTRACTED)),
                };
                (node.content.clone(), state)
            },
        };
        assert(state == state_after(*graph, done, id));
        let item = PullItem { id, content, mark: delivery_mark(state, now_ms) };
        plan.push(item);
        proof {
            let next = plan@;
            let wanted = ids@.take(k + 1);
            assert forall|j: int| 0 <= j < next.len() implies {
                &&& (#[trigger] next[j]).id == wanted[j]
                &&& next[j].content@ == content_of(graph.node(wanted[j]))
                &&& next[j].mark@ == next_mark(
                    state_after(*graph, next.take(j), wanted[j]),
                    now_ms as nat,
                )
            } by {
                if j < k {
                    assert(next.take(j) =~= done.take(j));
                    assert(done[j] == next[j]);
                    assert(ids@.take(k as int)[j] == wanted[j]);
                } else {
                    assert(next.take(j) =~= done);
                }
            }
        }
        k += 1;
    }
    assert(ids@.take(k as int) =~= ids@);
    plan
}

/// The JSON text of the first `written` turns of a delivery.
pub fn delivered_text(plan: &Vec<PullItem>, written: usize) -> (r: String)
    requires
        written <= plan@.len(),
    ensures
        r@ == delivered_json(plan@.take(written as int)),
{
    let mut items: Vec<String> = Vec::new();
    let mut i: usize = 0;
    while i < written
        invariant
            0 <= i <= written <= plan@.len(),
            views(items@) == plan@.take(i as int).map_values(|i: PullItem| item_json(i)),
        decreases written - i,
    {
        let mut out = "{\"content\":".to_owned();
        push_json_string(&mut out, plan[i].content.as_str());
        out.append(",\"node_id\":");
        push_decimal(&mut out, plan[i].id);
        out.append("}");
        let ghost before = items@;
        items.push(out);
        assert(views(items@) =~= views(before).push(out@));
        assert(plan@.take(i + 1).map_values(|i: PullItem| item_json(i)) =~= plan@.take(
            i as int,
        ).map_values(|i: PullItem| item_json(i)).push(item_json(plan@[i as int])));
        i += 1;
    }
    array_text(&items)
}

/// The turns of a delivery that were not marked, and so were not delivered.
pub fn unmarked(plan: &Vec<PullItem>, written: usize) -> (r: Vec<u64>)
    requires
        written <= plan@.len(),
    ensures
        r@ == item_ids(plan@).skip(written as int),
{
    let mut ids: Vec<u64> = Vec::new();
    let mut i: usize = written;
    while i < plan.len()
        invariant
            written <= i <= plan@.len(),
            ids@ == item_ids(plan@).subrange(written as int, i as int),
        decreases plan@.len() - i,
    {
        ids.push(plan[i].id);
        assert(item_ids(plan@).subrange(written as int, i + 1) =~= item_ids(plan@).subrange(
            written as int,
            i as int,
        ).push(plan@[i as int].id));
        i += 1;
    }
    assert(ids@ =~= item_ids(plan@).skip(written as int));
    ids
}

/// The nodes of a graph that are to be queued, in order.
pub open spec fn requeued_ids(nodes: Seq<Node>, now_ms: nat, ttl: nat) -> Seq<u64>
    decreases nodes.len(),
{
    if nodes.len() == 0 {
        Seq::empty()
    } else {
        let before = requeued_ids(nodes.drop_last(), now_ms, ttl);
        if requeues(state_of(nodes.last().meta(META_EXTRACTED@)), now_ms, ttl) {
            before.push(nodes.last().id)
        } else {
            before
        }
    }
}

/// The turn keys that the nodes of a graph carry.
pub open spec fn stored_turn_keys(nodes: Seq<Node>) -> Set<Seq<char>>
    decreases nodes.len(),
{
    if nodes.len() == 0 {
        Set::empty()
    } else {
        let before = stored_turn_keys(nodes.drop_last());
        match nodes.last().meta(META_TURN_KEY@) {
            Some(key) => before.insert(key),
            None => before,
        }
    }
}

/// The number of turns in a delivery: the limit, or the default, but no more
/// than wait.
pub open spec fn batch_size(limit: Option<usize>, waiting: nat) -> nat {
    let wanted = match limit {
        Some(l) => l as nat,
        None => DEFAULT_PULL_LIMIT as nat,
    };
    if wanted < waiting {
        wanted
    } else {
        waiting
    }
}

/// The first turns of a queue.
pub(crate) fn first_ids(ids: &Vec<u64>, limit: Option<usize>) -> (r: Vec<u64>)
    ensures
        r@ == ids@.take(batch_size(limit, ids@.len()) as int),
{
    let wanted: usize = match limit {
        Some(l) => l,
        None => DEFAULT_PULL_LIMIT,
    };
    let take: usize = if wanted < ids.len() {
        wanted
    } else {
        ids.len()
    };
    let mut out: Vec<u64> = Vec::new();
    let mut i: usize = 0;
    while i < take
        invariant
            0 <= i <= take <= ids@.len(),
            out@ == ids@.take(i as int),
        decreases take - i,
    {
        out.push(ids[i]);
        assert(ids@.take(i + 1) =~= ids@.take(i as int).push(ids@[i as int]));
        i += 1;
    }
    out
}

/// The turns of a queue after the first `n`.
pub(crate) fn later_ids(ids: &Vec<u64>, n: usize) -> (r: Vec<u64>)
    requires
        n <= ids@.len(),
    ensures
        r@ == ids@.skip(n as int),
{
    let mut out: Vec<u64> = Vec::new();
    let mut i: usize = n;
    while i < ids.len()
        invariant
            n <= i <= ids@.len(),
            out@ == ids@.subrange(n as int, i as int),
        decreases ids@.len() - i,
    {
        out.push(ids[i]);
        assert(ids@.subrange(n as int, i + 1) =~= ids@.subrange(n as int, i as int).push(
            ids@[i as int],
        ));
        i += 1;
    }
    assert(out@ =~= ids@.skip(n as int));
    out
}

impl MemoryRegistry {
    /// Plans the delivery of the turns that wait in the default namespace, at
    /// most `limit` of them. The namespace that a caller names is ignored: this
    /// queue is the default one. The turns leave the queue when
    /// `confirm_pull` tells which marks were written.
    pub fn pull_pending(
        &self,
        limit: Option<usize>,
        ns: Option<&str>,
        now_ms: u64,
        graph: &Graph,
    ) -> (plan: Vec<PullItem>)
        ensures
            ({
                let queue = self@.queue(self@.key(None));
                delivers(
                    *graph,
                    queue.take(batch_size(limit, queue.len()) as int),
                    now_ms as nat,
                    plan@,
                )
            }),
    {
        let key = self.canonical_ns_key(None);
        let ids = self.queue_ids(&key);
        let first = first_ids(&ids, limit);
        plan_pull(graph, &first, now_ms)
    }

    /// Ends a delivery: the turns whose marks were written leave the queue and
    /// are delivered, all others stay queued.
    pub fn confirm_pull(&mut self, plan: &Vec<PullItem>, written: usize) -> (r: String)
        requires
            written <= plan@.len(),
            ({
                let queue = old(self)@.queue(old(self)@.key(None));
                plan@.len() <= queue.len() && queue.take(plan@.len() as int) == item_ids(plan@)
            }),
        ensures
            r@ == delivered_json(plan@.take(written as int)),
            ({
                let key = old(self)@.key(None);
                final(self)@ == old(self)@.with_queue(
                    key,
                    old(self)@.queue(key).skip(written as int),
                )
            }),
    {
        let key = self.canonical_ns_key(None);
        let ids = self.queue_ids(&key);
        let rest = later_ids(&ids, written);
        self.set_queue(&key, rest);
        delivered_text(plan, written)
    }

    /// Tells how many turns of a namespace wait, as a JSON object.
    pub fn extraction_status(&self, ns: Option<&str>) -> (r: String)
        ensures
            r@ == pending_json(self@.queue(self@.key(opt_view(ns))).len()),
    {
        let key = self.canonical_ns_key(ns);
        let mut out = "{\"pending\":".to_owned();
        push_decimal(&mut out, self.queue_len(&key) as u64);
        out.append("}");
        out
    }

    /// How many turns of the default namespace wait.
    pub fn unextracted_len(&self) -> (r: usize)
        ensures
            r == self@.queue(self@.key(None)).len(),
    {
        let key = self.canonical_ns_key(None);
        self.queue_len(&key)
    }

    /// Reads what the nodes of a namespace say about its captured turns: their
    /// keys are known from now on, and its queue holds those that are due.
    pub fn index_namespace(&mut self, key: &NamespaceKey, graph: &Graph, now_ms: u64, ttl: u64)
        ensures
            final(self)@ == indexed(old(self)@, key@, *graph, now_ms as nat, ttl as nat),
    {
        let mut due: Vec<u64> = Vec::new();
        let mut i: usize = 0;
        assert(graph.nodes@.take(0) =~= Seq::<Node>::empty());
        assert(self@.seen_turn_keys.union(stored_turn_keys(graph.nodes@.take(0)))
            =~= self@.seen_turn_keys);
        assert(self@ == (RegistryView {
            seen_turn_keys: old(self)@.seen_turn_keys.union(
                stored_turn_keys(graph.nodes@.take(0)),
            ),
            ..old(self)@
        }));
        while i < graph.nodes.len()
            invariant
                0 <= i <= graph.nodes@.len(),
                due@ == requeued_ids(graph.nodes@.take(i as int), now_ms as nat, ttl as nat),
                self@ == (RegistryView {
                    seen_turn_keys: old(self)@.seen_turn_keys.union(
                        stored_turn_keys(graph.nodes@.take(i as int)),
                    ),
                    ..old(self)@
                }),
            decreases graph.nodes@.len() - i,
        {
            let node = &graph.nodes[i];
            let ghost upto = graph.nodes@.take(i + 1);
            let ghost before = self@;
            assert(upto.drop_last() =~= graph.nodes@.take(i as int));
            assert(upto.last() == *node);
            if let Some(k) = node.get(META_TURN_KEY) {
                self.see(k.to_owned());
                assert(before.seen_turn_keys.insert(k@) =~= old(self)@.seen_turn_keys.union(
                    stored_turn_keys(upto),
                ));
            }
            let state = parse_extracted_state(node.get(META_EXTRACTED));
            if is_requeued(state, now_ms, ttl) {
                due.push(node.id);
            }
            i += 1;
        }
        assert(graph.nodes@.take(i as int) =~= graph.nodes@);
        self.set_queue(key, due);
    }

    /// Rebuilds what is known about captured turns from the nodes of one
    /// namespace alone; everything that was known before is dropped.
    pub fn load_extraction_state(
        &mut self,
        ns: Option<&str>,
        now_ms: u64,
        ttl: u64,
        graph: &Graph,
    )
        ensures
            final(self)@ == loaded(
                old(self)@,
                old(self)@.key(opt_view(ns)),
                *graph,
                now_ms as nat,
                ttl as nat,
            ),
    {
        let key = self.canonical_ns_key(ns);
        self.clear_extraction_state();
        self.index_namespace(&key, graph, now_ms, ttl);
        assert(Set::<Seq<char>>::empty().union(stored_turn_keys(graph.nodes@))
            =~= stored_turn_keys(graph.nodes@));
    }
}

/// The JSON object that tells how many turns wait.
pub open spec fn pending_json(n: nat) -> Seq<char> {
    "{\"pending\":"@ + decimal(n) + "}"@
}

/// The registry after the nodes of a namespace were read.
pub open spec fn indexed(
    r: RegistryView,
    key: Seq<char>,
    graph: Graph,
    now_ms: nat,
    ttl: nat,
) -> RegistryView {
    RegistryView {
        seen_turn_keys: r.seen_turn_keys.union(stored_turn_keys(graph.nodes@)),
        unextracted: r.unextracted.insert(key, requeued_ids(graph.nodes@, now_ms, ttl)),
        ..r
    }
}

/// The registry after everything that was known about captured turns was
/// replaced by what the nodes of one namespace say.
pub open spec fn loaded(
    r: RegistryView,
    key: Seq<char>,
    graph: Graph,
    now_ms: nat,
    ttl: nat,
) -> RegistryView {
    RegistryView {
        seen_turn_keys: stored_turn_keys(graph.nodes@),
        unextracted: no_queues().insert(key, requeued_ids(graph.nodes@, now_ms, ttl)),
        ..r
    }
}

/// A delivery holds the turns it was given, in their order, each with the content
/// of its node. A turn that was never delivered is marked with the time of its
/// first delivery, and one that was delivered once is marked as done.
pub proof fn deliveries_hold_what_was_claimed(
    graph: Graph,
    ids: Seq<u64>,
    now_ms: nat,
    plan: Seq<PullItem>,
    k: int,
    n: Node,
)
    requires
        delivers(graph, ids, now_ms, plan),
        0 <= k < ids.len(),
        forall|j: int| 0 <= j < k ==> ids[j] != ids[k],
    ensures
        plan.len() == ids.len(),
        plan[k].id == ids[k],
        graph.node(ids[k]) is None ==> plan[k].content@.len() == 0,
        graph.node(ids[k]) == Some(n) ==> {
            &&& plan[k].content@ == n.content@
            &&& n.meta("anamnesis:extracted"@) == Some("false"@) ==> plan[k].mark@ == "pending:"@
                + decimal(now_ms) + ":"@ + decimal(1)
            &&& forall|at_ms: u64|
                n.meta("anamnesis:extracted"@) == Some("pending:"@ + #[trigger] decimal(at_ms as nat)
                    + ":"@ + decimal(1)) ==> plan[k].mark@ == "true"@
        },
{
    assert forall|j: int| 0 <= j < k implies (#[trigger] plan.take(k)[j]).id != ids[k] by {
        assert(plan[j].id == ids[j]);
    }
    lemma_no_mark(plan.take(k), ids[k]);
    if graph.node(ids[k]) == Some(n) {
        assert forall|at_ms: u64|
            n.meta("anamnesis:extracted"@) == Some("pending:"@ + #[trigger] decimal(at_ms as nat)
                + ":"@ + decimal(1)) implies plan[k].mark@ == "true"@ by {
            crate::capture::pending_mark_reads_back(at_ms, 1);
        }
    }
}

proof fn lemma_no_mark(items: Seq<PullItem>, id: u64)
    requires
        forall|j: int| 0 <= j < items.len() ==> (#[trigger] items[j]).id != id,
    ensures
        last_mark(items, id) is None,
    decreases items.len(),
{
    if items.len() > 0 {
        assert(items[items.len() - 1].id != id);
        assert forall|j: int| 0 <= j < items.drop_last().len() implies (
        #[trigger] items.drop_last()[j]).id != id by {
            assert(items[j].id != id);
        }
        lemma_no_mark(items.drop_last(), id);
    }
}

/// A delivery holds as many turns as the caller says, fifty where the caller does
/// not say, and never more than wait.
pub proof fn deliveries_are_as_large_as_asked(limit: Option<usize>, waiting: nat)
    ensures
        batch_size(limit, waiting) <= waiting,
        limit matches Some(n) ==> batch_size(limit, waiting) <= n && (n <= waiting ==> batch_size(
            limit,
            waiting,
        ) == n) && (waiting <= n ==> batch_size(limit, waiting) == waiting),
        limit is None ==> batch_size(limit, waiting) <= 50 && (50 <= waiting ==> batch_size(
            limit,
            waiting,
        ) == 50) && (waiting <= 50 ==> batch_size(limit, waiting) == waiting),
{
}

/// The queue of a namespace is rebuilt from its nodes: those whose mark says that
/// they are still to be delivered, in their order.
pub proof fn queues_are_rebuilt_from_marks(nodes: Seq<Node>, now_ms: nat, ttl: nat)
    ensures
        requeued_ids(nodes, now_ms, ttl) == nodes.filter(
            |n: Node| requeues(state_of(n.meta("anamnesis:extracted"@)), now_ms, ttl),
        ).map_values(|n: Node| n.id),
    decreases nodes.len(),
{
    reveal(Seq::filter);
    let p = |n: Node| requeues(state_of(n.meta("anamnesis:extracted"@)), now_ms, ttl);
    if nodes.len() > 0 {
        queues_are_rebuilt_from_marks(nodes.drop_last(), now_ms, ttl);
        if p(nodes.last()) {
            assert(nodes.filter(p).map_values(|n: Node| n.id) =~= nodes.drop_last().filter(
                p,
            ).map_values(|n: Node| n.id).push(nodes.last().id));
        }
    } else {
        assert(nodes.filter(p).map_values(|n: Node| n.id) =~= Seq::<u64>::empty());
    }
}

/// A turn is known exactly where a node carries its key.
pub proof fn known_turns_are_those_stored(nodes: Seq<Node>, key: Seq<char>)
    ensures
        stored_turn_keys(nodes).contains(key) <==> exists|k: int|
            0 <= k < nodes.len() && (#[trigger] nodes[k]).meta("anamnesis:turn_key"@) == Some(key),
    decreases nodes.len(),
{
    if nodes.len() > 0 {
        let fewer = nodes.drop_last();
        known_turns_are_those_stored(fewer, key);
        assert(nodes[nodes.len() - 1] == nodes.last());
        if stored_turn_keys(fewer).contains(key) {
            let k = choose|k: int|
                0 <= k < fewer.len() && (#[trigger] fewer[k]).meta("anamnesis:turn_key"@) == Some(
                    key,
                );
            assert(nodes[k] == fewer[k]);
        }
        if exists|k: int|
            0 <= k < nodes.len() && (#[trigger] nodes[k]).meta("anamnesis:turn_key"@) == Some(key) {
            let k = choose|k: int|
                0 <= k < nodes.len() && (#[trigger] nodes[k]).meta("anamnesis:turn_key"@) == Some(
                    key,
                );
            if k < fewer.len() {
                assert(fewer[k] == nodes[k]);
            }
        }
    }
}

/// Reading the nodes of a namespace replaces the queue of that namespace alone,
/// adds to what is known, and changes nothing else; loading from one namespace
/// forgets what was known of any other.
pub proof fn reading_a_namespace_concerns_it_alone(
    r: RegistryView,
    key: Seq<char>,
    other: Seq<char>,
    graph: Graph,
    now_ms: nat,
    ttl: nat,
    turn_key: Seq<char>,
)
    requires
        other != key,
    ensures
        ({
            let after = indexed(r, key, graph, now_ms, ttl);
            &&& after.unextracted[key] == requeued_ids(graph.nodes@, now_ms, ttl)
            &&& after.unextracted[other] == r.unextracted[other]
            &&& after.seen_turn_keys.contains(turn_key) <==> r.seen_turn_keys.contains(turn_key)
                || stored_turn_keys(graph.nodes@).contains(turn_key)
            &&& after.ops == r.ops
            &&& after.migrations == r.migrations
            &&& after.default_namespace == r.default_namespace
            &&& after.reinforce_on_recall == r.reinforce_on_recall
            &&& after.auto_migrate_embeddings == r.auto_migrate_embeddings
        }),
        ({
            let after = loaded(r, key, graph, now_ms, ttl);
            &&& after.unextracted[key] == requeued_ids(graph.nodes@, now_ms, ttl)
            &&& after.unextracted[other].len() == 0
            &&& after.seen_turn_keys == stored_turn_keys(graph.nodes@)
            &&& after.ops == r.ops
            &&& after.migrations == r.migrations
            &&& after.default_namespace == r.default_namespace
            &&& after.reinforce_on_recall == r.reinforce_on_recall
            &&& after.auto_migrate_embeddings == r.auto_migrate_embeddings
        }),
{
}

/// Loading twice from the same nodes is loading once, whatever was known
/// before.
pub proof fn loading_is_idempotent(
    r: RegistryView,
    key: Seq<char>,
    graph: Graph,
    now_ms: nat,
    ttl: nat,
)
    ensures
        loaded(loaded(r, key, graph, now_ms, ttl), key, graph, now_ms, ttl) == loaded(
            r,
            key,
            graph,
            now_ms,
            ttl,
        ),
{
}

/// No turn is lost and none is delivered twice: what is delivered together with
/// what stays queued is the queue as it was.
pub proof fn delivery_keeps_every_turn(queue: Seq<u64>, plan: Seq<PullItem>, written: int)
    requires
        0 <= written <= plan.len() <= queue.len(),
        queue.take(plan.len() as int) == item_ids(plan),
    ensures
        item_ids(plan.take(written)) + queue.skip(written) == queue,
{
    assert forall|i: int| 0 <= i < written implies item_ids(plan.take(written))[i] == queue[i] by {
        assert(queue.take(plan.len() as int)[i] == item_ids(plan)[i]);
    }
    assert(item_ids(plan.take(written)) + queue.skip(written) =~= queue);
}

/// Rebuilding the queues from the same nodes twice is rebuilding them once.
pub proof fn indexing_is_idempotent(
    r: RegistryView,
    key: Seq<char>,
    graph: Graph,
    now_ms: nat,
    ttl: nat,
)
    ensures
        indexed(indexed(r, key, graph, now_ms, ttl), key, graph, now_ms, ttl) == indexed(
            r,
            key,
            graph,
            now_ms,
            ttl,
        ),
{
    let once = indexed(r, key, graph, now_ms, ttl);
    let twice = indexed(once, key, graph, now_ms, ttl);
    assert(twice.seen_turn_keys =~= once.seen_turn_keys);
    assert(twice.unextracted =~= once.unextracted);
}

/// Reading the nodes of one namespace leaves the queue of every other as it is.
pub proof fn indexing_is_isolated(
    r: RegistryView,
    key: Seq<char>,
    other: Seq<char>,
    graph: Graph,
    now_ms: nat,
    ttl: nat,
)
    requires
        key != other,
    ensures
        indexed(r, key, graph, now_ms, ttl).queue(other) == r.queue(other),
{
}

/// A node bears the mark that a delivery gave it last, and none of a delivery
/// that did not hold it.
pub proof fn the_last_mark_counts(items: Seq<PullItem>, id: u64)
    ensures
        match last_mark(items, id) {
            Some(mark) => exists|i: int|
                0 <= i < items.len() && (#[trigger] items[i]).id == id && items[i].mark@ == mark && (
                forall|j: int| i < j < items.len() ==> (#[trigger] items[j]).id != id),
            None => forall|j: int| 0 <= j < items.len() ==> (#[trigger] items[j]).id != id,
        },
    decreases items.len(),
{
    if items.len() > 0 {
        let fewer = items.drop_last();
        assert(items[items.len() - 1] == items.last());
        assert forall|j: int| 0 <= j < fewer.len() implies fewer[j] == #[trigger] items[j] by {}
        if items.last().id != id {
            the_last_mark_counts(fewer, id);
            if let Some(mark) = last_mark(fewer, id) {
                let i = choose|i: int|
                    0 <= i < fewer.len() && (#[trigger] fewer[i]).id == id && fewer[i].mark@ == mark
                        && (forall|j: int| i < j < fewer.len() ==> (#[trigger] fewer[j]).id != id);
                assert(items[i].id == id);
                assert forall|j: int| i < j < items.len() implies (#[trigger] items[j]).id != id by {
                    if j < fewer.len() {
                        assert(fewer[j].id != id);
                    }
                }
            } else {
                assert forall|j: int| 0 <= j < items.len() implies (#[trigger] items[j]).id != id by {
                    if j < fewer.len() {
                        assert(fewer[j].id != id);
                    }
                }
            }
        }
    }
}

}
