//! The registry: counters, the keys of the turns that are known, the queues of
//! turns that wait for extraction, and the state of every namespace.

use crate::daemon::{is_safe_name, sanitize_stem, sanitized};
use crate::text::{same, views};
use vstd::prelude::*;

verus! {

/// A namespace in the form under which everything of it is kept.
#[derive(Debug)]
pub struct NamespaceKey {
    text: String,
}

impl View for NamespaceKey {
    type V = Seq<char>;

    closed spec fn view(&self) -> Seq<char> {
        self.text@
    }
}

impl NamespaceKey {
    #[verifier::type_invariant]
    spec fn safe(self) -> bool {
        is_safe_name(self.text@)
    }

    /// The key of a namespace name.
    pub fn new(name: &str) -> (r: Self)
        ensures
            r@ == sanitized(name@),
    {
        NamespaceKey { text: sanitize_stem(name) }
    }

    /// The text of the key.
    pub fn as_str(&self) -> (r: &str)
        ensures
            r@ == self@,
            is_safe_name(r@),
    {
        proof {
            use_type_invariant(self);
        }
        self.text.as_str()
    }

    /// The same key once more.
    pub fn copy(&self) -> (r: Self)
        ensures
            r@ == self@,
    {
        proof {
            use_type_invariant(self);
        }
        NamespaceKey { text: self.text.clone() }
    }

    /// Whether two keys are the same.
    pub fn is(&self, other: &Self) -> (r: bool)
        ensures
            r == (self@ == other@),
    {
        self.text == other.text
    }
}

/// A set of texts.
#[derive(Debug)]
pub struct KeySet {
    keys: Vec<String>,
}

impl View for KeySet {
    type V = Set<Seq<char>>;

    closed spec fn view(&self) -> Set<Seq<char>> {
        views(self.keys@).to_set()
    }
}

impl KeySet {
    #[verifier::type_invariant]
    spec fn distinct(self) -> bool {
        views(self.keys@).no_duplicates()
    }

    /// The set without elements.
    pub fn new() -> (r: Self)
        ensures
            r@ == Set::<Seq<char>>::empty(),
    {
        let r = KeySet { keys: Vec::new() };
        assert(views(r.keys@) =~= Seq::<Seq<char>>::empty());
        assert(r@ =~= Set::<Seq<char>>::empty());
        r
    }

    /// Whether the set holds `key`.
    pub fn contains(&self, key: &str) -> (r: bool)
        ensures
            r == self@.contains(key@),
    {
        let mut i: usize = 0;
        while i < self.keys.len()
            invariant
                0 <= i <= self.keys@.len(),
                forall|j: int| 0 <= j < i ==> (#[trigger] self.keys@[j])@ != key@,
            decreases self.keys@.len() - i,
        {
            if same(self.keys[i].as_str(), key) {
                assert(views(self.keys@)[i as int] == key@);
                return true;
            }
            i += 1;
        }
        assert(!views(self.keys@).contains(key@)) by {
            assert forall|j: int| 0 <= j < views(self.keys@).len() implies views(self.keys@)[j]
                != key@ by {
                assert(views(self.keys@)[j] == self.keys@[j]@);
            }
        }
        false
    }

    /// How many elements the set has.
    pub fn len(&self) -> (r: usize)
        ensures
            self@.finite(),
            r == self@.len(),
    {
        proof {
            use_type_invariant(self);
            views(self.keys@).unique_seq_to_set();
        }
        self.keys.len()
    }

    /// Adds `key` to the set.
    pub fn insert(&mut self, key: String)
        ensures
            final(self)@ == old(self)@.insert(key@),
    {
        if !self.contains(key.as_str()) {
            proof {
                use_type_invariant(&*self);
            }
            let mut keys: Vec<String> = Vec::new();
            std::mem::swap(&mut keys, &mut self.keys);
            let ghost before = views(keys@);
            keys.push(key);
            assert(views(keys@) =~= before.push(key@));
            assert(views(keys@).to_set() =~= before.to_set().insert(key@)) by {
                assert forall|k: Seq<char>| #[trigger]
                    views(keys@).contains(k) <==> before.contains(k) || k == key@ by {
                    if before.contains(k) {
                        let j = choose|j: int| 0 <= j < before.len() && before[j] == k;
                        assert(views(keys@)[j] == k);
                    }
                    assert(views(keys@)[before.len() as int] == key@);
                }
            }
            self.keys = keys;
        } else {
            assert(self@.insert(key@) =~= self@);
        }
    }
}

/// Something kept for some of the namespaces.
#[derive(Debug)]
pub struct NamespaceMap<V> {
    entries: Vec<(NamespaceKey, V)>,
}

/// The value of the first entry of a namespace.
pub closed spec fn value_in<V>(entries: Seq<(NamespaceKey, V)>, ns: Seq<char>) -> Option<V>
    decreases entries.len(),
{
    if entries.len() == 0 {
        None
    } else if entries[0].0@ == ns {
        Some(entries[0].1)
    } else {
        value_in(entries.skip(1), ns)
    }
}

proof fn lemma_value_in_skip<V>(entries: Seq<(NamespaceKey, V)>, ns: Seq<char>, i: int)
    requires
        0 <= i <= entries.len(),
        forall|j: int| 0 <= j < i ==> (#[trigger] entries[j]).0@ != ns,
    ensures
        value_in(entries, ns) == value_in(entries.skip(i), ns),
    decreases i,
{
    if i > 0 {
        assert(entries[0].0@ != ns);
        assert forall|j: int| 0 <= j < i - 1 implies (#[trigger] entries.skip(1)[j]).0@ != ns by {
            assert(entries.skip(1)[j] == entries[j + 1]);
        }
        lemma_value_in_skip(entries.skip(1), ns, i - 1);
        assert(entries.skip(1).skip(i - 1) =~= entries.skip(i));
    } else {
        assert(entries.skip(0) =~= entries);
    }
}

proof fn lemma_value_in_update<V>(
    entries: Seq<(NamespaceKey, V)>,
    i: int,
    e: (NamespaceKey, V),
    ns: Seq<char>,
)
    requires
        0 <= i < entries.len(),
        e.0@ == entries[i].0@,
        forall|j: int| 0 <= j < i ==> (#[trigger] entries[j]).0@ != e.0@,
    ensures
        value_in(entries.update(i, e), ns) == (if ns == e.0@ {
            Some(e.1)
        } else {
            value_in(entries, ns)
        }),
    decreases entries.len(),
{
    let changed = entries.update(i, e);
    if i == 0 {
        assert(changed.skip(1) =~= entries.skip(1));
    } else {
        assert(changed.skip(1) =~= entries.skip(1).update(i - 1, e));
        assert(entries[0].0@ != e.0@);
        assert forall|j: int| 0 <= j < i - 1 implies (#[trigger] entries.skip(1)[j]).0@ != e.0@ by {
            assert(entries.skip(1)[j] == entries[j + 1]);
        }
        lemma_value_in_update(entries.skip(1), i - 1, e, ns);
    }
}

proof fn lemma_value_in_push<V>(
    entries: Seq<(NamespaceKey, V)>,
    e: (NamespaceKey, V),
    ns: Seq<char>,
)
    requires
        forall|j: int| 0 <= j < entries.len() ==> (#[trigger] entries[j]).0@ != e.0@,
    ensures
        value_in(entries.push(e), ns) == (if ns == e.0@ {
            Some(e.1)
        } else {
            value_in(entries, ns)
        }),
    decreases entries.len(),
{
    reveal_with_fuel(value_in, 2);
    let longer = entries.push(e);
    if entries.len() == 0 {
        assert(longer.skip(1) =~= Seq::<(NamespaceKey, V)>::empty());
    } else {
        assert(longer.skip(1) =~= entries.skip(1).push(e));
        assert(entries[0].0@ != e.0@);
        assert forall|j: int| 0 <= j < entries.skip(1).len() implies (
        #[trigger] entries.skip(1)[j]).0@ != e.0@ by {
            assert(entries.skip(1)[j] == entries[j + 1]);
        }
        lemma_value_in_push(entries.skip(1), e, ns);
    }
}

impl<V> View for NamespaceMap<V> {
    type V = Map<Seq<char>, V>;

    closed spec fn view(&self) -> Map<Seq<char>, V> {
        Map::new(
            |ns: Seq<char>| value_in(self.entries@, ns) is Some,
            |ns: Seq<char>| value_in(self.entries@, ns)->0,
        )
    }
}

impl<V> NamespaceMap<V> {
    /// Nothing is kept.
    pub fn new() -> (r: Self)
        ensures
            r@ == Map::<Seq<char>, V>::empty(),
    {
        let r = NamespaceMap { entries: Vec::new() };
        assert(r@ =~= Map::<Seq<char>, V>::empty());
        r
    }

    /// The position of the entry of a namespace, or the number of entries.
    fn position(&self, ns: &NamespaceKey) -> (r: usize)
        ensures
            r <= self.entries@.len(),
            r < self.entries@.len() ==> self.entries@[r as int].0@ == ns@,
            forall|j: int| 0 <= j < r ==> (#[trigger] self.entries@[j]).0@ != ns@,
    {
        let mut i: usize = 0;
        while i < self.entries.len()
            invariant
                0 <= i <= self.entries@.len(),
                forall|j: int| 0 <= j < i ==> (#[trigger] self.entries@[j]).0@ != ns@,
            decreases self.entries@.len() - i,
        {
            if self.entries[i].0.is(ns) {
                return i;
            }
            i += 1;
        }
        i
    }

    /// What is kept for a namespace.
    pub fn get(&self, ns: &NamespaceKey) -> (r: Option<&V>)
        ensures
            match r {
                Some(v) => self@.contains_key(ns@) && self@[ns@] == *v,
                None => !self@.contains_key(ns@),
            },
    {
        let i = self.position(ns);
        proof {
            lemma_value_in_skip(self.entries@, ns@, i as int);
        }
        if i < self.entries.len() {
            assert(self.entries@.skip(i as int)[0] == self.entries@[i as int]);
            Some(&self.entries[i].1)
        } else {
            assert(self.entries@.skip(i as int) =~= Seq::<(NamespaceKey, V)>::empty());
            None
        }
    }

    /// Keeps `value` for a namespace, in place of what was kept.
    pub fn set(&mut self, ns: &NamespaceKey, value: V)
        ensures
            final(self)@ == old(self)@.insert(ns@, value),
    {
        let i = self.position(ns);
        let ghost before = self.entries@;
        let e = (ns.copy(), value);
        if i < self.entries.len() {
            self.entries.set(i, e);
            assert forall|n: Seq<char>| #[trigger] value_in(self.entries@, n) == (if n == ns@ {
                Some(value)
            } else {
                value_in(before, n)
            }) by {
                lemma_value_in_update(before, i as int, e, n);
            }
        } else {
            self.entries.push(e);
            assert forall|n: Seq<char>| #[trigger] value_in(self.entries@, n) == (if n == ns@ {
                Some(value)
            } else {
                value_in(before, n)
            }) by {
                lemma_value_in_push(before, e, n);
            }
        }
        assert(self@ =~= old(self)@.insert(ns@, value));
    }
}

/// The queues of the namespaces; a namespace for which none is kept has an
/// empty one.
#[derive(Debug)]
pub struct Queues {
    lists: NamespaceMap<Vec<u64>>,
}

impl View for Queues {
    type V = Map<Seq<char>, Seq<u64>>;

    closed spec fn view(&self) -> Map<Seq<char>, Seq<u64>> {
        Map::new(
            |ns: Seq<char>| true,
            |ns: Seq<char>|
                if self.lists@.contains_key(ns) {
                    self.lists@[ns]@
                } else {
                    Seq::empty()
                },
        )
    }
}

/// Every queue is empty.
pub open spec fn no_queues() -> Map<Seq<char>, Seq<u64>> {
    Map::new(|ns: Seq<char>| true, |ns: Seq<char>| Seq::<u64>::empty())
}

impl Queues {
    /// Every queue is empty.
    pub fn new() -> (r: Self)
        ensures
            r@ == no_queues(),
    {
        let r = Queues { lists: NamespaceMap::new() };
        assert(r@ =~= no_queues());
        r
    }

    /// How many ids wait in a namespace.
    pub fn len(&self, ns: &NamespaceKey) -> (r: usize)
        ensures
            r == self@[ns@].len(),
    {
        match self.lists.get(ns) {
            Some(ids) => ids.len(),
            None => 0,
        }
    }

    /// The ids that wait in a namespace.
    pub fn get(&self, ns: &NamespaceKey) -> (r: Vec<u64>)
        ensures
            r@ == self@[ns@],
    {
        match self.lists.get(ns) {
            Some(ids) => {
                let r = ids.clone();
                assert(r@ =~= ids@);
                r
            },
            None => Vec::new(),
        }
    }

    /// Replaces the queue of a namespace.
    pub fn set(&mut self, ns: &NamespaceKey, ids: Vec<u64>)
        ensures
            final(self)@ == old(self)@.insert(ns@, ids@),
    {
        self.lists.set(ns, ids);
        assert(self@ =~= old(self)@.insert(ns@, ids@));
    }
}

/// Counts of what the service was asked for and of what went wrong.
#[derive(Debug, Clone, Copy, PartialEq, Eq, Structural)]
pub struct Ops {
    pub recalls: u64,
    pub reinforcing_recalls: u64,
    pub empty_recalls: u64,
    pub remembers: u64,
    pub relates: u64,
    pub captured_turns: u64,
    pub extraction_pulls: u64,
    pub dispatch_errors: u64,
    pub ingest_errors: u64,
}

impl Ops {
    /// Whether every counter can still be raised by one.
    pub open spec fn room(self) -> bool {
        &&& self.recalls < u64::MAX
        &&& self.reinforcing_recalls < u64::MAX
        &&& self.empty_recalls < u64::MAX
        &&& self.remembers < u64::MAX
        &&& self.relates < u64::MAX
        &&& self.extraction_pulls < u64::MAX
        &&& self.dispatch_errors < u64::MAX
        &&& self.ingest_errors < u64::MAX
    }

    /// One failed request more.
    pub open spec fn failed(self) -> Ops {
        Ops { dispatch_errors: (self.dispatch_errors + 1) as u64, ..self }
    }

    /// One failed ingest more, which is a failed request too.
    pub open spec fn ingest_failed(self) -> Ops {
        Ops {
            dispatch_errors: (self.dispatch_errors + 1) as u64,
            ingest_errors: (self.ingest_errors + 1) as u64,
            ..self
        }
    }

    /// Nothing was counted yet.
    pub open spec fn zero() -> Ops {
        Ops {
            recalls: 0,
            reinforcing_recalls: 0,
            empty_recalls: 0,
            remembers: 0,
            relates: 0,
            captured_turns: 0,
            extraction_pulls: 0,
            dispatch_errors: 0,
            ingest_errors: 0,
        }
    }

    /// Nothing was counted yet.
    pub fn new() -> (r: Self)
        ensures
            r == Ops::zero(),
    {
        Ops {
            recalls: 0,
            reinforcing_recalls: 0,
            empty_recalls: 0,
            remembers: 0,
            relates: 0,
            captured_turns: 0,
            extraction_pulls: 0,
            dispatch_errors: 0,
            ingest_errors: 0,
        }
    }

    /// Whether every counter can still be raised by one.
    pub fn has_room(&self) -> (r: bool)
        ensures
            r == self.room(),
    {
        self.recalls < u64::MAX && self.reinforcing_recalls < u64::MAX && self.empty_recalls
            < u64::MAX && self.remembers < u64::MAX && self.relates < u64::MAX
            && self.extraction_pulls < u64::MAX && self.dispatch_errors < u64::MAX
            && self.ingest_errors < u64::MAX
    }
}

/// Where a namespace stands with the model its vectors were made with.
#[derive(Debug)]
pub enum NamespaceMigrationState {
    /// Its vectors fit the model in use.
    Ready,
    /// They are being made anew.
    Migrating,
    /// Making them anew failed.
    Failed { message: String },
}

/// The state of a namespace, its message by its characters.
pub enum MigrationView {
    Ready,
    Migrating,
    Failed { message: Seq<char> },
}

impl View for NamespaceMigrationState {
    type V = MigrationView;

    open spec fn view(&self) -> MigrationView {
        match self {
            NamespaceMigrationState::Ready => MigrationView::Ready,
            NamespaceMigrationState::Migrating => MigrationView::Migrating,
            NamespaceMigrationState::Failed { message } => MigrationView::Failed {
                message: message@,
            },
        }
    }
}

/// The state that all requests share.
#[derive(Debug)]
pub struct MemoryRegistry {
    ops: Ops,
    reinforce_on_recall: bool,
    auto_migrate_embeddings: bool,
    default_namespace: String,
    seen_turn_keys: KeySet,
    unextracted: Queues,
    migrations: NamespaceMap<NamespaceMigrationState>,
}

/// What a registry holds.
#[verifier::ext_equal]
pub struct RegistryView {
    pub ops: Ops,
    pub reinforce_on_recall: bool,
    pub auto_migrate_embeddings: bool,
    pub default_namespace: Seq<char>,
    pub seen_turn_keys: Set<Seq<char>>,
    pub unextracted: Map<Seq<char>, Seq<u64>>,
    pub migrations: Map<Seq<char>, MigrationView>,
}

impl RegistryView {
    /// The key of the namespace that a request names, or of the default one.
    pub open spec fn key(self, ns: Option<Seq<char>>) -> Seq<char> {
        sanitized(
            match ns {
                Some(n) => n,
                None => self.default_namespace,
            },
        )
    }

    /// The queue of a namespace.
    pub open spec fn queue(self, key: Seq<char>) -> Seq<u64> {
        self.unextracted[key]
    }

    /// The registry after the counters changed.
    pub open spec fn with_ops(self, ops: Ops) -> RegistryView {
        RegistryView { ops, ..self }
    }

    /// Where a namespace stands, as far as that is known.
    pub open spec fn migration(self, key: Seq<char>) -> Option<MigrationView> {
        if self.migrations.contains_key(key) {
            Some(self.migrations[key])
        } else {
            None
        }
    }

    /// The registry after a namespace came to stand otherwise.
    pub open spec fn with_migration(self, key: Seq<char>, state: MigrationView) -> RegistryView {
        RegistryView { migrations: self.migrations.insert(key, state), ..self }
    }

    /// The registry after the queue of a namespace changed.
    pub open spec fn with_queue(self, key: Seq<char>, ids: Seq<u64>) -> RegistryView {
        RegistryView { unextracted: self.unextracted.insert(key, ids), ..self }
    }
}

impl View for MemoryRegistry {
    type V = RegistryView;

    closed spec fn view(&self) -> RegistryView {
        RegistryView {
            ops: self.ops,
            reinforce_on_recall: self.reinforce_on_recall,
            auto_migrate_embeddings: self.auto_migrate_embeddings,
            default_namespace: self.default_namespace@,
            seen_turn_keys: self.seen_turn_keys@,
            unextracted: self.unextracted@,
            migrations: self.migrations@.map_values(|s: NamespaceMigrationState| s@),
        }
    }
}

/// The text that a request names a namespace by.
pub open spec fn opt_view(s: Option<&str>) -> Option<Seq<char>> {
    match s {
        Some(t) => Some(t@),
        None => None,
    }
}

impl MemoryRegistry {
    /// A registry that has seen nothing yet.
    pub fn new(default_namespace: String, reinforce_on_recall: bool) -> (r: Self)
        ensures
            r@ == (RegistryView {
                ops: Ops::zero(),
                reinforce_on_recall,
                auto_migrate_embeddings: true,
                default_namespace: default_namespace@,
                seen_turn_keys: Set::empty(),
                unextracted: no_queues(),
                migrations: Map::empty(),
            }),
    {
        let r = MemoryRegistry {
            ops: Ops::new(),
            reinforce_on_recall,
            auto_migrate_embeddings: true,
            default_namespace,
            seen_turn_keys: KeySet::new(),
            unextracted: Queues::new(),
            migrations: NamespaceMap::new(),
        };
        assert(r@.migrations =~= Map::<Seq<char>, MigrationView>::empty());
        r
    }

    /// The counters.
    pub fn ops(&self) -> (r: Ops)
        ensures
            r == self@.ops,
    {
        self.ops
    }

    /// Replaces the counters.
    pub(crate) fn set_ops(&mut self, ops: Ops)
        ensures
            final(self)@ == old(self)@.with_ops(ops),
    {
        self.ops = ops;
        assert(self@ =~= old(self)@.with_ops(ops));
    }

    /// Counts one failed request.
    pub(crate) fn count_failure(&mut self)
        requires
            old(self)@.ops.room(),
        ensures
            final(self)@ == old(self)@.with_ops(old(self)@.ops.failed()),
    {
        let mut ops = self.ops;
        ops.dispatch_errors = ops.dispatch_errors + 1;
        self.set_ops(ops);
    }

    /// Whether a recall strengthens what it finds where the request leaves it
    /// open.
    pub fn reinforces(&self) -> (r: bool)
        ensures
            r == self@.reinforce_on_recall,
    {
        self.reinforce_on_recall
    }

    /// Whether namespaces are migrated without being asked.
    pub fn auto_migrates(&self) -> (r: bool)
        ensures
            r == self@.auto_migrate_embeddings,
    {
        self.auto_migrate_embeddings
    }

    /// Switches the migration of namespaces on or off.
    pub fn set_auto_migrate_embeddings(&mut self, on: bool)
        ensures
            final(self)@ == (RegistryView { auto_migrate_embeddings: on, ..old(self)@ }),
    {
        self.auto_migrate_embeddings = on;
        assert(self@ =~= (RegistryView { auto_migrate_embeddings: on, ..old(self)@ }));
    }

    /// The key of the namespace that a request names, or of the default one.
    pub fn canonical_ns_key(&self, ns: Option<&str>) -> (r: NamespaceKey)
        ensures
            r@ == self@.key(opt_view(ns)),
    {
        match ns {
            Some(n) => NamespaceKey::new(n),
            None => NamespaceKey::new(self.default_namespace.as_str()),
        }
    }

    /// Whether a turn with this key is known.
    pub fn has_seen(&self, key: &str) -> (r: bool)
        ensures
            r == self@.seen_turn_keys.contains(key@),
    {
        self.seen_turn_keys.contains(key)
    }

    /// How many turns are known.
    pub fn seen_len(&self) -> (r: usize)
        ensures
            r == self@.seen_turn_keys.len(),
    {
        self.seen_turn_keys.len()
    }

    /// Remembers the key of a turn.
    pub(crate) fn see(&mut self, key: String)
        ensures
            final(self)@ == (RegistryView {
                seen_turn_keys: old(self)@.seen_turn_keys.insert(key@),
                ..old(self)@
            }),
    {
        self.seen_turn_keys.insert(key);
        assert(self@ =~= (RegistryView {
            seen_turn_keys: old(self)@.seen_turn_keys.insert(key@),
            ..old(self)@
        }));
    }

    /// Forgets all turns and empties all queues.
    pub(crate) fn clear_extraction_state(&mut self)
        ensures
            final(self)@ == (RegistryView {
                seen_turn_keys: Set::empty(),
                unextracted: no_queues(),
                ..old(self)@
            }),
    {
        self.seen_turn_keys = KeySet::new();
        self.unextracted = Queues::new();
        assert(self@ =~= (RegistryView {
            seen_turn_keys: Set::empty(),
            unextracted: no_queues(),
            ..old(self)@
        }));
    }

    /// How many turns of a namespace wait for extraction.
    pub fn queue_len(&self, key: &NamespaceKey) -> (r: usize)
        ensures
            r == self@.queue(key@).len(),
    {
        self.unextracted.len(key)
    }

    /// The turns of a namespace that wait for extraction.
    pub fn queue_ids(&self, key: &NamespaceKey) -> (r: Vec<u64>)
        ensures
            r@ == self@.queue(key@),
    {
        self.unextracted.get(key)
    }

    /// Replaces the queue of a namespace.
    pub(crate) fn set_queue(&mut self, key: &NamespaceKey, ids: Vec<u64>)
        ensures
            final(self)@ == old(self)@.with_queue(key@, ids@),
    {
        self.unextracted.set(key, ids);
        assert(self@ =~= old(self)@.with_queue(key@, ids@));
    }

    /// Where a namespace stands, as far as that is known.
    pub fn namespace_migration_state(&self, key: &NamespaceKey) -> (r: Option<
        &NamespaceMigrationState,
    >)
        ensures
            match r {
                Some(s) => self@.migration(key@) == Some(s@),
                None => self@.migration(key@) is None,
            },
    {
        self.migrations.get(key)
    }

    /// Notes where a namespace stands.
    pub(crate) fn set_migration(&mut self, key: &NamespaceKey, state: NamespaceMigrationState)
        ensures
            final(self)@ == old(self)@.with_migration(key@, state@),
    {
        self.migrations.set(key, state);
        assert(self@ =~= old(self)@.with_migration(key@, state@));
    }

    /// Notes how the migration of a namespace ended.
    pub fn finish_namespace_migration(&mut self, key: &NamespaceKey, result: Result<(), String>)
        ensures
            final(self)@ == old(self)@.with_migration(
                key@,
                match result {
                    Ok(_) => MigrationView::Ready,
                    Err(message) => MigrationView::Failed { message: message@ },
                },
            ),
    {
        match result {
            Ok(_) => self.set_migration(key, NamespaceMigrationState::Ready),
            Err(message) => self.set_migration(key, NamespaceMigrationState::Failed { message }),
        }
    }
}

/// A namespace is kept under the form of its own name, and where none is named
/// under that of the default one; spellings with the same form share a key, and a
/// name that is in that form already is its own key.
pub proof fn namespaces_are_kept_under_their_name(r: RegistryView, ns: Seq<char>)
    ensures
        r.key(Some(ns)) == sanitized(ns),
        r.key(None) == r.key(Some(r.default_namespace)),
        r.key(Some(r.key(Some(ns)))) == r.key(Some(ns)),
        is_safe_name(r.key(Some(ns))),
{
    crate::daemon::sanitized_is_safe(ns);
    crate::daemon::sanitizing_is_idempotent(ns);
}

/// A change of the registry is read back where it was made, and shows nowhere
/// else.
pub proof fn changes_are_read_back(
    r: RegistryView,
    key: Seq<char>,
    other: Seq<char>,
    ops: Ops,
    state: MigrationView,
    ids: Seq<u64>,
)
    ensures
        r.with_ops(ops).ops == ops,
        r.with_ops(r.ops) == r,
        r.with_ops(ops).with_ops(r.ops) == r,
        r.with_migration(key, state).migration(key) == Some(state),
        other != key ==> r.with_migration(key, state).migration(other) == r.migration(other),
        r.with_migration(key, state).ops == r.ops,
        r.with_migration(key, state).unextracted == r.unextracted,
        r.with_migration(key, state).seen_turn_keys == r.seen_turn_keys,
        r.with_migration(key, state).default_namespace == r.default_namespace,
        r.with_migration(key, state).reinforce_on_recall == r.reinforce_on_recall,
        r.with_migration(key, state).auto_migrate_embeddings == r.auto_migrate_embeddings,
        r.with_queue(key, ids).queue(key) == ids,
        other != key ==> r.with_queue(key, ids).queue(other) == r.queue(other),
        r.with_queue(key, ids).ops == r.ops,
        r.with_queue(key, ids).migrations == r.migrations,
        r.with_queue(key, ids).seen_turn_keys == r.seen_turn_keys,
        r.with_queue(key, ids).default_namespace == r.default_namespace,
        r.with_queue(key, ids).reinforce_on_recall == r.reinforce_on_recall,
        r.with_queue(key, ids).auto_migrate_embeddings == r.auto_migrate_embeddings,
        no_queues().contains_key(key) && no_queues()[key].len() == 0,
{
}

/// A failure is counted once, among the failed requests, and that of an ingest
/// also among the failed ingests; nothing else is counted with it, and at first
/// nothing is counted.
pub proof fn failures_are_counted_once(ops: Ops)
    requires
        ops.room(),
    ensures
        ops.failed().dispatch_errors == ops.dispatch_errors + 1,
        ops.failed().ingest_errors == ops.ingest_errors,
        ops.ingest_failed().dispatch_errors == ops.dispatch_errors + 1,
        ops.ingest_failed().ingest_errors == ops.ingest_errors + 1,
        ({
            let a = ops.failed();
            let b = ops.ingest_failed();
            &&& a.recalls == ops.recalls && b.recalls == ops.recalls
            &&& a.reinforcing_recalls == ops.reinforcing_recalls && b.reinforcing_recalls
                == ops.reinforcing_recalls
            &&& a.empty_recalls == ops.empty_recalls && b.empty_recalls == ops.empty_recalls
            &&& a.remembers == ops.remembers && b.remembers == ops.remembers
            &&& a.relates == ops.relates && b.relates == ops.relates
            &&& a.captured_turns == ops.captured_turns && b.captured_turns == ops.captured_turns
            &&& a.extraction_pulls == ops.extraction_pulls && b.extraction_pulls
                == ops.extraction_pulls
        }),
        ({
            let z = Ops::zero();
            &&& z.recalls == 0 && z.reinforcing_recalls == 0 && z.empty_recalls == 0
            &&& z.remembers == 0 && z.relates == 0 && z.captured_turns == 0
            &&& z.extraction_pulls == 0 && z.dispatch_errors == 0 && z.ingest_errors == 0
        }),
{
}

/// Where a namespace stands is told with the message of its failure.
pub proof fn states_keep_their_message(state: NamespaceMigrationState)
    ensures
        state is Ready <==> state@ is Ready,
        state is Migrating <==> state@ is Migrating,
        state matches NamespaceMigrationState::Failed { message } ==> state@ == (
        MigrationView::Failed { message: message@ }),
{
}

}
