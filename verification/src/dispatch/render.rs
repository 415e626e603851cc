//! The texts that answer requests. Numbers that may have a fraction arrive as
//! the text they are to be shown as.

use crate::json::{
    array_text, comma_joined, json_array, json_bool, json_optional, push_json_bool,
    push_json_optional, push_json_string,
};
use crate::outside::json_quoted;
use crate::proto::RecallEventKind;
use crate::text::{chars_of, decimal, push_decimal, text_of, trim, trimmed, views};
use vstd::prelude::*;
use vstd::string::StringExecFns;

verus! {

/// How long a memory is likely to stay.
#[derive(Debug, Clone, Copy, PartialEq, Eq, Structural)]
pub enum MemoryTier {
    Core,
    Recall,
    Archival,
}

impl MemoryTier {
    /// The name of the tier.
    pub open spec fn label(self) -> Seq<char> {
        match self {
            MemoryTier::Core => "Core"@,
            MemoryTier::Recall => "Recall"@,
            MemoryTier::Archival => "Archival"@,
        }
    }

    /// The name of the tier.
    pub fn as_str(self) -> (r: &'static str)
        ensures
            r@ == self.label(),
    {
        match self {
            MemoryTier::Core => "Core",
            MemoryTier::Recall => "Recall",
            MemoryTier::Archival => "Archival",
        }
    }
}

/// A stored memory as a caller sees it. `salience` and `confidence` hold the
/// JSON text of their numbers.
#[derive(Debug, Clone)]
pub struct MemoryView {
    pub node_id: u64,
    pub content: String,
    pub metadata: Vec<(String, String)>,
    pub entity_tags: Vec<String>,
    pub salience: String,
    pub tier: MemoryTier,
    pub node_type: String,
    pub created_at: u64,
    pub updated_at: u64,
    pub valid_from: Option<u64>,
    pub valid_until: Option<u64>,
    pub retracted: bool,
    pub peer_id: String,
    pub session_id: String,
    pub scope: String,
    pub confidence: String,
}

/// How many characters of its content a list shows of a memory.
pub const PREVIEW_LEN: usize = 120;

/// The beginning of a content; longer contents end in an ellipsis.
pub open spec fn preview(content: Seq<char>) -> Seq<char> {
    if content.len() > PREVIEW_LEN {
        content.take(PREVIEW_LEN as int).push('\u{2026}')
    } else {
        content
    }
}

/// A content that fits is shown whole. Of a longer one the first hundred and
/// twenty characters are shown, each in its place, and then an ellipsis.
pub proof fn previews_show_the_beginning(content: Seq<char>)
    ensures
        content.len() <= 120 ==> preview(content) == content,
        content.len() > 120 ==> preview(content).len() == 121 && preview(content)[120]
            == '\u{2026}' && (forall|i: int|
            0 <= i < 120 ==> #[trigger] preview(content)[i] == content[i]),
{
}

fn preview_text(content: &str) -> (r: String)
    ensures
        r@ == preview(content@),
{
    let v = chars_of(content);
    if v.len() > PREVIEW_LEN {
        let mut out = text_of(&v, 0, PREVIEW_LEN);
        assert(out@ =~= content@.take(PREVIEW_LEN as int));
        out.push('\u{2026}');
        out
    } else {
        content.to_owned()
    }
}

/// The JSON object by which a list shows a memory.
pub open spec fn list_item(v: MemoryView) -> Seq<char> {
    "{\"confidence\":"@ + v.confidence@ + ",\"content_preview\":"@ + json_quoted(preview(v.content@))
        + ",\"created_at\":"@ + decimal(v.created_at as nat) + ",\"node_id\":"@ + decimal(
        v.node_id as nat,
    ) + ",\"node_type\":"@ + json_quoted(v.node_type@) + ",\"peer_id\":"@ + json_quoted(v.peer_id@)
        + ",\"retracted\":"@ + json_bool(v.retracted) + ",\"salience\":"@ + v.salience@
        + ",\"scope\":"@ + json_quoted(v.scope@) + ",\"session_id\":"@ + json_quoted(v.session_id@)
        + ",\"tier\":"@ + json_quoted(v.tier.label()) + ",\"valid_until\":"@ + json_optional(
        v.valid_until,
    ) + "}"@
}

fn list_item_json(v: &MemoryView) -> (r: String)
    ensures
        r@ == list_item(*v),
{
    let mut out = "{\"confidence\":".to_owned();
    out.append(v.confidence.as_str());
    out.append(",\"content_preview\":");
    let shown = preview_text(v.content.as_str());
    push_json_string(&mut out, shown.as_str());
    out.append(",\"created_at\":");
    push_decimal(&mut out, v.created_at);
    out.append(",\"node_id\":");
    push_decimal(&mut out, v.node_id);
    out.append(",\"node_type\":");
    push_json_string(&mut out, v.node_type.as_str());
    out.append(",\"peer_id\":");
    push_json_string(&mut out, v.peer_id.as_str());
    out.append(",\"retracted\":");
    push_json_bool(&mut out, v.retracted);
    out.append(",\"salience\":");
    out.append(v.salience.as_str());
    out.append(",\"scope\":");
    push_json_string(&mut out, v.scope.as_str());
    out.append(",\"session_id\":");
    push_json_string(&mut out, v.session_id.as_str());
    out.append(",\"tier\":");
    push_json_string(&mut out, v.tier.as_str());
    out.append(",\"valid_until\":");
    push_json_optional(&mut out, v.valid_until);
    out.append("}");
    out
}

/// The JSON array that lists memories.
pub open spec fn list_json(list: Seq<MemoryView>) -> Seq<char> {
    json_array(list.map_values(|v: MemoryView| list_item(v)))
}

/// Lists memories.
pub fn render_list(list: &Vec<MemoryView>) -> (r: String)
    ensures
        r@ == list_json(list@),
{
    let mut items: Vec<String> = Vec::new();
    let mut i: usize = 0;
    while i < list.len()
        invariant
            0 <= i <= list@.len(),
            views(items@) == list@.take(i as int).map_values(|v: MemoryView| list_item(v)),
        decreases list@.len() - i,
    {
        let item = list_item_json(&list[i]);
        let ghost before = items@;
        items.push(item);
        assert(views(items@) =~= views(before).push(item@));
        assert(list@.take(i + 1).map_values(|v: MemoryView| list_item(v)) =~= list@.take(
            i as int,
        ).map_values(|v: MemoryView| list_item(v)).push(list_item(list@[i as int])));
        i += 1;
    }
    assert(list@.take(i as int) =~= list@);
    array_text(&items)
}

/// Whether `a` stands before `b` in the order of texts.
pub open spec fn text_before(a: Seq<char>, b: Seq<char>) -> bool
    decreases a.len(),
{
    if b.len() == 0 {
        false
    } else if a.len() == 0 {
        true
    } else if a[0] != b[0] {
        a[0] < b[0]
    } else {
        text_before(a.skip(1), b.skip(1))
    }
}

proof fn lemma_text_before_skip(a: Seq<char>, b: Seq<char>, i: int)
    requires
        0 <= i <= a.len(),
        i <= b.len(),
        forall|j: int| 0 <= j < i ==> #[trigger] a[j] == b[j],
    ensures
        text_before(a, b) == text_before(a.skip(i), b.skip(i)),
    decreases i,
{
    if i > 0 {
        assert(a[0] == b[0]);
        assert forall|j: int| 0 <= j < i - 1 implies #[trigger] a.skip(1)[j] == b.skip(1)[j] by {
            assert(a[j + 1] == b[j + 1]);
        }
        lemma_text_before_skip(a.skip(1), b.skip(1), i - 1);
        assert(a.skip(1).skip(i - 1) =~= a.skip(i));
        assert(b.skip(1).skip(i - 1) =~= b.skip(i));
    } else {
        assert(a.skip(0) =~= a);
        assert(b.skip(0) =~= b);
    }
}

fn is_before(a: &str, b: &str) -> (r: bool)
    ensures
        r == text_before(a@, b@),
{
    let x = chars_of(a);
    let y = chars_of(b);
    let mut i: usize = 0;
    while i < x.len() && i < y.len() && x[i] == y[i]
        invariant
            0 <= i <= x@.len(),
            i <= y@.len(),
            x@ == a@,
            y@ == b@,
            forall|j: int| 0 <= j < i ==> #[trigger] x@[j] == y@[j],
        decreases x@.len() - i,
    {
        i += 1;
    }
    proof {
        lemma_text_before_skip(a@, b@, i as int);
    }
    if i == y.len() {
        false
    } else if i == x.len() {
        true
    } else {
        assert(a@.skip(i as int)[0] == x@[i as int]);
        assert(b@.skip(i as int)[0] == y@[i as int]);
        x[i] < y[i]
    }
}

/// Pairs of texts by their characters.
pub open spec fn pair_views(v: Seq<(String, String)>) -> Seq<(Seq<char>, Seq<char>)> {
    v.map_values(|p: (String, String)| (p.0@, p.1@))
}

/// `pairs`, which are in order, with one pair more; a pair with the same key
/// gives way to it.
pub open spec fn with_pair(
    pairs: Seq<(Seq<char>, Seq<char>)>,
    p: (Seq<char>, Seq<char>),
) -> Seq<(Seq<char>, Seq<char>)>
    decreases pairs.len(),
{
    if pairs.len() == 0 {
        seq![p]
    } else if pairs.last().0 == p.0 {
        pairs.drop_last().push(p)
    } else if text_before(pairs.last().0, p.0) {
        pairs.push(p)
    } else {
        with_pair(pairs.drop_last(), p).push(pairs.last())
    }
}

/// The pairs in the order of their keys, the last pair of each key.
pub open spec fn by_key(pairs: Seq<(Seq<char>, Seq<char>)>) -> Seq<(Seq<char>, Seq<char>)>
    decreases pairs.len(),
{
    if pairs.len() == 0 {
        Seq::empty()
    } else {
        with_pair(by_key(pairs.drop_last()), pairs.last())
    }
}

proof fn lemma_before_trans(a: Seq<char>, b: Seq<char>, c: Seq<char>)
    requires
        text_before(a, b),
        text_before(b, c),
    ensures
        text_before(a, c),
    decreases a.len(),
{
    if a.len() > 0 && a[0] == b[0] && b[0] == c[0] {
        lemma_before_trans(a.skip(1), b.skip(1), c.skip(1));
    }
}

/// The order of texts is an order: no text stands before itself, of two different
/// texts one stands before the other, and what stands before a text stands before
/// all that follow it. A text stands before those that it begins, and otherwise
/// the first character at which two texts differ decides.
pub proof fn texts_are_ordered(a: Seq<char>, b: Seq<char>, c: Seq<char>)
    ensures
        !text_before(a, a),
        a != b ==> text_before(a, b) || text_before(b, a),
        !(text_before(a, b) && text_before(b, a)),
        text_before(a, b) && text_before(b, c) ==> text_before(a, c),
        c.len() > 0 ==> text_before(a, a + c),
        forall|i: int|
            0 <= i < a.len() && i < b.len() && a[i] != b[i] && (forall|j: int|
                0 <= j < i ==> a[j] == b[j]) ==> text_before(a, b) == (#[trigger] a[i] < b[i]),
    decreases a.len(),
{
    if text_before(a, b) && text_before(b, c) {
        lemma_before_trans(a, b, c);
    }
    if a.len() > 0 {
        texts_are_ordered(a.skip(1), b.skip(1), c);
        texts_are_ordered(a.skip(1), a.skip(1), c);
        assert((a + c).skip(1) =~= a.skip(1) + c);
        if b.len() > 0 && a[0] == b[0] && a != b {
            assert(a.skip(1) != b.skip(1)) by {
                if a.skip(1) == b.skip(1) {
                    assert(a =~= seq![a[0]] + a.skip(1));
                    assert(b =~= seq![b[0]] + b.skip(1));
                }
            }
        }
    } else if a != b {
        assert(b.len() > 0) by {
            if b.len() == 0 {
                assert(a =~= b);
            }
        }
    }
    assert forall|i: int|
        0 <= i < a.len() && i < b.len() && a[i] != b[i] && (forall|j: int|
            0 <= j < i ==> a[j] == b[j]) implies text_before(a, b) == (#[trigger] a[i] < b[i]) by {
        lemma_text_before_skip(a, b, i);
        assert(a.skip(i)[0] == a[i] && b.skip(i)[0] == b[i]);
    }
}

/// Whether the pairs stand in the order of their keys, each key once.
pub open spec fn in_order(pairs: Seq<(Seq<char>, Seq<char>)>) -> bool {
    forall|i: int, j: int|
        0 <= i < j < pairs.len() ==> text_before((#[trigger] pairs[i]).0, (#[trigger] pairs[j]).0)
}

proof fn lemma_with_pair(pairs: Seq<(Seq<char>, Seq<char>)>, p: (Seq<char>, Seq<char>))
    requires
        in_order(pairs),
    ensures
        in_order(with_pair(pairs, p)),
        with_pair(pairs, p).len() > 0,
        with_pair(pairs, p).last().0 == p.0 || (pairs.len() > 0 && with_pair(pairs, p).last()
            == pairs.last() && text_before(p.0, pairs.last().0)),
        forall|q: (Seq<char>, Seq<char>)|
            #[trigger] with_pair(pairs, p).contains(q) <==> q == p || (q.0 != p.0 && pairs.contains(
                q,
            )),
    decreases pairs.len(),
{
    let all = with_pair(pairs, p);
    if pairs.len() == 0 {
        assert forall|q: (Seq<char>, Seq<char>)| #[trigger] all.contains(q) <==> q == p || (q.0
            != p.0 && pairs.contains(q)) by {
            if q == p {
                assert(all[0] == q);
            }
        }
    } else {
        let fewer = pairs.drop_last();
        let last = pairs.last();
        assert(in_order(fewer)) by {
            assert forall|i: int, j: int| 0 <= i < j < fewer.len() implies text_before(
                (#[trigger] fewer[i]).0,
                (#[trigger] fewer[j]).0,
            ) by {
                assert(fewer[i] == pairs[i] && fewer[j] == pairs[j]);
            }
        }
        assert(pairs[pairs.len() - 1] == last);
        texts_are_ordered(last.0, p.0, last.0);
        texts_are_ordered(p.0, last.0, p.0);
        if last.0 == p.0 {
            assert forall|i: int, j: int| 0 <= i < j < all.len() implies text_before(
                (#[trigger] all[i]).0,
                (#[trigger] all[j]).0,
            ) by {
                assert(all[i] == pairs[i]);
                assert(text_before(pairs[i].0, pairs[j].0));
            }
            assert forall|q: (Seq<char>, Seq<char>)| #[trigger] all.contains(q) <==> q == p || (q.0
                != p.0 && pairs.contains(q)) by {
                if all.contains(q) {
                    let i = choose|i: int| 0 <= i < all.len() && all[i] == q;
                    if i < fewer.len() {
                        assert(pairs[i] == q);
                        assert(text_before(pairs[i].0, pairs[pairs.len() - 1].0));
                    }
                }
                if q == p {
                    assert(all[all.len() - 1] == q);
                } else if q.0 != p.0 && pairs.contains(q) {
                    let i = choose|i: int| 0 <= i < pairs.len() && pairs[i] == q;
                    assert(i < fewer.len());
                    assert(all[i] == q);
                }
            }
        } else if text_before(last.0, p.0) {
            assert forall|i: int, j: int| 0 <= i < j < all.len() implies text_before(
                (#[trigger] all[i]).0,
                (#[trigger] all[j]).0,
            ) by {
                assert(all[i] == pairs[i]);
                if j < pairs.len() {
                    assert(all[j] == pairs[j]);
                } else if i < pairs.len() - 1 {
                    assert(text_before(pairs[i].0, pairs[pairs.len() - 1].0));
                    lemma_before_trans(pairs[i].0, last.0, p.0);
                }
            }
            assert forall|q: (Seq<char>, Seq<char>)| #[trigger] all.contains(q) <==> q == p || (q.0
                != p.0 && pairs.contains(q)) by {
                if all.contains(q) {
                    let i = choose|i: int| 0 <= i < all.len() && all[i] == q;
                    if i < pairs.len() {
                        assert(pairs[i] == q);
                        if i < pairs.len() - 1 {
                            assert(text_before(pairs[i].0, pairs[pairs.len() - 1].0));
                            lemma_before_trans(pairs[i].0, last.0, p.0);
                            texts_are_ordered(p.0, p.0, p.0);
                        }
                    }
                }
                if q == p {
                    assert(all[all.len() - 1] == q);
                } else if q.0 != p.0 && pairs.contains(q) {
                    let i = choose|i: int| 0 <= i < pairs.len() && pairs[i] == q;
                    assert(all[i] == q);
                }
            }
        } else {
            assert(text_before(p.0, last.0));
            lemma_with_pair(fewer, p);
            let inner = with_pair(fewer, p);
            assert forall|i: int| 0 <= i < inner.len() implies text_before(
                (#[trigger] inner[i]).0,
                last.0,
            ) by {
                assert(inner.contains(inner[i]));
                if inner[i] != p {
                    let k = choose|k: int| 0 <= k < fewer.len() && fewer[k] == inner[i];
                    assert(pairs[k] == inner[i]);
                    assert(text_before(pairs[k].0, pairs[pairs.len() - 1].0));
                }
            }
            assert forall|i: int, j: int| 0 <= i < j < all.len() implies text_before(
                (#[trigger] all[i]).0,
                (#[trigger] all[j]).0,
            ) by {
                assert(all[i] == inner[i]);
                if j < inner.len() {
                    assert(all[j] == inner[j]);
                }
            }
            assert forall|q: (Seq<char>, Seq<char>)| #[trigger] all.contains(q) <==> q == p || (q.0
                != p.0 && pairs.contains(q)) by {
                if all.contains(q) {
                    let i = choose|i: int| 0 <= i < all.len() && all[i] == q;
                    if i < inner.len() {
                        assert(inner[i] == q);
                        assert(inner.contains(q));
                        if q != p {
                            let k = choose|k: int| 0 <= k < fewer.len() && fewer[k] == q;
                            assert(pairs[k] == q);
                        }
                    }
                }
                if q == p || (q.0 != p.0 && pairs.contains(q)) {
                    if q == last {
                        assert(all[all.len() - 1] == q);
                    } else {
                        if q != p {
                            let k = choose|k: int| 0 <= k < pairs.len() && pairs[k] == q;
                            assert(fewer[k] == q);
                        }
                        assert(inner.contains(q));
                        let i = choose|i: int| 0 <= i < inner.len() && inner[i] == q;
                        assert(all[i] == q);
                    }
                }
            }
        }
    }
}

/// Metadata is shown in the order of its keys, each key once, with the value that
/// was given last.
pub proof fn metadata_is_shown_by_key(pairs: Seq<(Seq<char>, Seq<char>)>)
    ensures
        in_order(by_key(pairs)),
        forall|q: (Seq<char>, Seq<char>)|
            #[trigger] by_key(pairs).contains(q) <==> exists|i: int|
                0 <= i < pairs.len() && pairs[i] == q && (forall|j: int|
                    i < j < pairs.len() ==> (#[trigger] pairs[j]).0 != q.0),
    decreases pairs.len(),
{
    if pairs.len() > 0 {
        let fewer = pairs.drop_last();
        let p = pairs.last();
        metadata_is_shown_by_key(fewer);
        lemma_with_pair(by_key(fewer), p);
        assert(pairs[pairs.len() - 1] == p);
        assert forall|q: (Seq<char>, Seq<char>)| #[trigger] by_key(pairs).contains(q) <==> exists|
            i: int,
        |
            0 <= i < pairs.len() && pairs[i] == q && (forall|j: int|
                i < j < pairs.len() ==> (#[trigger] pairs[j]).0 != q.0) by {
            if by_key(pairs).contains(q) {
                if q == p {
                    assert(pairs[pairs.len() - 1] == q);
                } else {
                    assert(by_key(fewer).contains(q));
                    let i = choose|i: int|
                        0 <= i < fewer.len() && fewer[i] == q && (forall|j: int|
                            i < j < fewer.len() ==> (#[trigger] fewer[j]).0 != q.0);
                    assert(pairs[i] == q);
                    assert forall|j: int| i < j < pairs.len() implies (#[trigger] pairs[j]).0
                        != q.0 by {
                        if j < fewer.len() {
                            assert(fewer[j].0 != q.0);
                        }
                    }
                }
            }
            if exists|i: int|
                0 <= i < pairs.len() && pairs[i] == q && (forall|j: int|
                    i < j < pairs.len() ==> (#[trigger] pairs[j]).0 != q.0) {
                let i = choose|i: int|
                    0 <= i < pairs.len() && pairs[i] == q && (forall|j: int|
                        i < j < pairs.len() ==> (#[trigger] pairs[j]).0 != q.0);
                if i < fewer.len() {
                    assert(fewer[i] == q);
                    assert(pairs[pairs.len() - 1].0 != q.0);
                    assert forall|j: int| i < j < fewer.len() implies (#[trigger] fewer[j]).0
                        != q.0 by {
                        assert(pairs[j].0 != q.0);
                    }
                    assert(by_key(fewer).contains(q));
                }
            }
        }
    }
}

/// The JSON object of the given pairs.
pub open spec fn json_object(pairs: Seq<(Seq<char>, Seq<char>)>) -> Seq<char> {
    seq!['{'] + comma_joined(
        pairs.map_values(
            |p: (Seq<char>, Seq<char>)| json_quoted(p.0).push(':') + json_quoted(p.1),
        ),
    ) + seq!['}']
}

fn insert_pair(pairs: &mut Vec<(String, String)>, key: String, value: String)
    ensures
        pair_views(final(pairs)@) == with_pair(pair_views(old(pairs)@), (key@, value@)),
    decreases old(pairs)@.len(),
{
    let ghost p = (key@, value@);
    let ghost all = pair_views(pairs@);
    match pairs.pop() {
        None => {
            pairs.push((key, value));
            assert(pair_views(pairs@) =~= seq![p]);
        },
        Some(last) => {
            assert(all.last() == (last.0@, last.1@));
            assert(pair_views(pairs@) =~= all.drop_last());
            if crate::text::same(last.0.as_str(), key.as_str()) {
                pairs.push((key, value));
                assert(pair_views(pairs@) =~= all.drop_last().push(p));
            } else if is_before(last.0.as_str(), key.as_str()) {
                pairs.push(last);
                assert(pair_views(pairs@) =~= all);
                pairs.push((key, value));
                assert(pair_views(pairs@) =~= all.push(p));
            } else {
                insert_pair(pairs, key, value);
                let ghost inner = pair_views(pairs@);
                pairs.push(last);
                assert(pair_views(pairs@) =~= inner.push(all.last()));
            }
        },
    }
}

fn sorted_pairs(pairs: &Vec<(String, String)>) -> (r: Vec<(String, String)>)
    ensures
        pair_views(r@) == by_key(pair_views(pairs@)),
{
    let ghost all = pair_views(pairs@);
    let mut out: Vec<(String, String)> = Vec::new();
    let mut i: usize = 0;
    assert(all.take(0) =~= Seq::<(Seq<char>, Seq<char>)>::empty());
    assert(pair_views(out@) =~= Seq::<(Seq<char>, Seq<char>)>::empty());
    while i < pairs.len()
        invariant
            0 <= i <= pairs@.len(),
            all == pair_views(pairs@),
            pair_views(out@) == by_key(all.take(i as int)),
        decreases pairs@.len() - i,
    {
        assert(all.take(i + 1).drop_last() =~= all.take(i as int));
        assert(all.take(i + 1).last() == (pairs@[i as int].0@, pairs@[i as int].1@));
        insert_pair(&mut out, pairs[i].0.clone(), pairs[i].1.clone());
        i += 1;
    }
    assert(all.take(i as int) =~= all);
    out
}

fn push_object(out: &mut String, pairs: &Vec<(String, String)>)
    ensures
        final(out)@ == old(out)@ + json_object(pair_views(pairs@)),
{
    let ghost all = pair_views(pairs@);
    let ghost texts = all.map_values(
        |p: (Seq<char>, Seq<char>)| json_quoted(p.0).push(':') + json_quoted(p.1),
    );
    let ghost before = out@;
    out.push('{');
    let mut i: usize = 0;
    assert(texts.take(0) =~= Seq::<Seq<char>>::empty());
    assert(out@ =~= before + (seq!['{'] + comma_joined(texts.take(0))));
    while i < pairs.len()
        invariant
            0 <= i <= pairs@.len(),
            all == pair_views(pairs@),
            texts == all.map_values(
                |p: (Seq<char>, Seq<char>)| json_quoted(p.0).push(':') + json_quoted(p.1),
            ),
            out@ == before + (seq!['{'] + comma_joined(texts.take(i as int))),
        decreases pairs@.len() - i,
    {
        if i > 0 {
            out.push(',');
        }
        push_json_string(out, pairs[i].0.as_str());
        out.push(':');
        push_json_string(out, pairs[i].1.as_str());
        proof {
            let next = texts.take(i + 1);
            assert(next.drop_last() =~= texts.take(i as int));
            assert(next.last() == json_quoted(pairs@[i as int].0@).push(':') + json_quoted(
                pairs@[i as int].1@,
            ));
            assert(out@ =~= before + (seq!['{'] + comma_joined(next)));
        }
        i += 1;
    }
    assert(texts.take(i as int) =~= texts);
    out.push('}');
    assert(out@ =~= before + json_object(all));
}

/// The JSON strings of the given texts.
pub open spec fn quoted_all(v: Seq<Seq<char>>) -> Seq<Seq<char>> {
    v.map_values(|s: Seq<char>| json_quoted(s))
}

/// The texts as JSON strings.
pub fn quote_all(v: &Vec<String>) -> (r: Vec<String>)
    ensures
        views(r@) == quoted_all(views(v@)),
{
    let mut out: Vec<String> = Vec::new();
    let mut i: usize = 0;
    while i < v.len()
        invariant
            0 <= i <= v@.len(),
            views(out@) == quoted_all(views(v@)).take(i as int),
        decreases v@.len() - i,
    {
        let mut q = String::new();
        push_json_string(&mut q, v[i].as_str());
        assert(q@ =~= json_quoted(v@[i as int]@));
        let ghost before = out@;
        out.push(q);
        assert(views(out@) =~= views(before).push(q@));
        assert(quoted_all(views(v@)).take(i + 1) =~= quoted_all(views(v@)).take(i as int).push(
            json_quoted(v@[i as int]@),
        ));
        i += 1;
    }
    assert(quoted_all(views(v@)).take(i as int) =~= quoted_all(views(v@)));
    out
}

/// The JSON object by which a single memory is shown.
pub open spec fn view_json(v: MemoryView) -> Seq<char> {
    "{\"confidence\":"@ + v.confidence@ + ",\"content\":"@ + json_quoted(v.content@)
        + ",\"created_at\":"@ + decimal(v.created_at as nat) + ",\"entity_tags\":"@ + json_array(
        quoted_all(views(v.entity_tags@)),
    ) + ",\"metadata\":"@ + json_object(by_key(pair_views(v.metadata@))) + ",\"node_id\":"@
        + decimal(v.node_id as nat) + ",\"node_type\":"@ + json_quoted(v.node_type@)
        + ",\"peer_id\":"@ + json_quoted(v.peer_id@) + ",\"retracted\":"@ + json_bool(v.retracted)
        + ",\"salience\":"@ + v.salience@ + ",\"scope\":"@ + json_quoted(v.scope@)
        + ",\"session_id\":"@ + json_quoted(v.session_id@) + ",\"tier\":"@ + json_quoted(
        v.tier.label(),
    ) + ",\"updated_at\":"@ + decimal(v.updated_at as nat) + ",\"valid_from\":"@ + json_optional(
        v.valid_from,
    ) + ",\"valid_until\":"@ + json_optional(v.valid_until) + "}"@
}

/// Shows a single memory.
pub fn render_view(v: &MemoryView) -> (r: String)
    ensures
        r@ == view_json(*v),
{
    let mut out = "{\"confidence\":".to_owned();
    out.append(v.confidence.as_str());
    out.append(",\"content\":");
    push_json_string(&mut out, v.content.as_str());
    out.append(",\"created_at\":");
    push_decimal(&mut out, v.created_at);
    out.append(",\"entity_tags\":");
    let quoted = quote_all(&v.entity_tags);
    let tags = array_text(&quoted);
    out.append(tags.as_str());
    out.append(",\"metadata\":");
    let sorted = sorted_pairs(&v.metadata);
    push_object(&mut out, &sorted);
    out.append(",\"node_id\":");
    push_decimal(&mut out, v.node_id);
    out.append(",\"node_type\":");
    push_json_string(&mut out, v.node_type.as_str());
    out.append(",\"peer_id\":");
    push_json_string(&mut out, v.peer_id.as_str());
    out.append(",\"retracted\":");
    push_json_bool(&mut out, v.retracted);
    out.append(",\"salience\":");
    out.append(v.salience.as_str());
    out.append(",\"scope\":");
    push_json_string(&mut out, v.scope.as_str());
    out.append(",\"session_id\":");
    push_json_string(&mut out, v.session_id.as_str());
    out.append(",\"tier\":");
    push_json_string(&mut out, v.tier.as_str());
    out.append(",\"updated_at\":");
    push_decimal(&mut out, v.updated_at);
    out.append(",\"valid_from\":");
    push_json_optional(&mut out, v.valid_from);
    out.append(",\"valid_until\":");
    push_json_optional(&mut out, v.valid_until);
    out.append("}");
    out
}

/// One memory that a recall found. `score` and `cosine` hold the JSON text of
/// their numbers.
#[derive(Debug, Clone)]
pub struct RecallHit {
    pub node_id: u64,
    pub score: String,
    pub cosine: String,
}

/// What a recall found: a readable block, and the memories behind it.
#[derive(Debug, Clone)]
pub struct PackagedRecall {
    pub context: String,
    pub hits: Vec<RecallHit>,
}

/// The JSON object of one memory that a recall found.
pub open spec fn hit_json(h: RecallHit) -> Seq<char> {
    "{\"cosine\":"@ + h.cosine@ + ",\"node_id\":"@ + decimal(h.node_id as nat) + ",\"score\":"@
        + h.score@ + "}"@
}

/// Whether a recall found nothing to show.
pub open spec fn is_empty_recall(p: PackagedRecall) -> bool {
    trim(p.context@).len() == 0
}

/// The answer to a recall.
pub open spec fn recall_text(p: PackagedRecall) -> Seq<char> {
    (if is_empty_recall(p) {
        "(no relevant memory)\n"@
    } else {
        p.context@
    }) + "## NODES (for `relate`)\n"@ + json_array(p.hits@.map_values(|h: RecallHit| hit_json(h)))
}

/// A recall that found anything to show begins with what it found, as it stands;
/// one that found nothing, or only white space, says so. Either way it ends in
/// the memories that were found, in their order.
pub proof fn recalls_show_what_was_found(p: PackagedRecall)
    ensures
        is_empty_recall(p) <==> (forall|k: int|
            0 <= k < p.context@.len() ==> crate::text::is_white_space(#[trigger] p.context@[k])),
        !is_empty_recall(p) ==> recall_text(p) == p.context@ + "## NODES (for `relate`)\n"@
            + json_array(p.hits@.map_values(|h: RecallHit| hit_json(h))),
        is_empty_recall(p) ==> recall_text(p) == "(no relevant memory)\n"@
            + "## NODES (for `relate`)\n"@ + json_array(
            p.hits@.map_values(|h: RecallHit| hit_json(h)),
        ),
{
    crate::text::trimming_cuts_only_white_space(p.context@);
}

/// Answers a recall, and tells whether it found nothing to show.
pub fn render_recall(p: &PackagedRecall) -> (r: (String, bool))
    ensures
        r.0@ == recall_text(*p),
        r.1 == is_empty_recall(*p),
{
    let mut items: Vec<String> = Vec::new();
    let mut i: usize = 0;
    while i < p.hits.len()
        invariant
            0 <= i <= p.hits@.len(),
            views(items@) == p.hits@.take(i as int).map_values(|h: RecallHit| hit_json(h)),
        decreases p.hits@.len() - i,
    {
        let mut item = "{\"cosine\":".to_owned();
        item.append(p.hits[i].cosine.as_str());
        item.append(",\"node_id\":");
        push_decimal(&mut item, p.hits[i].node_id);
        item.append(",\"score\":");
        item.append(p.hits[i].score.as_str());
        item.append("}");
        let ghost before = items@;
        items.push(item);
        assert(views(items@) =~= views(before).push(item@));
        assert(p.hits@.take(i + 1).map_values(|h: RecallHit| hit_json(h)) =~= p.hits@.take(
            i as int,
        ).map_values(|h: RecallHit| hit_json(h)).push(hit_json(p.hits@[i as int])));
        i += 1;
    }
    assert(p.hits@.take(i as int) =~= p.hits@);
    let refs = array_text(&items);
    let shown = trimmed(p.context.as_str());
    let empty = shown.as_str().is_empty();
    let mut out = if empty {
        "(no relevant memory)\n".to_owned()
    } else {
        p.context.clone()
    };
    out.append("## NODES (for `relate`)\n");
    out.append(refs.as_str());
    (out, empty)
}

/// The size and health of a graph. Shares, averages and the entropy hold the
/// text they are shown as.
#[derive(Debug, Clone)]
pub struct MemoryStats {
    pub node_count: u64,
    pub edge_count: u64,
    pub orphan_count: u64,
    pub orphan_percent: String,
    pub contradiction_count: u64,
    pub contradiction_percent: String,
    pub supersede_count: u64,
    pub retracted_count: u64,
    pub missing_embedding_count: u64,
    pub avg_salience: String,
    pub average_degree: String,
    pub stale_percent: String,
    pub salience_entropy: String,
    pub peer_count: u64,
    pub grade: String,
    pub scope_distribution: Vec<(String, u64)>,
}

/// The lines that tell how many memories each scope has.
pub open spec fn scope_lines(v: Seq<(String, u64)>) -> Seq<char>
    decreases v.len(),
{
    if v.len() == 0 {
        Seq::empty()
    } else {
        scope_lines(v.drop_last()) + "  "@ + v.last().0@ + ": "@ + decimal(v.last().1 as nat)
            + "\n"@
    }
}

/// The account of the size and health of a graph, up to its grade.
pub open spec fn stats_head(s: MemoryStats) -> Seq<char> {
    "nodes:                "@ + decimal(s.node_count as nat) + "\nedges:                "@
        + decimal(s.edge_count as nat) + "\norphans:              "@ + decimal(
        s.orphan_count as nat,
    ) + " ("@ + s.orphan_percent@ + "%)\ncontradictions:       "@ + decimal(
        s.contradiction_count as nat,
    ) + " ("@ + s.contradiction_percent@ + "%)\nsupersedes:           "@ + decimal(
        s.supersede_count as nat,
    ) + "\nretracted:            "@ + decimal(s.retracted_count as nat)
        + "\nmissing embeddings:   "@ + decimal(s.missing_embedding_count as nat)
        + "\navg salience:         "@ + s.avg_salience@ + "\navg degree:           "@
        + s.average_degree@ + "\nstale (>30d):         "@ + s.stale_percent@
        + "%\nsalience entropy:     "@ + s.salience_entropy@ + " bits\npeers:                "@
        + decimal(s.peer_count as nat) + "\nhealth grade:         "@ + s.grade@ + "\n"@
}

/// The account of the size and health of a graph.
pub open spec fn stats_text(s: MemoryStats) -> Seq<char> {
    if s.scope_distribution@.len() == 0 {
        stats_head(s)
    } else {
        stats_head(s) + "scope distribution:\n"@ + scope_lines(s.scope_distribution@)
    }
}

/// Writes the account of the size and health of a graph.
pub fn format_stats(s: &MemoryStats) -> (r: String)
    ensures
        r@ == stats_text(*s),
{
    let mut out = "nodes:                ".to_owned();
    push_decimal(&mut out, s.node_count);
    out.append("\nedges:                ");
    push_decimal(&mut out, s.edge_count);
    out.append("\norphans:              ");
    push_decimal(&mut out, s.orphan_count);
    out.append(" (");
    out.append(s.orphan_percent.as_str());
    out.append("%)\ncontradictions:       ");
    push_decimal(&mut out, s.contradiction_count);
    out.append(" (");
    out.append(s.contradiction_percent.as_str());
    out.append("%)\nsupersedes:           ");
    push_decimal(&mut out, s.supersede_count);
    out.append("\nretracted:            ");
    push_decimal(&mut out, s.retracted_count);
    out.append("\nmissing embeddings:   ");
    push_decimal(&mut out, s.missing_embedding_count);
    out.append("\navg salience:         ");
    out.append(s.avg_salience.as_str());
    out.append("\navg degree:           ");
    out.append(s.average_degree.as_str());
    out.append("\nstale (>30d):         ");
    out.append(s.stale_percent.as_str());
    out.append("%\nsalience entropy:     ");
    out.append(s.salience_entropy.as_str());
    out.append(" bits\npeers:                ");
    push_decimal(&mut out, s.peer_count);
    out.append("\nhealth grade:         ");
    out.append(s.grade.as_str());
    out.append("\n");
    if s.scope_distribution.len() > 0 {
        out.append("scope distribution:\n");
        let ghost base = out@;
        let mut i: usize = 0;
        assert(s.scope_distribution@.take(0) =~= Seq::<(String, u64)>::empty());
        assert(out@ =~= base + scope_lines(s.scope_distribution@.take(0)));
        while i < s.scope_distribution.len()
            invariant
                0 <= i <= s.scope_distribution@.len(),
                out@ == base + scope_lines(s.scope_distribution@.take(i as int)),
            decreases s.scope_distribution@.len() - i,
        {
            out.append("  ");
            out.append(s.scope_distribution[i].0.as_str());
            out.append(": ");
            push_decimal(&mut out, s.scope_distribution[i].1);
            out.append("\n");
            proof {
                let next = s.scope_distribution@.take(i + 1);
                assert(next.drop_last() =~= s.scope_distribution@.take(i as int));
                assert(next.last() == s.scope_distribution@[i as int]);
                assert(out@ =~= base + scope_lines(next));
            }
            i += 1;
        }
        assert(s.scope_distribution@.take(i as int) =~= s.scope_distribution@);
    }
    out
}

/// A measured quantity: the text it is shown as, or that it is no number.
#[derive(Debug, Clone)]
pub enum Quantile {
    Finite { text: String },
    NotFinite,
}

/// How a quantity is shown that may not have been measured.
pub open spec fn quantile_text(q: Option<Quantile>) -> Seq<char> {
    match q {
        None => "N/A"@,
        Some(Quantile::Finite { text }) => text@,
        Some(Quantile::NotFinite) => "invalid"@,
    }
}

/// Shows a quantity that may not have been measured.
pub fn format_finite(q: &Option<Quantile>) -> (r: String)
    ensures
        r@ == quantile_text(*q),
{
    match q {
        None => "N/A".to_owned(),
        Some(Quantile::Finite { text }) => text.clone(),
        Some(Quantile::NotFinite) => "invalid".to_owned(),
    }
}

/// How a share is shown: in percent, with its two counts.
pub open spec fn ratio_text(percent: Seq<char>, numerator: nat, denominator: nat) -> Seq<char> {
    if denominator == 0 {
        "N/A (0/0)"@
    } else {
        percent + "% ("@ + decimal(numerator) + "/"@ + decimal(denominator) + ")"@
    }
}

/// Shows a share; `percent` is the text of its percentage.
pub fn format_ratio(percent: &str, numerator: u64, denominator: u64) -> (r: String)
    ensures
        r@ == ratio_text(percent@, numerator as nat, denominator as nat),
{
    if denominator == 0 {
        "N/A (0/0)".to_owned()
    } else {
        let mut out = percent.to_owned();
        out.append("% (");
        push_decimal(&mut out, numerator);
        out.append("/");
        push_decimal(&mut out, denominator);
        out.append(")");
        out
    }
}

/// A share is shown with what it is a share of; a share of nothing and a
/// quantity that was not measured are shown as not available, and what is no
/// number is never shown as one.
pub proof fn shares_and_quantities_are_shown_as_measured(
    percent: Seq<char>,
    numerator: nat,
    denominator: nat,
    q: Option<Quantile>,
)
    ensures
        denominator == 0 ==> ratio_text(percent, numerator, denominator) == "N/A (0/0)"@,
        denominator > 0 ==> ratio_text(percent, numerator, denominator) == percent + "% ("@
            + decimal(numerator) + "/"@ + decimal(denominator) + ")"@,
        q is None ==> quantile_text(q) == "N/A"@,
        q matches Some(Quantile::Finite { text }) ==> quantile_text(q) == text@,
        q matches Some(Quantile::NotFinite) ==> quantile_text(q) == "invalid"@,
{
}

/// How often recalls of one kind were made, and how often they were shown.
#[derive(Debug, Clone)]
pub struct EventKindStats {
    pub event_kind: RecallEventKind,
    pub attempts: u64,
    pub eligible: u64,
}

/// Why recalls were not shown.
#[derive(Debug, Clone)]
pub struct AbstentionStats {
    pub empty: u64,
    pub readout_only: u64,
    pub cosine_only: u64,
    pub both: u64,
}

/// How close the best memories were.
#[derive(Debug, Clone)]
pub struct CosineStats {
    pub samples: u64,
    pub nulls: u64,
    pub p50: Option<Quantile>,
    pub p90: Option<Quantile>,
    pub p95: Option<Quantile>,
}

/// How much of what was shown was extracted by machine. The two percentages
/// hold the text they are shown as.
#[derive(Debug, Clone)]
pub struct AutoExposureStats {
    pub eligible_events: u64,
    pub events_with_auto: u64,
    pub event_percent: String,
    pub result_slots: u64,
    pub auto_slots: u64,
    pub slot_percent: String,
}

/// How many recalls would have been shown at a threshold, which holds the text
/// it is shown as.
#[derive(Debug, Clone)]
pub struct SweepPoint {
    pub threshold: String,
    pub eligible: u64,
    pub attempts: u64,
}

/// What is known about past recalls.
#[derive(Debug, Clone)]
pub struct RecallStats {
    pub total_attempts: u64,
    pub by_event_kind: Vec<EventKindStats>,
    pub abstentions: AbstentionStats,
    pub cosine: CosineStats,
    pub auto_exposure: AutoExposureStats,
    pub sweep: Vec<SweepPoint>,
}

/// The lines on each kind of recall.
pub open spec fn kind_lines(v: Seq<EventKindStats>) -> Seq<char>
    decreases v.len(),
{
    if v.len() == 0 {
        Seq::empty()
    } else {
        kind_lines(v.drop_last()) + "    "@ + v.last().event_kind.label() + ": attempts "@ + decimal(
            v.last().attempts as nat,
        ) + ", eligible "@ + decimal(v.last().eligible as nat) + "\n"@
    }
}

/// The lines on each threshold.
pub open spec fn sweep_lines(v: Seq<SweepPoint>) -> Seq<char>
    decreases v.len(),
{
    if v.len() == 0 {
        Seq::empty()
    } else {
        sweep_lines(v.drop_last()) + "    "@ + v.last().threshold@ + ": eligible "@ + decimal(
            v.last().eligible as nat,
        ) + " / attempts "@ + decimal(v.last().attempts as nat) + "\n"@
    }
}

/// The part of the account of past recalls between its two lists.
pub open spec fn recall_stats_middle(s: RecallStats) -> Seq<char> {
    "  abstentions:\n    empty: "@ + decimal(s.abstentions.empty as nat) + "\n    readout-only: "@
        + decimal(s.abstentions.readout_only as nat) + "\n    cosine-only: "@ + decimal(
        s.abstentions.cosine_only as nat,
    ) + "\n    both: "@ + decimal(s.abstentions.both as nat) + "\n  cosine:\n    samples: "@
        + decimal(s.cosine.samples as nat) + "\n    nulls: "@ + decimal(s.cosine.nulls as nat)
        + "\n    p50: "@ + quantile_text(s.cosine.p50) + "\n    p90: "@ + quantile_text(s.cosine.p90)
        + "\n    p95: "@ + quantile_text(s.cosine.p95)
        + "\n  auto exposure (exposure, not quality):\n    event exposure: "@ + ratio_text(
        s.auto_exposure.event_percent@,
        s.auto_exposure.events_with_auto as nat,
        s.auto_exposure.eligible_events as nat,
    ) + "\n    slot exposure: "@ + ratio_text(
        s.auto_exposure.slot_percent@,
        s.auto_exposure.auto_slots as nat,
        s.auto_exposure.result_slots as nat,
    ) + "\n  eligibility sweep:\n"@
}

/// The account of past recalls, or that there is none.
pub open spec fn recall_stats_text(s: Option<RecallStats>) -> Seq<char> {
    let head = "recall telemetry (injection eligibility, not delivery)\n"@;
    match s {
        None => head + "  telemetry unavailable\n"@,
        Some(s) => head + "  attempts: "@ + decimal(s.total_attempts as nat)
            + "\n  by event kind:\n"@ + kind_lines(s.by_event_kind@) + recall_stats_middle(s)
            + sweep_lines(s.sweep@),
    }
}

fn push_kind_lines(out: &mut String, v: &Vec<EventKindStats>)
    ensures
        final(out)@ == old(out)@ + kind_lines(v@),
{
    let ghost base = out@;
    let mut i: usize = 0;
    assert(v@.take(0) =~= Seq::<EventKindStats>::empty());
    assert(out@ =~= base + kind_lines(v@.take(0)));
    while i < v.len()
        invariant
            0 <= i <= v@.len(),
            out@ == base + kind_lines(v@.take(i as int)),
        decreases v@.len() - i,
    {
        out.append("    ");
        out.append(v[i].event_kind.as_str());
        out.append(": attempts ");
        push_decimal(out, v[i].attempts);
        out.append(", eligible ");
        push_decimal(out, v[i].eligible);
        out.append("\n");
        proof {
            let next = v@.take(i + 1);
            assert(next.drop_last() =~= v@.take(i as int));
            assert(next.last() == v@[i as int]);
            assert(out@ =~= base + kind_lines(next));
        }
        i += 1;
    }
    assert(v@.take(i as int) =~= v@);
}

fn push_sweep_lines(out: &mut String, v: &Vec<SweepPoint>)
    ensures
        final(out)@ == old(out)@ + sweep_lines(v@),
{
    let ghost base = out@;
    let mut i: usize = 0;
    assert(v@.take(0) =~= Seq::<SweepPoint>::empty());
    assert(out@ =~= base + sweep_lines(v@.take(0)));
    while i < v.len()
        invariant
            0 <= i <= v@.len(),
            out@ == base + sweep_lines(v@.take(i as int)),
        decreases v@.len() - i,
    {
        out.append("    ");
        out.append(v[i].threshold.as_str());
        out.append(": eligible ");
        push_decimal(out, v[i].eligible);
        out.append(" / attempts ");
        push_decimal(out, v[i].attempts);
        out.append("\n");
        proof {
            let next = v@.take(i + 1);
            assert(next.drop_last() =~= v@.take(i as int));
            assert(next.last() == v@[i as int]);
            assert(out@ =~= base + sweep_lines(next));
        }
        i += 1;
    }
    assert(v@.take(i as int) =~= v@);
}

fn middle_text(s: &RecallStats) -> (r: String)
    ensures
        r@ == recall_stats_middle(*s),
{
    let mut out = "  abstentions:\n    empty: ".to_owned();
    push_decimal(&mut out, s.abstentions.empty);
    out.append("\n    readout-only: ");
    push_decimal(&mut out, s.abstentions.readout_only);
    out.append("\n    cosine-only: ");
    push_decimal(&mut out, s.abstentions.cosine_only);
    out.append("\n    both: ");
    push_decimal(&mut out, s.abstentions.both);
    out.append("\n  cosine:\n    samples: ");
    push_decimal(&mut out, s.cosine.samples);
    out.append("\n    nulls: ");
    push_decimal(&mut out, s.cosine.nulls);
    out.append("\n    p50: ");
    out.append(format_finite(&s.cosine.p50).as_str());
    out.append("\n    p90: ");
    out.append(format_finite(&s.cosine.p90).as_str());
    out.append("\n    p95: ");
    out.append(format_finite(&s.cosine.p95).as_str());
    out.append("\n  auto exposure (exposure, not quality):\n    event exposure: ");
    let events = format_ratio(
        s.auto_exposure.event_percent.as_str(),
        s.auto_exposure.events_with_auto,
        s.auto_exposure.eligible_events,
    );
    out.append(events.as_str());
    out.append("\n    slot exposure: ");
    let slots = format_ratio(
        s.auto_exposure.slot_percent.as_str(),
        s.auto_exposure.auto_slots,
        s.auto_exposure.result_slots,
    );
    out.append(slots.as_str());
    out.append("\n  eligibility sweep:\n");
    out
}

/// Writes the account of past recalls, without any query.
pub fn format_recall_stats(stats: &Option<RecallStats>) -> (r: String)
    ensures
        r@ == recall_stats_text(*stats),
{
    let mut out = "recall telemetry (injection eligibility, not delivery)\n".to_owned();
    match stats {
        None => {
            out.append("  telemetry unavailable\n");
        },
        Some(s) => {
            out.append("  attempts: ");
            push_decimal(&mut out, s.total_attempts);
            out.append("\n  by event kind:\n");
            push_kind_lines(&mut out, &s.by_event_kind);
            let middle = middle_text(s);
            out.append(middle.as_str());
            push_sweep_lines(&mut out, &s.sweep);
        },
    }
    out
}

}
