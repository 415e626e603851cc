//! Scope paths: where a memory is visible. A path is either the universal one
//! or a list of segments, and a path contains every path below it.

use crate::text::{chars_of, find_from, same, split_at_all, strip_prefix};
use vstd::prelude::*;
use vstd::string::StringExecFns;

verus! {

/// A scope path.
#[derive(Debug, PartialEq, Eq, Hash, PartialOrd, Ord)]
pub struct ScopePath {
    path: String,
}

impl Clone for ScopePath {
    fn clone(&self) -> (r: Self)
        ensures
            r@ == self@,
    {
        proof {
            use_type_invariant(self);
        }
        ScopePath { path: self.path.clone() }
    }
}

/// Why a scope path was refused.
#[derive(Debug, Clone, Copy, PartialEq, Eq, Structural)]
pub enum ScopeError {
    Empty,
    EmptySegment,
    ReservedUniversalSegment,
    ContainsSlash,
}

impl ScopeError {
    /// What to tell a caller.
    pub open spec fn text(self) -> Seq<char> {
        match self {
            ScopeError::Empty => "scope path is empty"@,
            ScopeError::EmptySegment => "scope path has an empty segment"@,
            ScopeError::ReservedUniversalSegment => "scope segment `universal` is reserved"@,
            ScopeError::ContainsSlash => "scope segment contains a slash"@,
        }
    }

    /// What to tell a caller.
    pub fn message(self) -> (r: String)
        ensures
            r@ == self.text(),
    {
        match self {
            ScopeError::Empty => "scope path is empty".to_owned(),
            ScopeError::EmptySegment => "scope path has an empty segment".to_owned(),
            ScopeError::ReservedUniversalSegment => "scope segment `universal` is reserved".to_owned(),
            ScopeError::ContainsSlash => "scope segment contains a slash".to_owned(),
        }
    }
}

impl View for ScopePath {
    type V = Seq<char>;

    closed spec fn view(&self) -> Seq<char> {
        self.path@
    }
}

/// The fault of one segment: it is empty, it is the reserved word, or it holds
/// a slash.
pub open spec fn segment_fault(s: Seq<char>) -> Option<ScopeError> {
    if s.len() == 0 {
        Some(ScopeError::EmptySegment)
    } else if s == "universal"@ {
        Some(ScopeError::ReservedUniversalSegment)
    } else if s.contains('/') {
        Some(ScopeError::ContainsSlash)
    } else {
        None
    }
}

/// The fault of the first faulty segment.
pub open spec fn first_fault(segments: Seq<Seq<char>>) -> Option<ScopeError>
    decreases segments.len(),
{
    if segments.len() == 0 {
        None
    } else if segment_fault(segments[0]) is Some {
        segment_fault(segments[0])
    } else {
        first_fault(segments.skip(1))
    }
}

/// Why a list of segments makes no path.
pub open spec fn path_fault(segments: Seq<Seq<char>>) -> Option<ScopeError> {
    if segments.len() == 0 {
        Some(ScopeError::Empty)
    } else {
        first_fault(segments)
    }
}

/// The segments with a slash between neighbours.
pub open spec fn join(segments: Seq<Seq<char>>) -> Seq<char>
    decreases segments.len(),
{
    if segments.len() == 0 {
        Seq::empty()
    } else if segments.len() == 1 {
        segments[0]
    } else {
        join(segments.drop_last()).push('/') + segments.last()
    }
}

/// Whether the path `outer` contains the path `inner`: it is the universal
/// path, the same path, or `inner` continues it after a slash.
pub open spec fn scope_contains(outer: Seq<char>, inner: Seq<char>) -> bool {
    ||| outer == "universal"@
    ||| outer == inner
    ||| crate::text::starts_with(inner, outer.push('/'))
}

/// The views of an array of texts.
pub open spec fn str_views(v: Seq<&str>) -> Seq<Seq<char>> {
    v.map_values(|s: &str| s@)
}

proof fn lemma_first_fault_step(segments: Seq<Seq<char>>, i: int)
    requires
        0 <= i < segments.len(),
        first_fault(segments.take(i)) is None,
    ensures
        segment_fault(segments[i]) is Some ==> first_fault(segments) == segment_fault(segments[i]),
        segment_fault(segments[i]) is None ==> first_fault(segments.take(i + 1)) is None,
    decreases segments.len(),
{
    reveal_with_fuel(first_fault, 2);
    if i == 0 {
        assert(segments.take(1).skip(1) =~= Seq::<Seq<char>>::empty());
        assert(segments.take(1)[0] == segments[0]);
    } else {
        assert(segments.take(i)[0] == segments[0]);
        assert(segments.take(i).skip(1) =~= segments.skip(1).take(i - 1));
        lemma_first_fault_step(segments.skip(1), i - 1);
        assert(segments.take(i + 1).skip(1) =~= segments.skip(1).take(i));
        assert(segments.take(i + 1)[0] == segments[0]);
    }
}

/// Checks one segment.
pub fn validate_segment(segment: &str) -> (r: Result<(), ScopeError>)
    ensures
        match segment_fault(segment@) {
            Some(e) => r == Err::<(), ScopeError>(e),
            None => r is Ok,
        },
{
    if segment.is_empty() {
        return Err(ScopeError::EmptySegment);
    }
    if same(segment, "universal") {
        return Err(ScopeError::ReservedUniversalSegment);
    }
    let v = chars_of(segment);
    let at = find_from(&v, 0, '/');
    proof {
        assert(v@.skip(0) =~= segment@);
        crate::text::lemma_first_index(segment@, '/');
    }
    if at < v.len() {
        return Err(ScopeError::ContainsSlash);
    }
    Ok(())
}

impl ScopePath {
    #[verifier::type_invariant]
    spec fn faultless(self) -> bool {
        parse_fault(self.path@) is None
    }

    /// The path that contains every path.
    pub fn universal() -> (r: Self)
        ensures
            r@ == "universal"@,
    {
        ScopePath { path: "universal".to_owned() }
    }

    /// The path with the given segments; refused at the first faulty segment,
    /// or where there is none.
    pub fn from_segments<const N: usize>(segments: [&str; N]) -> (r: Result<Self, ScopeError>)
        ensures
            match path_fault(str_views(segments@)) {
                Some(e) => r == Err::<Self, ScopeError>(e),
                None => r is Ok && r->Ok_0@ == join(str_views(segments@)),
            },
    {
        if N == 0 {
            return Err(ScopeError::Empty);
        }
        let ghost views = str_views(segments@);
        let mut path = String::new();
        let mut i: usize = 0;
        assert(views.take(0) =~= Seq::<Seq<char>>::empty());
        while i < N
            invariant
                0 <= i <= N,
                N > 0,
                views == str_views(segments@),
                views.len() == N,
                first_fault(views.take(i as int)) is None,
                path@ == join(views.take(i as int)),
                i > 0 ==> path@.len() > 0,
            decreases N - i,
        {
            let segment = segments[i];
            proof {
                lemma_first_fault_step(views, i as int);
                assert(views[i as int] == segment@);
                assert(views.take(i + 1).drop_last() =~= views.take(i as int));
                assert(views.take(i + 1).last() == segment@);
            }
            match validate_segment(segment) {
                Ok(_) => {},
                Err(e) => {
                    return Err(e);
                },
            }
            if i > 0 {
                path.push('/');
            }
            path.append(segment);
            assert(path@ =~= join(views.take(i + 1)));
            i += 1;
        }
        assert(views.take(i as int) =~= views);
        proof {
            joined_paths_parse(views);
        }
        Ok(ScopePath { path })
    }

    /// The path that a text spells: the universal path, or segments between
    /// slashes.
    pub fn new(text: &str) -> (r: Result<Self, ScopeError>)
        ensures
            match parse_fault(text@) {
                Some(e) => r == Err::<Self, ScopeError>(e),
                None => r is Ok && r->Ok_0@ == text@,
            },
    {
        if same(text, "universal") {
            return Ok(Self::universal());
        }
        if text.is_empty() {
            return Err(ScopeError::Empty);
        }
        let parts = split_at_all(text, '/');
        let ghost views = crate::text::views(parts@);
        assert(views.take(0) =~= Seq::<Seq<char>>::empty());
        let mut i: usize = 0;
        while i < parts.len()
            invariant
                0 <= i <= parts@.len(),
                views == crate::text::views(parts@),
                views == crate::text::split(text@, '/'),
                text@ != "universal"@,
                text@.len() > 0,
                first_fault(views.take(i as int)) is None,
            decreases parts@.len() - i,
        {
            proof {
                lemma_first_fault_step(views, i as int);
                assert(views[i as int] == parts@[i as int]@);
            }
            match validate_segment(parts[i].as_str()) {
                Ok(_) => {},
                Err(e) => {
                    return Err(e);
                },
            }
            i += 1;
        }
        assert(views.take(i as int) =~= views);
        Ok(ScopePath { path: text.to_owned() })
    }

    /// The text of the path, which spells the path again.
    pub fn as_str(&self) -> (r: &str)
        ensures
            r@ == self@,
            parse_fault(r@) is None,
    {
        proof {
            use_type_invariant(self);
        }
        self.path.as_str()
    }

    /// Whether this path contains `other`.
    pub fn contains(&self, other: &Self) -> (r: bool)
        ensures
            r == scope_contains(self@, other@),
    {
        if same(self.path.as_str(), "universal") {
            return true;
        }
        if self.path == other.path {
            return true;
        }
        let mut below = self.path.clone();
        below.push('/');
        strip_prefix(other.path.as_str(), below.as_str()).is_some()
    }
}

/// Why a text spells no path.
pub open spec fn parse_fault(text: Seq<char>) -> Option<ScopeError> {
    if text == "universal"@ {
        None
    } else if text.len() == 0 {
        Some(ScopeError::Empty)
    } else {
        first_fault(crate::text::split(text, '/'))
    }
}

/// Every path contains itself, and the universal path contains every path.
pub proof fn contains_is_reflexive(a: Seq<char>)
    ensures
        scope_contains(a, a),
        scope_contains("universal"@, a),
{
}

/// The reserved word holds no slash, so no other path contains it.
proof fn lemma_only_universal_contains_universal(a: Seq<char>)
    requires
        scope_contains(a, "universal"@),
    ensures
        a == "universal"@,
{
    if a != "universal"@ {
        reveal_strlit("universal");
        let u = "universal"@;
        let p = a.push('/');
        assert(u.take(p.len() as int) == p);
        assert(p[a.len() as int] == '/');
        assert(u[a.len() as int] == '/');
    }
}

/// Containment passes on: what contains a path contains what that path
/// contains.
pub proof fn contains_is_transitive(a: Seq<char>, b: Seq<char>, c: Seq<char>)
    requires
        scope_contains(a, b),
        scope_contains(b, c),
    ensures
        scope_contains(a, c),
{
    if a == "universal"@ || a == b || b == c {
    } else if b == "universal"@ {
        lemma_only_universal_contains_universal(a);
    } else {
        let ap = a.push('/');
        let bp = b.push('/');
        assert(b.take(ap.len() as int) == ap);
        assert(c.take(bp.len() as int) == bp);
        assert(c.take(ap.len() as int) =~= ap) by {
            assert forall|i: int| 0 <= i < ap.len() implies c[i] == ap[i] by {
                assert(c[i] == c.take(bp.len() as int)[i]);
                assert(bp[i] == b[i]);
                assert(b[i] == b.take(ap.len() as int)[i]);
            }
        }
    }
}

/// Two paths that contain each other are the same path.
pub proof fn contains_is_antisymmetric(a: Seq<char>, b: Seq<char>)
    requires
        scope_contains(a, b),
        scope_contains(b, a),
    ensures
        a == b,
{
    if a == "universal"@ {
        lemma_only_universal_contains_universal(b);
    } else if b == "universal"@ {
        lemma_only_universal_contains_universal(a);
    }
}

/// A faultless list of segments has no faulty segment.
proof fn lemma_first_fault_none(segments: Seq<Seq<char>>, i: int)
    requires
        first_fault(segments) is None,
        0 <= i < segments.len(),
    ensures
        segment_fault(segments[i]) is None,
    decreases segments.len(),
{
    if i > 0 {
        lemma_first_fault_none(segments.skip(1), i - 1);
        assert(segments.skip(1)[i - 1] == segments[i]);
    }
}

/// Splitting a joined path at its slashes gives the segments back.
pub proof fn split_of_join(segments: Seq<Seq<char>>)
    requires
        path_fault(segments) is None,
    ensures
        crate::text::split(join(segments), '/') == segments,
    decreases segments.len(),
{
    lemma_first_fault_none(segments, segments.len() - 1);
    crate::text::lemma_split_without(segments.last(), '/');
    if segments.len() == 1 {
        assert(segments =~= seq![segments[0]]);
    } else {
        let init = segments.drop_last();
        assert(first_fault(init) is None) by {
            lemma_first_fault_prefix(segments, segments.len() - 1);
            assert(init =~= segments.take(segments.len() - 1));
        }
        split_of_join(init);
        crate::text::lemma_split_concat(join(init), '/', segments.last());
        assert(segments =~= init + seq![segments.last()]);
    }
}

proof fn lemma_first_fault_prefix(segments: Seq<Seq<char>>, i: int)
    requires
        first_fault(segments) is None,
        0 <= i <= segments.len(),
    ensures
        first_fault(segments.take(i)) is None,
    decreases segments.len(),
{
    if i > 0 {
        lemma_first_fault_prefix(segments.skip(1), i - 1);
        assert(segments.take(i).skip(1) =~= segments.skip(1).take(i - 1));
        assert(segments.take(i)[0] == segments[0]);
    }
}

/// A path of segments is never the universal path.
proof fn lemma_join_is_not_universal(segments: Seq<Seq<char>>)
    requires
        path_fault(segments) is None,
    ensures
        join(segments) != "universal"@,
{
    if join(segments) == "universal"@ {
        split_of_join(segments);
        reveal_strlit("universal");
        assert(!"universal"@.contains('/')) by {
            assert forall|i: int| 0 <= i < "universal"@.len() implies "universal"@[i] != '/' by {}
        }
        crate::text::lemma_split_without("universal"@, '/');
        assert(segments[0] == "universal"@);
        lemma_first_fault_none(segments, 0);
    }
}

/// The text of a path of segments spells that path.
pub proof fn joined_paths_parse(segments: Seq<Seq<char>>)
    requires
        path_fault(segments) is None,
    ensures
        parse_fault(join(segments)) is None,
{
    split_of_join(segments);
    lemma_join_is_not_universal(segments);
    if join(segments).len() == 0 {
        crate::text::lemma_split_without(join(segments), '/');
        assert(segments[0] == join(segments));
        lemma_first_fault_none(segments, 0);
    }
}

proof fn lemma_join_extends(a: Seq<Seq<char>>, b: Seq<Seq<char>>)
    requires
        0 < a.len() < b.len(),
        b.take(a.len() as int) == a,
    ensures
        crate::text::starts_with(join(b), join(a).push('/')),
    decreases b.len(),
{
    let init = b.drop_last();
    let base = join(init).push('/');
    if init.len() == a.len() {
        assert(init =~= a);
        assert(join(b).take(base.len() as int) =~= base);
    } else {
        assert(init.take(a.len() as int) =~= a);
        lemma_join_extends(a, init);
        let p = join(a).push('/');
        assert(join(b).take(p.len() as int) =~= join(init).take(p.len() as int));
    }
}

/// A path of segments contains another exactly where its segments are the
/// first segments of the other.
pub proof fn contains_is_segment_prefix(a: Seq<Seq<char>>, b: Seq<Seq<char>>)
    requires
        path_fault(a) is None,
        path_fault(b) is None,
    ensures
        scope_contains(join(a), join(b)) <==> a.len() <= b.len() && b.take(a.len() as int) == a,
{
    lemma_join_is_not_universal(a);
    split_of_join(a);
    split_of_join(b);
    if a.len() <= b.len() && b.take(a.len() as int) == a {
        if a.len() < b.len() {
            lemma_join_extends(a, b);
        } else {
            assert(a =~= b);
        }
    }
    if scope_contains(join(a), join(b)) {
        if join(a) == join(b) {
            assert(b.take(a.len() as int) =~= a);
        } else {
            let p = join(a).push('/');
            let rest = join(b).skip(p.len() as int);
            assert(join(b) =~= p + rest);
            crate::text::lemma_split_concat(join(a), '/', rest);
            assert(b == a + crate::text::split(rest, '/'));
            assert(b.take(a.len() as int) =~= a);
        }
    }
}

/// A segment is refused exactly where it is empty, is the reserved word or holds
/// a slash, and each reason has its own words.
pub proof fn refused_segments_are_told_why(s: Seq<char>)
    ensures
        segment_fault(s) is None <==> s.len() > 0 && s != "universal"@ && !s.contains('/'),
        s.len() == 0 ==> segment_fault(s) == Some(ScopeError::EmptySegment),
        s == "universal"@ ==> segment_fault(s) == Some(ScopeError::ReservedUniversalSegment),
        s.contains('/') ==> segment_fault(s) == Some(ScopeError::ContainsSlash),
        ScopeError::Empty.text() == "scope path is empty"@,
        ScopeError::EmptySegment.text() == "scope path has an empty segment"@,
        ScopeError::ReservedUniversalSegment.text() == "scope segment `universal` is reserved"@,
        ScopeError::ContainsSlash.text() == "scope segment contains a slash"@,
{
    reveal_strlit("universal");
    assert("universal"@.len() == 9);
    assert(!"universal"@.contains('/')) by {
        assert forall|i: int| 0 <= i < "universal"@.len() implies "universal"@[i] != '/' by {}
    }
}

/// A list of segments is refused for the first segment that has a fault, and only
/// where one has; without a segment there is no path.
pub proof fn paths_are_refused_for_their_first_fault(segments: Seq<Seq<char>>)
    ensures
        segments.len() == 0 ==> path_fault(segments) == Some(ScopeError::Empty),
        segments.len() > 0 ==> match path_fault(segments) {
            Some(e) => exists|i: int|
                0 <= i < segments.len() && segment_fault(#[trigger] segments[i]) == Some(e) && (
                forall|j: int| 0 <= j < i ==> segment_fault(#[trigger] segments[j]) is None),
            None => forall|j: int|
                0 <= j < segments.len() ==> segment_fault(#[trigger] segments[j]) is None,
        },
    decreases segments.len(),
{
    if segments.len() > 0 && segment_fault(segments[0]) is None {
        let rest = segments.skip(1);
        paths_are_refused_for_their_first_fault(rest);
        if rest.len() == 0 {
            assert(first_fault(rest) is None);
            assert forall|j: int| 0 <= j < segments.len() implies segment_fault(
                #[trigger] segments[j],
            ) is None by {}
        } else if let Some(e) = path_fault(rest) {
            let i = choose|i: int|
                0 <= i < rest.len() && segment_fault(#[trigger] rest[i]) == Some(e) && (forall|
                    j: int,
                |
                    0 <= j < i ==> segment_fault(#[trigger] rest[j]) is None);
            assert(segments[i + 1] == rest[i]);
            assert forall|j: int| 0 <= j < i + 1 implies segment_fault(#[trigger] segments[j])
                is None by {
                if j > 0 {
                    assert(rest[j - 1] == segments[j]);
                }
            }
        } else {
            assert forall|j: int| 0 <= j < segments.len() implies segment_fault(
                #[trigger] segments[j],
            ) is None by {
                if j > 0 {
                    assert(rest[j - 1] == segments[j]);
                }
            }
        }
    } else if segments.len() > 0 {
        assert(segment_fault(segments[0]) == path_fault(segments));
    }
}

/// A text is read as the universal path or as the segments between its slashes.
pub proof fn texts_are_read_segment_by_segment(text: Seq<char>)
    ensures
        parse_fault("universal"@) is None,
        text.len() == 0 ==> parse_fault(text) == Some(ScopeError::Empty),
        text.len() > 0 && text != "universal"@ ==> parse_fault(text) == path_fault(
            crate::text::split(text, '/'),
        ),
        parse_fault(text) is None && text != "universal"@ ==> text.len() > 0 && forall|j: int|
            0 <= j < crate::text::split(text, '/').len() ==> segment_fault(
                #[trigger] crate::text::split(text, '/')[j],
            ) is None,
{
    reveal_strlit("universal");
    let parts = crate::text::split(text, '/');
    crate::text::splitting_is_undone(text, '/');
    paths_are_refused_for_their_first_fault(parts);
}

/// Segments are taken one for one, in the order in which they are given.
pub proof fn segments_are_taken_in_order(v: Seq<&str>, i: int)
    ensures
        str_views(v).len() == v.len(),
        0 <= i < v.len() ==> str_views(v)[i] == v[i]@,
{
}

}
