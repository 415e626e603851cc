//! The dashboard: which request of a browser becomes which request to the
//! service, and what the browser gets in return. Apart from a soft forget, the
//! dashboard only reads.

use crate::extract::text_view;
use crate::json::push_json_string;
use crate::memory::opt_view;
use crate::notes::non_empty_texts;
use crate::outside::{json_quoted, lossy_text, utf8_lossy};
use crate::proto::{failure, ErrKind, Reply, Request, Response};
use crate::text::{
    parse_u32, parse_u64, parse_unsigned, same, split, split_at_all, split_once, split_once_at,
    views,
};
use vstd::prelude::*;
use vstd::string::StringExecFns;
use vstd::utf8::{decode_utf8, encode_utf8, valid_utf8};

verus! {

/// What a browser gets.
#[derive(Debug, Clone, PartialEq, Eq)]
pub struct HttpReply {
    pub status: u16,
    pub content_type: &'static str,
    pub body: String,
}

/// What a browser gets, by its characters.
pub struct ReplyView {
    pub status: u16,
    pub content_type: Seq<char>,
    pub body: Seq<char>,
}

impl View for HttpReply {
    type V = ReplyView;

    open spec fn view(&self) -> ReplyView {
        ReplyView { status: self.status, content_type: self.content_type@, body: self.body@ }
    }
}

/// A reply in JSON.
pub open spec fn json_reply(status: u16, body: Seq<char>) -> ReplyView {
    ReplyView { status, content_type: "application/json"@, body }
}

/// A reply that tells what went wrong.
pub open spec fn error_view(status: u16, message: Seq<char>) -> ReplyView {
    json_reply(status, "{\"error\":"@ + json_quoted(message) + "}"@)
}

impl HttpReply {
    /// A reply in JSON.
    pub fn json(status: u16, body: String) -> (r: Self)
        ensures
            r@ == json_reply(status, body@),
    {
        HttpReply { status, content_type: "application/json", body }
    }

    /// A page.
    pub fn html(body: &str) -> (r: Self)
        ensures
            r@ == (ReplyView {
                status: 200,
                content_type: "text/html; charset=utf-8"@,
                body: body@,
            }),
    {
        HttpReply { status: 200, content_type: "text/html; charset=utf-8", body: body.to_owned() }
    }

    /// A reply that tells what went wrong.
    pub fn error(status: u16, message: &str) -> (r: Self)
        ensures
            r@ == error_view(status, message@),
    {
        let mut body = "{\"error\":".to_owned();
        push_json_string(&mut body, message);
        body.append("}");
        HttpReply::json(status, body)
    }

    /// The reply to a method that is not meant for the address.
    pub fn method_not_allowed() -> (r: Self)
        ensures
            r@ == error_view(405, "method not allowed"@),
    {
        HttpReply::error(405, "method not allowed")
    }
}

/// The parts of an address before and after its first question mark.
pub open spec fn address_parts(url: Seq<char>) -> (Seq<char>, Seq<char>) {
    match split_once(url, '?') {
        Some(parts) => parts,
        None => (url, Seq::empty()),
    }
}

/// Parts an address at its first question mark.
pub fn split_path_query(url: &str) -> (r: (String, String))
    ensures
        (r.0@, r.1@) == address_parts(url@),
{
    match split_once_at(url, '?') {
        Some(parts) => parts,
        None => {
            let none = String::new();
            assert(none@ =~= Seq::<char>::empty());
            (url.to_owned(), none)
        },
    }
}

/// The value of a hexadecimal digit.
pub open spec fn hex_value(b: u8) -> Option<u8> {
    if 0x30 <= b <= 0x39 {
        Some((b - 0x30) as u8)
    } else if 0x61 <= b <= 0x66 {
        Some((b - 0x57) as u8)
    } else if 0x41 <= b <= 0x46 {
        Some((b - 0x37) as u8)
    } else {
        None
    }
}

fn hex_digit_value(b: u8) -> (r: Option<u8>)
    ensures
        r == hex_value(b),
{
    if 0x30 <= b && b <= 0x39 {
        Some(b - 0x30)
    } else if 0x61 <= b && b <= 0x66 {
        Some(b - 0x57)
    } else if 0x41 <= b && b <= 0x46 {
        Some(b - 0x37)
    } else {
        None
    }
}

/// Whether bytes begin with an escape: a percent sign and two hexadecimal
/// digits.
pub open spec fn is_escape(bytes: Seq<u8>) -> bool {
    bytes.len() >= 3 && bytes[0] == 0x25 && hex_value(bytes[1]) is Some && hex_value(bytes[2])
        is Some
}

/// The bytes that a part of a query stands for: an escape for the byte it
/// spells, a plus sign for a space, and anything else for itself.
pub open spec fn percent_bytes(bytes: Seq<u8>) -> Seq<u8>
    decreases bytes.len(),
{
    if bytes.len() == 0 {
        Seq::empty()
    } else if is_escape(bytes) {
        seq![(hex_value(bytes[1])->0 * 16 + hex_value(bytes[2])->0) as u8] + percent_bytes(
            bytes.skip(3),
        )
    } else if bytes[0] == 0x2b {
        seq![0x20u8] + percent_bytes(bytes.skip(1))
    } else {
        seq![bytes[0]] + percent_bytes(bytes.skip(1))
    }
}

fn decoded_bytes(bytes: &[u8]) -> (r: Vec<u8>)
    ensures
        r@ == percent_bytes(bytes@),
{
    let mut out: Vec<u8> = Vec::new();
    let mut i: usize = 0;
    assert(bytes@.skip(0) =~= bytes@);
    assert(out@ + percent_bytes(bytes@.skip(0)) =~= percent_bytes(bytes@));
    while i < bytes.len()
        invariant
            0 <= i <= bytes@.len(),
            out@ + percent_bytes(bytes@.skip(i as int)) == percent_bytes(bytes@),
        decreases bytes@.len() - i,
    {
        let ghost rest = bytes@.skip(i as int);
        let ghost before = out@;
        let b: u8 = bytes[i];
        assert(rest[0] == b);
        assert(rest.skip(1) =~= bytes@.skip(i + 1));
        if b == 0x25 && bytes.len() - i > 2 {
            assert(rest[1] == bytes@[i + 1] && rest[2] == bytes@[i + 2]);
            assert(rest.skip(3) =~= bytes@.skip(i + 3));
            match (hex_digit_value(bytes[i + 1]), hex_digit_value(bytes[i + 2])) {
                (Some(h), Some(l)) => {
                    out.push(h * 16 + l);
                    i += 3;
                },
                _ => {
                    out.push(b);
                    i += 1;
                },
            }
        } else if b == 0x2b {
            out.push(0x20);
            i += 1;
        } else {
            out.push(b);
            i += 1;
        }
        assert(out@ + percent_bytes(bytes@.skip(i as int)) =~= before + percent_bytes(rest));
    }
    assert(percent_bytes(bytes@.skip(i as int)) =~= Seq::<u8>::empty());
    assert(out@ =~= percent_bytes(bytes@));
    out
}

/// The text that a part of a query stands for.
pub open spec fn percent_text(s: Seq<char>) -> Seq<char> {
    utf8_lossy(percent_bytes(encode_utf8(s)))
}

/// Decodes a part of a query.
pub fn percent_decode(s: &str) -> (r: String)
    ensures
        r@ == percent_text(s@),
        valid_utf8(percent_bytes(encode_utf8(s@))) ==> r@ == decode_utf8(
            percent_bytes(encode_utf8(s@)),
        ),
{
    let bytes = decoded_bytes(s.as_bytes());
    lossy_text(bytes.as_slice())
}

/// One part of a query as a name and a value; a part without an equals sign is
/// a name with an empty value.
pub open spec fn query_pair(part: Seq<char>) -> (Seq<char>, Seq<char>) {
    match split_once(part, '=') {
        Some(p) => (percent_text(p.0), percent_text(p.1)),
        None => (percent_text(part), percent_text(Seq::empty())),
    }
}

/// The names and values of a query, in order.
pub open spec fn query_pairs(raw: Seq<char>) -> Seq<(Seq<char>, Seq<char>)> {
    non_empty_texts(split(raw, '&')).map_values(|part: Seq<char>| query_pair(part))
}

/// Names and values by their characters.
pub open spec fn param_views(v: Seq<(String, String)>) -> Seq<(Seq<char>, Seq<char>)> {
    v.map_values(|p: (String, String)| (p.0@, p.1@))
}

fn non_empty_parts(s: &str, c: char) -> (r: Vec<String>)
    ensures
        views(r@) == non_empty_texts(split(s@, c)),
{
    let parts = split_at_all(s, c);
    let ghost all = views(parts@);
    let mut out: Vec<String> = Vec::new();
    let mut i: usize = 0;
    assert(all.take(0) =~= Seq::<Seq<char>>::empty());
    assert(views(out@) =~= Seq::<Seq<char>>::empty());
    while i < parts.len()
        invariant
            0 <= i <= parts@.len(),
            all == views(parts@),
            all == split(s@, c),
            views(out@) == non_empty_texts(all.take(i as int)),
        decreases parts@.len() - i,
    {
        proof {
            let next = all.take(i + 1);
            assert(next.drop_last() =~= all.take(i as int));
            assert(next.last() == parts@[i as int]@);
        }
        if !parts[i].as_str().is_empty() {
            let ghost before = out@;
            out.push(parts[i].clone());
            assert(views(out@) =~= views(before).push(parts@[i as int]@));
        }
        i += 1;
    }
    assert(all.take(i as int) =~= all);
    out
}

/// Reads a query.
pub fn parse_query(raw: &str) -> (r: Vec<(String, String)>)
    ensures
        param_views(r@) == query_pairs(raw@),
{
    let parts = non_empty_parts(raw, '&');
    let ghost want = query_pairs(raw@);
    let ghost all = views(parts@);
    let mut out: Vec<(String, String)> = Vec::new();
    let mut i: usize = 0;
    while i < parts.len()
        invariant
            0 <= i <= parts@.len(),
            all == views(parts@),
            want == all.map_values(|part: Seq<char>| query_pair(part)),
            param_views(out@) == want.take(i as int),
        decreases parts@.len() - i,
    {
        let (name, value) = match split_once_at(parts[i].as_str(), '=') {
            Some((k, v)) => (percent_decode(k.as_str()), percent_decode(v.as_str())),
            None => {
                let empty = String::new();
                assert(empty@ =~= Seq::<char>::empty());
                (percent_decode(parts[i].as_str()), percent_decode(empty.as_str()))
            },
        };
        let ghost before = out@;
        assert((name@, value@) == query_pair(all[i as int]));
        out.push((name, value));
        assert(param_views(out@) =~= param_views(before).push((name@, value@)));
        assert(want.take(i + 1) =~= want.take(i as int).push(want[i as int]));
        i += 1;
    }
    assert(want.take(i as int) =~= want);
    out
}

/// The value of a name in a query: where it occurs more than once, the last.
pub open spec fn param(pairs: Seq<(Seq<char>, Seq<char>)>, name: Seq<char>) -> Option<Seq<char>>
    decreases pairs.len(),
{
    if pairs.len() == 0 {
        None
    } else if pairs.last().0 == name {
        Some(pairs.last().1)
    } else {
        param(pairs.drop_last(), name)
    }
}

/// Looks a name up in a query.
pub fn query_value<'a>(query: &'a Vec<(String, String)>, name: &str) -> (r: Option<&'a str>)
    ensures
        opt_view(r) == param(param_views(query@), name@),
{
    let ghost all = param_views(query@);
    let mut i: usize = query.len();
    assert(all.take(i as int) =~= all);
    while i > 0
        invariant
            0 <= i <= query@.len(),
            all == param_views(query@),
            param(all, name@) == param(all.take(i as int), name@),
        decreases i,
    {
        proof {
            let here = all.take(i as int);
            assert(here.drop_last() =~= all.take(i - 1));
            assert(here.last() == all[i - 1]);
        }
        if same(query[i - 1].0.as_str(), name) {
            return Some(query[i - 1].1.as_str());
        }
        i -= 1;
    }
    None
}

/// The namespace that a request is for: the one that its query names, unless
/// that is empty, or else the dashboard's own.
pub open spec fn namespace_for(
    pairs: Seq<(Seq<char>, Seq<char>)>,
    default: Option<Seq<char>>,
) -> Option<Seq<char>> {
    match param(pairs, "namespace"@) {
        Some(n) => if n.len() > 0 {
            Some(n)
        } else {
            default
        },
        None => default,
    }
}

/// The namespace that a request is for.
pub fn effective_namespace(query: &Vec<(String, String)>, default_namespace: Option<&str>) -> (r:
    Option<String>)
    ensures
        text_view(r) == namespace_for(param_views(query@), opt_view(default_namespace)),
{
    match query_value(query, "namespace") {
        Some(n) => if !n.is_empty() {
            return Some(n.to_owned());
        },
        None => {},
    }
    match default_namespace {
        Some(n) => Some(n.to_owned()),
        None => None,
    }
}

/// Reads the number of a node.
pub fn parse_id(s: &str) -> (r: Option<u64>)
    ensures
        match r {
            Some(v) => parse_unsigned(s@, u64::MAX as nat) == Some(v as nat),
            None => parse_unsigned(s@, u64::MAX as nat) is None,
        },
{
    parse_u64(s)
}

/// The numbers that texts spell; nothing where one spells none.
pub open spec fn all_ids(parts: Seq<Seq<char>>) -> Option<Seq<nat>>
    decreases parts.len(),
{
    if parts.len() == 0 {
        Some(Seq::empty())
    } else {
        match (all_ids(parts.drop_last()), parse_unsigned(parts.last(), u64::MAX as nat)) {
            (Some(ids), Some(id)) => Some(ids.push(id)),
            _ => None,
        }
    }
}

/// The numbers in a list with commas; nothing where it is empty or one of them
/// is none.
pub open spec fn csv_ids(raw: Seq<char>) -> Option<Seq<nat>> {
    if raw.len() == 0 {
        None
    } else {
        all_ids(split(raw, ','))
    }
}

/// Numbers as natural numbers.
pub open spec fn as_nats(v: Seq<u64>) -> Seq<nat> {
    v.map_values(|n: u64| n as nat)
}

proof fn lemma_all_ids_none(parts: Seq<Seq<char>>, n: int)
    requires
        0 <= n <= parts.len(),
        all_ids(parts.take(n)) is None,
    ensures
        all_ids(parts) is None,
    decreases parts.len(),
{
    if n < parts.len() {
        assert(parts.drop_last().take(n) =~= parts.take(n));
        lemma_all_ids_none(parts.drop_last(), n);
    } else {
        assert(parts.take(n) =~= parts);
    }
}

/// Reads a list of numbers with commas.
pub fn parse_csv_ids(raw: &str) -> (r: Option<Vec<u64>>)
    ensures
        match r {
            Some(ids) => csv_ids(raw@) == Some(as_nats(ids@)),
            None => csv_ids(raw@) is None,
        },
{
    if raw.is_empty() {
        return None;
    }
    let parts = split_at_all(raw, ',');
    let ghost all = views(parts@);
    let mut out: Vec<u64> = Vec::new();
    let mut i: usize = 0;
    assert(all.take(0) =~= Seq::<Seq<char>>::empty());
    assert(as_nats(out@) =~= Seq::<nat>::empty());
    while i < parts.len()
        invariant
            0 <= i <= parts@.len(),
            all == views(parts@),
            all == split(raw@, ','),
            raw@.len() > 0,
            all_ids(all.take(i as int)) == Some(as_nats(out@)),
        decreases parts@.len() - i,
    {
        proof {
            let next = all.take(i + 1);
            assert(next.drop_last() =~= all.take(i as int));
            assert(next.last() == parts@[i as int]@);
        }
        match parse_id(parts[i].as_str()) {
            Some(id) => {
                let ghost before = out@;
                out.push(id);
                assert(as_nats(out@) =~= as_nats(before).push(id as nat));
            },
            None => {
                proof {
                    lemma_all_ids_none(all, i + 1);
                }
                return None;
            },
        }
        i += 1;
    }
    assert(all.take(i as int) =~= all);
    Some(out)
}

/// How a reply of the service is shown to a browser.
#[derive(Debug, Clone, Copy, PartialEq, Eq, Structural)]
pub enum Shape {
    /// As it is.
    Passthrough,
    /// As the text of an account.
    Stats,
    /// As the outcome of a change.
    Forget,
}

/// What is to be done about a request of a browser.
#[derive(Debug)]
pub enum Plan {
    /// It is answered.
    Answer { reply: HttpReply },
    /// It gets the page.
    Page,
    /// The service is to be asked, and its reply shown in the given shape.
    Call { request: Request, shape: Shape },
}

/// A request of a browser. Its smallest salience, which may have a fraction,
/// is given by the bits of its double-precision form, where the query spells
/// one.
#[derive(Debug)]
pub struct Incoming {
    pub method: String,
    pub path: String,
    pub query: Vec<(String, String)>,
    pub min_salience: Option<u64>,
}

/// The parts of a path that are not empty.
pub open spec fn path_parts(path: Seq<char>) -> Seq<Seq<char>> {
    non_empty_texts(split(path, '/'))
}

/// What an address stands for.
pub enum Target {
    Page,
    Memories,
    Stats,
    Graph,
    Memory { id: Seq<char> },
    Forget { id: Seq<char> },
    Unknown,
}

/// What the parts of a path stand for.
pub open spec fn target_of(parts: Seq<Seq<char>>) -> Target {
    if parts.len() == 0 {
        Target::Page
    } else if parts.len() == 2 && parts[0] == "api"@ && parts[1] == "memories"@ {
        Target::Memories
    } else if parts.len() == 2 && parts[0] == "api"@ && parts[1] == "stats"@ {
        Target::Stats
    } else if parts.len() == 2 && parts[0] == "api"@ && parts[1] == "graph"@ {
        Target::Graph
    } else if parts.len() == 3 && parts[0] == "api"@ && parts[1] == "memory"@ {
        Target::Memory { id: parts[2] }
    } else if parts.len() == 4 && parts[0] == "api"@ && parts[1] == "memory"@ && parts[3]
        == "forget"@ {
        Target::Forget { id: parts[2] }
    } else {
        Target::Unknown
    }
}

/// The method that is meant for an address.
pub open spec fn method_for(target: Target) -> Seq<char> {
    match target {
        Target::Forget { .. } => "POST"@,
        _ => "GET"@,
    }
}

/// The number that a name in a query spells.
pub open spec fn number_param(
    pairs: Seq<(Seq<char>, Seq<char>)>,
    name: Seq<char>,
    max: nat,
) -> Option<nat> {
    match param(pairs, name) {
        Some(v) => parse_unsigned(v, max),
        None => None,
    }
}

/// A 32-bit number as a natural number.
pub open spec fn small_nat(n: Option<u32>) -> Option<nat> {
    match n {
        Some(v) => Some(v as nat),
        None => None,
    }
}

/// The nodes that a query starts from: the single one, or else the list.
pub open spec fn seed_params(pairs: Seq<(Seq<char>, Seq<char>)>) -> Option<Seq<nat>> {
    match number_param(pairs, "seed"@, u64::MAX as nat) {
        Some(seed) => Some(seq![seed]),
        None => match param(pairs, "seeds"@) {
            Some(raw) => csv_ids(raw),
            None => None,
        },
    }
}

/// What a query looks for, unless that is empty.
pub open spec fn text_param(pairs: Seq<(Seq<char>, Seq<char>)>) -> Option<Seq<char>> {
    match param(pairs, "q"@) {
        Some(q) => if q.len() > 0 {
            Some(q)
        } else {
            None
        },
        None => None,
    }
}

/// Optional numbers of nodes as natural numbers.
pub open spec fn seeds_view(seeds: Option<Vec<u64>>) -> Option<Seq<nat>> {
    match seeds {
        Some(v) => Some(as_nats(v@)),
        None => None,
    }
}

/// Whether a plan answers with a fault.
pub open spec fn answers(plan: Plan, status: u16, message: Seq<char>) -> bool {
    plan matches Plan::Answer { reply } && reply@ == error_view(status, message)
}

/// Whether a plan is the one for a request of a browser.
pub open spec fn planned(req: Incoming, default_namespace: Option<Seq<char>>, plan: Plan) -> bool {
    let pairs = param_views(req.query@);
    let ns = namespace_for(pairs, default_namespace);
    let target = target_of(path_parts(req.path@));
    if target is Unknown {
        answers(plan, 404, "not found"@)
    } else if req.method@ != method_for(target) {
        answers(plan, 405, "method not allowed"@)
    } else {
        match target {
            Target::Page => plan == Plan::Page,
            Target::Memories => {
                &&& plan matches Plan::Call {
                    request: Request::List {
                        min_salience,
                        limit,
                        node_type,
                        tag,
                        namespace,
                        scope,
                        metadata,
                    },
                    shape,
                }
                &&& shape == Shape::Passthrough
                &&& min_salience == req.min_salience
                &&& small_nat(limit) == number_param(pairs, "limit"@, u32::MAX as nat)
                &&& node_type is None && tag is None && scope is None && metadata is None
                &&& text_view(namespace) == ns
            },
            Target::Stats => {
                &&& plan matches Plan::Call { request: Request::Stats { namespace, recall }, shape }
                &&& shape == Shape::Stats
                &&& recall is None
                &&& text_view(namespace) == ns
            },
            Target::Graph => if seed_params(pairs) is None && text_param(pairs) is None {
                answers(plan, 400, "graph requires seed(s) or q"@)
            } else {
                &&& plan matches Plan::Call {
                    request: Request::Graph { seeds, query, depth, limit, namespace },
                    shape,
                }
                &&& shape == Shape::Passthrough
                &&& seeds_view(seeds) == seed_params(pairs)
                &&& text_view(query) == text_param(pairs)
                &&& small_nat(depth) == number_param(pairs, "depth"@, u32::MAX as nat)
                &&& small_nat(limit) == number_param(pairs, "limit"@, u32::MAX as nat)
                &&& text_view(namespace) == ns
            },
            Target::Memory { id } => match parse_unsigned(id, u64::MAX as nat) {
                None => answers(plan, 400, "invalid node id"@),
                Some(n) => {
                    &&& plan matches Plan::Call { request: Request::Get { id: i, namespace }, shape }
                    &&& shape == Shape::Passthrough
                    &&& i == n
                    &&& text_view(namespace) == ns
                },
            },
            Target::Forget { id } => match parse_unsigned(id, u64::MAX as nat) {
                None => answers(plan, 400, "invalid node id"@),
                Some(n) => {
                    &&& plan matches Plan::Call {
                        request: Request::Forget { id: i, reason, hard, namespace },
                        shape,
                    }
                    &&& shape == Shape::Forget
                    &&& i == n
                    &&& text_view(reason) == Some("forgotten via dashboard"@)
                    &&& hard == Some(false)
                    &&& text_view(namespace) == ns
                },
            },
            Target::Unknown => false,
        }
    }
}

/// The number that a name in a query spells, of at most 32 bits.
fn small_param(query: &Vec<(String, String)>, name: &str) -> (r: Option<u32>)
    ensures
        small_nat(r) == number_param(param_views(query@), name@, u32::MAX as nat),
{
    match query_value(query, name) {
        Some(v) => parse_u32(v),
        None => None,
    }
}

fn seeds_of(query: &Vec<(String, String)>) -> (r: Option<Vec<u64>>)
    ensures
        seeds_view(r) == seed_params(param_views(query@)),
{
    let seed: Option<u64> = match query_value(query, "seed") {
        Some(v) => parse_u64(v),
        None => None,
    };
    match seed {
        Some(id) => {
            let mut one: Vec<u64> = Vec::new();
            one.push(id);
            assert(as_nats(one@) =~= seq![id as nat]);
            Some(one)
        },
        None => match query_value(query, "seeds") {
            Some(raw) => parse_csv_ids(raw),
            None => None,
        },
    }
}

/// Checks that a method is the one that is meant.
pub fn require(method: &str, allowed: &str) -> (r: Option<HttpReply>)
    ensures
        match r {
            Some(reply) => method@ != allowed@ && reply@ == error_view(405, "method not allowed"@),
            None => method@ == allowed@,
        },
{
    if same(method, allowed) {
        None
    } else {
        Some(HttpReply::method_not_allowed())
    }
}

fn plan_graph(query: &Vec<(String, String)>, namespace: Option<String>) -> (plan: Plan)
    ensures
        ({
            let pairs = param_views(query@);
            if seed_params(pairs) is None && text_param(pairs) is None {
                answers(plan, 400, "graph requires seed(s) or q"@)
            } else {
                &&& plan matches Plan::Call {
                    request: Request::Graph { seeds, query: text, depth, limit, namespace: ns },
                    shape,
                }
                &&& shape == Shape::Passthrough
                &&& seeds_view(seeds) == seed_params(pairs)
                &&& text_view(text) == text_param(pairs)
                &&& small_nat(depth) == number_param(pairs, "depth"@, u32::MAX as nat)
                &&& small_nat(limit) == number_param(pairs, "limit"@, u32::MAX as nat)
                &&& ns == namespace
            }
        }),
{
    let seeds = seeds_of(query);
    let text: Option<String> = match query_value(query, "q") {
        Some(q) => if q.is_empty() {
            None
        } else {
            Some(q.to_owned())
        },
        None => None,
    };
    if seeds.is_none() && text.is_none() {
        return Plan::Answer { reply: HttpReply::error(400, "graph requires seed(s) or q") };
    }
    let depth = small_param(query, "depth");
    let limit = small_param(query, "limit");
    Plan::Call {
        request: Request::Graph { seeds, query: text, depth, limit, namespace },
        shape: Shape::Passthrough,
    }
}

/// Decides what is to be done about a request of a browser.
pub fn route(req: &Incoming, default_namespace: Option<&str>) -> (plan: Plan)
    ensures
        planned(*req, opt_view(default_namespace), plan),
{
    let namespace = effective_namespace(&req.query, default_namespace);
    let method = req.method.as_str();
    let parts = non_empty_parts(req.path.as_str(), '/');
    let ghost all = views(parts@);
    assert(all.len() == parts@.len());
    if parts.len() == 0 {
        return match require(method, "GET") {
            Some(reply) => Plan::Answer { reply },
            None => Plan::Page,
        };
    }
    assert(forall|i: int| 0 <= i < parts@.len() ==> #[trigger] all[i] == parts@[i]@);
    if !same(parts[0].as_str(), "api") {
        return Plan::Answer { reply: HttpReply::error(404, "not found") };
    }
    if parts.len() == 2 {
        if same(parts[1].as_str(), "memories") {
            if let Some(reply) = require(method, "GET") {
                return Plan::Answer { reply };
            }
            return Plan::Call {
                request: Request::List {
                    min_salience: req.min_salience,
                    limit: small_param(&req.query, "limit"),
                    node_type: None,
                    tag: None,
                    namespace,
                    scope: None,
                    metadata: None,
                },
                shape: Shape::Passthrough,
            };
        }
        if same(parts[1].as_str(), "stats") {
            if let Some(reply) = require(method, "GET") {
                return Plan::Answer { reply };
            }
            return Plan::Call {
                request: Request::Stats { namespace, recall: None },
                shape: Shape::Stats,
            };
        }
        if same(parts[1].as_str(), "graph") {
            if let Some(reply) = require(method, "GET") {
                return Plan::Answer { reply };
            }
            return plan_graph(&req.query, namespace);
        }
    } else if parts.len() == 3 && same(parts[1].as_str(), "memory") {
        if let Some(reply) = require(method, "GET") {
            return Plan::Answer { reply };
        }
        return match parse_id(parts[2].as_str()) {
            Some(id) => Plan::Call {
                request: Request::Get { id, namespace },
                shape: Shape::Passthrough,
            },
            None => Plan::Answer { reply: HttpReply::error(400, "invalid node id") },
        };
    } else if parts.len() == 4 && same(parts[1].as_str(), "memory") && same(
        parts[3].as_str(),
        "forget",
    ) {
        if let Some(reply) = require(method, "POST") {
            return Plan::Answer { reply };
        }
        return match parse_id(parts[2].as_str()) {
            Some(id) => Plan::Call {
                request: Request::Forget {
                    id,
                    reason: Some("forgotten via dashboard".to_owned()),
                    hard: Some(false),
                    namespace,
                },
                shape: Shape::Forget,
            },
            None => Plan::Answer { reply: HttpReply::error(400, "invalid node id") },
        };
    }
    Plan::Answer { reply: HttpReply::error(404, "not found") }
}

/// The status of a fault: what a caller asked for does not exist, or the
/// service failed.
pub open spec fn fault_status(kind: ErrKind) -> u16 {
    match kind {
        ErrKind::InvalidParams => 404,
        ErrKind::Internal => 500,
    }
}

/// A fault of the service as a browser gets it.
pub fn error_reply(kind: ErrKind, message: &str) -> (r: HttpReply)
    ensures
        r@ == error_view(fault_status(kind), message@),
{
    let status: u16 = match kind {
        ErrKind::InvalidParams => 404,
        ErrKind::Internal => 500,
    };
    HttpReply::error(status, message)
}

/// What a browser gets of a reply of the service.
pub open spec fn shaped(shape: Shape, reply: Reply) -> ReplyView {
    match reply {
        Reply::Fault { kind, message } => error_view(fault_status(kind), message),
        Reply::Done { text } => match shape {
            Shape::Passthrough => json_reply(200, text),
            Shape::Stats => json_reply(200, "{\"stats\":"@ + json_quoted(text) + "}"@),
            Shape::Forget => json_reply(
                200,
                "{\"message\":"@ + json_quoted(text) + ",\"ok\":true}"@,
            ),
        },
    }
}

/// A reply of the service as a browser gets it, unchanged where all went well.
pub fn json_passthrough(resp: Response) -> (r: HttpReply)
    ensures
        r@ == shaped(Shape::Passthrough, resp@),
{
    match resp {
        Response::Done { text } => HttpReply::json(200, text),
        Response::Fault { kind, message } => error_reply(kind, message.as_str()),
    }
}

/// Shows a reply of the service to a browser.
pub fn finish_route(shape: Shape, resp: Response) -> (r: HttpReply)
    ensures
        r@ == shaped(shape, resp@),
{
    match shape {
        Shape::Passthrough => json_passthrough(resp),
        Shape::Stats => match resp {
            Response::Done { text } => {
                let mut body = "{\"stats\":".to_owned();
                push_json_string(&mut body, text.as_str());
                body.append("}");
                HttpReply::json(200, body)
            },
            Response::Fault { kind, message } => error_reply(kind, message.as_str()),
        },
        Shape::Forget => match resp {
            Response::Done { text } => {
                let mut body = "{\"message\":".to_owned();
                push_json_string(&mut body, text.as_str());
                body.append(",\"ok\":true}");
                HttpReply::json(200, body)
            },
            Response::Fault { kind, message } => error_reply(kind, message.as_str()),
        },
    }
}

/// A name in a query has the value that was given last, and none where it does
/// not occur.
pub proof fn the_last_value_counts(pairs: Seq<(Seq<char>, Seq<char>)>, name: Seq<char>)
    ensures
        match param(pairs, name) {
            Some(v) => exists|i: int|
                0 <= i < pairs.len() && #[trigger] pairs[i] == (name, v) && (forall|j: int|
                    i < j < pairs.len() ==> (#[trigger] pairs[j]).0 != name),
            None => forall|j: int| 0 <= j < pairs.len() ==> (#[trigger] pairs[j]).0 != name,
        },
    decreases pairs.len(),
{
    if pairs.len() > 0 {
        let fewer = pairs.drop_last();
        assert(pairs[pairs.len() - 1] == pairs.last());
        if pairs.last().0 != name {
            the_last_value_counts(fewer, name);
            if let Some(v) = param(fewer, name) {
                let i = choose|i: int|
                    0 <= i < fewer.len() && #[trigger] fewer[i] == (name, v) && (forall|j: int|
                        i < j < fewer.len() ==> (#[trigger] fewer[j]).0 != name);
                assert(pairs[i] == (name, v));
                assert forall|j: int| i < j < pairs.len() implies (#[trigger] pairs[j]).0 != name by {
                    if j < fewer.len() {
                        assert(fewer[j].0 != name);
                    }
                }
            } else {
                assert forall|j: int| 0 <= j < pairs.len() implies (#[trigger] pairs[j]).0 != name by {
                    if j < fewer.len() {
                        assert(fewer[j].0 != name);
                    }
                }
            }
        } else {
            assert(pairs[pairs.len() - 1] == (name, pairs.last().1));
        }
    }
}

/// A list of numbers is read only where each part between commas is a number,
/// and then gives all of them, in their order.
pub proof fn lists_of_numbers_are_read_whole(parts: Seq<Seq<char>>)
    ensures
        csv_ids(Seq::empty()) is None,
        forall|raw: Seq<char>|
            raw.len() > 0 && split(raw, ',') == parts ==> #[trigger] csv_ids(raw) == all_ids(parts),
        match all_ids(parts) {
            Some(ids) => ids.len() == parts.len() && forall|i: int|
                0 <= i < parts.len() ==> parse_unsigned(#[trigger] parts[i], u64::MAX as nat)
                    == Some(ids[i]),
            None => exists|i: int|
                0 <= i < parts.len() && parse_unsigned(#[trigger] parts[i], u64::MAX as nat)
                    is None,
        },
    decreases parts.len(),
{
    if parts.len() > 0 {
        let fewer = parts.drop_last();
        lists_of_numbers_are_read_whole(fewer);
        assert(parts[parts.len() - 1] == parts.last());
        match all_ids(fewer) {
            Some(ids) => {
                if let Some(all) = all_ids(parts) {
                    assert forall|i: int| 0 <= i < parts.len() implies parse_unsigned(
                        #[trigger] parts[i],
                        u64::MAX as nat,
                    ) == Some(all[i]) by {
                        if i < fewer.len() {
                            assert(fewer[i] == parts[i]);
                        }
                    }
                }
            },
            None => {
                let i = choose|i: int|
                    0 <= i < fewer.len() && parse_unsigned(#[trigger] fewer[i], u64::MAX as nat)
                        is None;
                assert(parts[i] == fewer[i]);
            },
        }
    }
}

/// The digits of a hexadecimal number have their values, with small or with
/// capital letters, and nothing else is such a digit.
pub proof fn hexadecimal_digits_have_their_values(b: u8)
    ensures
        '0' as u8 <= b <= '9' as u8 ==> hex_value(b) == Some((b - '0' as u8) as u8),
        'a' as u8 <= b <= 'f' as u8 ==> hex_value(b) == Some((b - 'a' as u8 + 10) as u8),
        'A' as u8 <= b <= 'F' as u8 ==> hex_value(b) == Some((b - 'A' as u8 + 10) as u8),
        hex_value(b) is Some ==> '0' as u8 <= b <= '9' as u8 || 'a' as u8 <= b <= 'f' as u8 || 'A'
            as u8 <= b <= 'F' as u8,
{
}

/// An address is parted at its first question mark, a query at its ampersands,
/// and a part at its first equals sign; empty parts do not count.
pub proof fn addresses_are_parted_where_they_should(url: Seq<char>, part: Seq<char>)
    ensures
        !url.contains('?') ==> address_parts(url) == (url, Seq::<char>::empty()),
        url.contains('?') ==> url == address_parts(url).0 + seq!['?'] + address_parts(url).1
            && !address_parts(url).0.contains('?'),
        !part.contains('=') ==> query_pair(part) == (
            percent_text(part),
            percent_text(Seq::empty()),
        ),
        forall|name: Seq<char>, value: Seq<char>|
            part == name + seq!['='] + value && !name.contains('=') ==> #[trigger] query_pair(part)
                == (#[trigger] percent_text(name), #[trigger] percent_text(value)),
        path_parts(url) == split(url, '/').filter(|s: Seq<char>| s.len() > 0),
        query_pairs(url) == split(url, '&').filter(|s: Seq<char>| s.len() > 0).map_values(
            |p: Seq<char>| query_pair(p),
        ),
{
    crate::text::splitting_is_undone(url, '?');
    crate::text::splitting_is_undone(part, '=');
    crate::notes::kept_tags_are_those_with_text(split(url, '/'));
    crate::notes::kept_tags_are_those_with_text(split(url, '&'));
    assert forall|name: Seq<char>, value: Seq<char>|
        part == name + seq!['='] + value && !name.contains('=') implies #[trigger] query_pair(part)
        == (#[trigger] percent_text(name), #[trigger] percent_text(value)) by {
        let at = name.len() as int;
        assert(part[at] == '=');
        assert forall|i: int| 0 <= i < at implies part[i] != '=' by {
            assert(part[i] == name[i]);
            assert(name.contains(name[i]));
        }
        crate::text::lemma_first_index_is(part, '=', at);
        assert(part.take(at) =~= name);
        assert(part.skip(at + 1) =~= value);
    }
    assert(query_pairs(url) =~= split(url, '&').filter(|s: Seq<char>| s.len() > 0).map_values(
        |p: Seq<char>| query_pair(p),
    ));
}

/// A browser that asks for the memories, the account, a part of the graph or one
/// memory gets it, from the namespace that its query names or else from the
/// dashboard's own, with the figures of its query; and one that forgets a memory
/// forgets the one in its address, not for good.
pub proof fn addresses_lead_where_they_say(
    req: Incoming,
    default_namespace: Option<Seq<char>>,
    plan: Plan,
)
    requires
        planned(req, default_namespace, plan),
    ensures
        ({
            let pairs = param_views(req.query@);
            let named = param(pairs, "namespace"@);
            let ns = if named is Some && named->0.len() > 0 {
                named
            } else {
                default_namespace
            };
            let parts = path_parts(req.path@);
            let get = req.method@ == "GET"@;
            &&& parts.len() == 0 && get ==> plan == Plan::Page
            &&& parts == seq!["api"@, "memories"@] && get ==> {
                &&& plan matches Plan::Call {
                    request: Request::List {
                        min_salience,
                        limit,
                        node_type,
                        tag,
                        namespace,
                        scope,
                        metadata,
                    },
                    shape,
                }
                &&& shape == Shape::Passthrough
                &&& min_salience == req.min_salience
                &&& limit is Some ==> (param(pairs, "limit"@) matches Some(v) && parse_unsigned(
                    v,
                    u32::MAX as nat,
                ) == Some(limit->0 as nat))
                &&& limit is None ==> (param(pairs, "limit"@) matches Some(v) ==> parse_unsigned(
                    v,
                    u32::MAX as nat,
                ) is None)
                &&& node_type is None && tag is None && scope is None && metadata is None
                &&& text_view(namespace) == ns
            }
            &&& parts == seq!["api"@, "stats"@] && get ==> {
                &&& plan matches Plan::Call { request: Request::Stats { namespace, recall }, shape }
                &&& shape == Shape::Stats
                &&& recall is None
                &&& text_view(namespace) == ns
            }
            &&& parts == seq!["api"@, "graph"@] && get && (plan is Call) ==> {
                &&& plan matches Plan::Call {
                    request: Request::Graph { seeds, query, depth, limit, namespace },
                    shape,
                }
                &&& shape == Shape::Passthrough
                &&& text_view(namespace) == ns
                &&& query matches Some(q) ==> param(pairs, "q"@) == Some(q@) && q@.len() > 0
                &&& query is None ==> (param(pairs, "q"@) matches Some(q) ==> q.len() == 0)
                &&& (param(pairs, "seed"@) matches Some(v) && (parse_unsigned(v, u64::MAX as nat)
                    matches Some(n) && seeds_view(seeds) == Some(seq![n]))) || ((param(
                    pairs,
                    "seed"@,
                ) is None || parse_unsigned(param(pairs, "seed"@)->0, u64::MAX as nat) is None)
                    && seeds_view(seeds) == (match param(pairs, "seeds"@) {
                    Some(raw) => csv_ids(raw),
                    None => None,
                }))
                &&& depth is Some ==> (param(pairs, "depth"@) matches Some(v) && parse_unsigned(
                    v,
                    u32::MAX as nat,
                ) == Some(depth->0 as nat))
                &&& limit is Some ==> (param(pairs, "limit"@) matches Some(v) && parse_unsigned(
                    v,
                    u32::MAX as nat,
                ) == Some(limit->0 as nat))
            }
            &&& parts.len() == 3 && parts[0] == "api"@ && parts[1] == "memory"@ && get ==> (
            match parse_unsigned(parts[2], u64::MAX as nat) {
                Some(n) => plan matches Plan::Call { request: Request::Get { id, namespace }, shape }
                    && id == n && text_view(namespace) == ns && shape == Shape::Passthrough,
                None => answers(plan, 400, "invalid node id"@),
            })
            &&& parts.len() == 4 && parts[0] == "api"@ && parts[1] == "memory"@ && parts[3]
                == "forget"@ && req.method@ == "POST"@ ==> (match parse_unsigned(
                parts[2],
                u64::MAX as nat,
            ) {
                Some(n) => plan matches Plan::Call {
                    request: Request::Forget { id, hard, namespace, reason },
                    shape,
                } && id == n && hard == Some(false) && text_view(namespace) == ns && shape
                    == Shape::Forget && text_view(reason) == Some("forgotten via dashboard"@),
                None => answers(plan, 400, "invalid node id"@),
            })
            &&& parts.len() > 0 && parts[0] != "api"@ ==> answers(plan, 404, "not found"@)
            &&& parts.len() == 0 && !get ==> answers(plan, 405, "method not allowed"@)
            &&& (parts == seq!["api"@, "memories"@] || parts == seq!["api"@, "stats"@] || parts
                == seq!["api"@, "graph"@]) && !get ==> answers(plan, 405, "method not allowed"@)
            &&& parts == seq!["api"@, "graph"@] && get ==> ((plan is Call) <==> {
                ||| param(pairs, "q"@) matches Some(q) && q.len() > 0
                ||| param(pairs, "seed"@) matches Some(v) && parse_unsigned(v, u64::MAX as nat)
                    is Some
                ||| param(pairs, "seeds"@) matches Some(raw) && csv_ids(raw) is Some
            })
            &&& parts == seq!["api"@, "graph"@] && get && !(plan is Call) ==> answers(
                plan,
                400,
                "graph requires seed(s) or q"@,
            )
        }),
{
    reveal_strlit("memories");
    reveal_strlit("stats");
    reveal_strlit("graph");
    reveal_strlit("GET");
    reveal_strlit("POST");
    assert("memories"@.len() == 8 && "stats"@[0] == 's' && "graph"@[0] == 'g');
    assert("GET"@.len() == 3 && "POST"@.len() == 4);
}

/// A reply of the service reaches the browser as it is, or as the text of an
/// account, or as the outcome of a change, with the status 200. A fault reaches it
/// with its cause: as not found where the caller is at fault, and as a failure of
/// the service otherwise.
pub proof fn browsers_get_what_the_service_says(shape: Shape, reply: Reply)
    ensures
        shaped(shape, reply).content_type == "application/json"@,
        reply matches Reply::Done { text } ==> {
            &&& shaped(shape, reply).status == 200
            &&& shape == Shape::Passthrough ==> shaped(shape, reply).body == text
            &&& shape == Shape::Stats ==> shaped(shape, reply).body == "{\"stats\":"@ + json_quoted(
                text,
            ) + "}"@
            &&& shape == Shape::Forget ==> shaped(shape, reply).body == "{\"message\":"@
                + json_quoted(text) + ",\"ok\":true}"@
        },
        reply matches Reply::Fault { kind, message } ==> {
            &&& kind == ErrKind::InvalidParams ==> shaped(shape, reply).status == 404
            &&& kind == ErrKind::Internal ==> shaped(shape, reply).status == 500
            &&& shaped(shape, reply).body == "{\"error\":"@ + json_quoted(message) + "}"@
        },
{
}

/// The dashboard only reads, but for one thing: with a POST it forgets a
/// memory, and never for good.
pub proof fn dashboard_only_reads_or_retracts(
    req: Incoming,
    default_namespace: Option<Seq<char>>,
    plan: Plan,
)
    requires
        planned(req, default_namespace, plan),
    ensures
        plan matches Plan::Call { request, .. } ==> {
            ||| request is List
            ||| request is Stats
            ||| request is Graph
            ||| request is Get
            ||| (request matches Request::Forget { hard, .. } && hard == Some(false) && req.method@
                == "POST"@)
        },
{
}

/// The service is never asked about an address that does not exist, nor with
/// a method that is not meant for the address.
pub proof fn bad_requests_never_reach_the_service(
    req: Incoming,
    default_namespace: Option<Seq<char>>,
    plan: Plan,
)
    requires
        planned(req, default_namespace, plan),
        target_of(path_parts(req.path@)) is Unknown || req.method@ != method_for(
            target_of(path_parts(req.path@)),
        ),
    ensures
        plan is Answer,
{
}

/// How far a question to the daemon has come.
#[derive(Debug, Clone, Copy, PartialEq, Eq, Structural)]
pub enum BridgeStage {
    /// Asking over the connection at hand.
    Calling,
    /// The connection is lost: making a new one, and asking once more.
    Reconnecting,
    /// The daemon replied.
    Answered,
    /// Give up with the error at hand.
    Unreachable,
}

/// What came of asking.
#[derive(Debug, Clone, Copy, PartialEq, Eq, Structural)]
pub enum BridgeEvent {
    Replied,
    Failed,
}

/// Where a question stands after an attempt: a reply ends it, a lost connection
/// is made anew once, and a second failure ends it too.
pub open spec fn bridge_next(stage: BridgeStage, event: BridgeEvent) -> BridgeStage {
    match (stage, event) {
        (BridgeStage::Calling, BridgeEvent::Failed) => BridgeStage::Reconnecting,
        (BridgeStage::Reconnecting, BridgeEvent::Failed) => BridgeStage::Unreachable,
        (BridgeStage::Calling, BridgeEvent::Replied) => BridgeStage::Answered,
        (BridgeStage::Reconnecting, BridgeEvent::Replied) => BridgeStage::Answered,
        (BridgeStage::Answered, _) => BridgeStage::Answered,
        (BridgeStage::Unreachable, _) => BridgeStage::Unreachable,
    }
}

/// Says where a question stands after an attempt.
pub fn bridge_step(stage: BridgeStage, event: BridgeEvent) -> (r: BridgeStage)
    ensures
        r == bridge_next(stage, event),
{
    match stage {
        BridgeStage::Calling => match event {
            BridgeEvent::Replied => BridgeStage::Answered,
            BridgeEvent::Failed => BridgeStage::Reconnecting,
        },
        BridgeStage::Reconnecting => match event {
            BridgeEvent::Replied => BridgeStage::Answered,
            BridgeEvent::Failed => BridgeStage::Unreachable,
        },
        ended => ended,
    }
}

/// A question is put at most twice: after two attempts it has ended, and it was
/// answered exactly where one of them got a reply.
pub proof fn questions_are_put_at_most_twice(first: BridgeEvent, second: BridgeEvent)
    ensures
        bridge_next(bridge_next(BridgeStage::Calling, first), second) == (if first
            == BridgeEvent::Replied || second == BridgeEvent::Replied {
            BridgeStage::Answered
        } else {
            BridgeStage::Unreachable
        }),
{
}

/// The reply to a question that did not reach the daemon, with the cause.
pub fn unreachable_reply(cause: &str) -> (r: Response)
    ensures
        r@ == failure("daemon unreachable: "@ + cause@),
{
    let mut message = "daemon unreachable: ".to_owned();
    message.append(cause);
    Response::internal(message)
}

/// Whether `text` escapes the given bytes one by one: a percent sign and two
/// hexadecimal digits for each, with small or capital letters.
pub open spec fn escapes(text: Seq<u8>, bytes: Seq<u8>) -> bool
    decreases bytes.len(),
{
    if bytes.len() == 0 {
        text.len() == 0
    } else {
        &&& text.len() >= 3
        &&& text[0] == 0x25
        &&& hex_value(text[1]) == Some((bytes[0] / 16) as u8)
        &&& hex_value(text[2]) == Some((bytes[0] % 16) as u8)
        &&& escapes(text.skip(3), bytes.skip(1))
    }
}

/// Whatever bytes are escaped one by one, decoding gives them back, whether the
/// digits are written with small or with capital letters.
pub proof fn escaping_is_undone(text: Seq<u8>, bytes: Seq<u8>)
    requires
        escapes(text, bytes),
    ensures
        percent_bytes(text) == bytes,
    decreases bytes.len(),
{
    if bytes.len() > 0 {
        let b = bytes[0];
        escaping_is_undone(text.skip(3), bytes.skip(1));
        assert((b / 16) * 16 + b % 16 == b);
        assert(percent_bytes(text) == seq![b] + bytes.skip(1));
        assert(seq![b] + bytes.skip(1) =~= bytes);
    } else {
        assert(percent_bytes(text) =~= bytes);
    }
}

/// Bytes among which there is neither a percent sign nor a plus sign stand for
/// themselves.
pub proof fn plain_bytes_are_kept(bytes: Seq<u8>)
    requires
        forall|i: int| 0 <= i < bytes.len() ==> #[trigger] bytes[i] != 0x25 && bytes[i] != 0x2b,
    ensures
        percent_bytes(bytes) == bytes,
    decreases bytes.len(),
{
    if bytes.len() > 0 {
        let rest = bytes.skip(1);
        assert forall|i: int| 0 <= i < rest.len() implies #[trigger] rest[i] != 0x25 && rest[i]
            != 0x2b by {
            assert(rest[i] == bytes[i + 1]);
        }
        plain_bytes_are_kept(rest);
        assert(bytes[0] != 0x25);
        assert(seq![bytes[0]] + rest =~= bytes);
    }
}

/// In a query a plus sign stands for a space, and a percent sign that no two
/// hexadecimal digits follow stands for itself.
pub proof fn signs_in_queries_have_their_meaning(rest: Seq<u8>)
    ensures
        percent_bytes(seq![0x2bu8] + rest) == seq![0x20u8] + percent_bytes(rest),
        rest.len() < 2 || hex_value(rest[0]) is None || hex_value(rest[1]) is None ==> percent_bytes(
            seq![0x25u8] + rest,
        ) == seq![0x25u8] + percent_bytes(rest),
{
    assert((seq![0x2bu8] + rest).skip(1) =~= rest);
    assert((seq![0x25u8] + rest).skip(1) =~= rest);
}

/// A fault reaches the browser with its status and with its message in JSON.
pub proof fn faults_reach_the_browser(plan: Plan, status: u16, message: Seq<char>)
    requires
        answers(plan, status, message),
    ensures
        plan matches Plan::Answer { reply } && reply.status == status && reply.content_type@
            == "application/json"@ && reply.body@ == "{\"error\":"@ + json_quoted(message) + "}"@,
{
}

}
