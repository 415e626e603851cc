//! The JSON texts the service answers with, composed piece by piece.

use crate::outside::{json_body, json_escape, json_quoted, json_string};
use crate::text::{decimal, push_decimal};
use vstd::prelude::*;
use vstd::string::StringExecFns;

verus! {

/// A JSON number that is absent is `null`.
pub open spec fn json_optional(n: Option<u64>) -> Seq<char> {
    match n {
        Some(v) => decimal(v as nat),
        None => "null"@,
    }
}

/// The JSON text of a truth value.
pub open spec fn json_bool(b: bool) -> Seq<char> {
    if b {
        "true"@
    } else {
        "false"@
    }
}

/// The texts with a comma between neighbours.
pub open spec fn comma_joined(items: Seq<Seq<char>>) -> Seq<char>
    decreases items.len(),
{
    if items.len() == 0 {
        Seq::empty()
    } else if items.len() == 1 {
        items[0]
    } else {
        comma_joined(items.drop_last()).push(',') + items.last()
    }
}

/// A JSON array of the given texts.
pub open spec fn json_array(items: Seq<Seq<char>>) -> Seq<char> {
    seq!['['] + comma_joined(items) + seq![']']
}

/// An array of nothing holds nothing, an array of one text holds it, and the
/// texts of two lists one after the other stand one after the other, with a comma
/// between them.
pub proof fn arrays_keep_their_order(a: Seq<Seq<char>>, b: Seq<Seq<char>>, item: Seq<char>)
    requires
        a.len() > 0,
        b.len() > 0,
    ensures
        json_array(Seq::empty()) == seq!['[', ']'],
        json_array(seq![item]) == seq!['['] + item + seq![']'],
        comma_joined(a + b) == comma_joined(a) + seq![','] + comma_joined(b),
    decreases b.len(),
{
    assert(json_array(Seq::empty()) =~= seq!['[', ']']);
    let all = a + b;
    assert(all.drop_last() =~= a + b.drop_last());
    assert(all.last() == b.last());
    if b.len() > 1 {
        arrays_keep_their_order(a, b.drop_last(), item);
        assert(comma_joined(all) =~= comma_joined(a) + seq![','] + comma_joined(b));
    } else {
        assert(a + b.drop_last() =~= a);
        assert(comma_joined(all) =~= comma_joined(a) + seq![','] + comma_joined(b));
    }
}

/// Appends `s` as a JSON string.
pub fn push_json_string(out: &mut String, s: &str)
    ensures
        final(out)@ == old(out)@ + json_quoted(s@),
{
    let quoted = json_string(s);
    out.append(quoted.as_str());
}

/// Appends a number, or `null`.
pub fn push_json_optional(out: &mut String, n: Option<u64>)
    ensures
        final(out)@ == old(out)@ + json_optional(n),
{
    match n {
        Some(v) => push_decimal(out, v),
        None => out.append("null"),
    }
}

/// Appends a truth value.
pub fn push_json_bool(out: &mut String, b: bool)
    ensures
        final(out)@ == old(out)@ + json_bool(b),
{
    if b {
        out.append("true")
    } else {
        out.append("false")
    }
}

/// The JSON array of the given texts.
pub fn array_text(items: &Vec<String>) -> (r: String)
    ensures
        r@ == json_array(crate::text::views(items@)),
{
    let ghost views = crate::text::views(items@);
    let mut out = String::new();
    out.push('[');
    let mut i: usize = 0;
    assert(views.take(0) =~= Seq::<Seq<char>>::empty());
    assert(out@ =~= seq!['['] + comma_joined(views.take(0)));
    while i < items.len()
        invariant
            0 <= i <= items@.len(),
            views == crate::text::views(items@),
            out@ == seq!['['] + comma_joined(views.take(i as int)),
        decreases items@.len() - i,
    {
        if i > 0 {
            out.push(',');
        }
        out.append(items[i].as_str());
        proof {
            let next = views.take(i + 1);
            assert(next.drop_last() =~= views.take(i as int));
            assert(next.last() == items@[i as int]@);
            assert(out@ =~= seq!['['] + comma_joined(next));
        }
        i += 1;
    }
    assert(views.take(i as int) =~= views);
    out.push(']');
    assert(out@ =~= json_array(views));
    out
}

/// A number that is absent is written as `null`, and a truth value by its word.
pub proof fn plain_values_are_written_plainly(n: Option<u64>, b: bool)
    ensures
        n is None ==> json_optional(n) == "null"@,
        n matches Some(v) ==> json_optional(n) == decimal(v as nat),
        b ==> json_bool(b) == "true"@,
        !b ==> json_bool(b) == "false"@,
{
}

/// A text is written character by character, in its order, between two quotes;
/// a character that needs no escape stands for itself.
pub proof fn texts_are_written_character_by_character(a: Seq<char>, b: Seq<char>, c: char)
    ensures
        json_body(a + b) == json_body(a) + json_body(b),
        json_body(seq![c]) == json_escape(c),
        json_quoted(a) == seq!['"'] + json_body(a) + seq!['"'],
        c >= ' ' && c != '"' && c != '\\' ==> json_escape(c) == seq![c],
        !(c >= ' ' && c != '"' && c != '\\') ==> json_escape(c).len() > 1 && json_escape(c)[0]
            == '\\',
    decreases b.len(),
{
    reveal_with_fuel(json_body, 2);
    assert(seq![c].drop_last() =~= Seq::<char>::empty());
    assert(json_body(seq![c]) =~= json_escape(c));
    assert(json_quoted(a) =~= seq!['"'] + json_body(a) + seq!['"']);
    if b.len() == 0 {
        assert(a + b =~= a);
        assert(json_body(a + b) =~= json_body(a) + json_body(b));
    } else {
        texts_are_written_character_by_character(a, b.drop_last(), c);
        assert((a + b).drop_last() =~= a + b.drop_last());
        assert((a + b).last() == b.last());
        assert(json_body(a + b) =~= json_body(a) + json_body(b));
    }
}

}
