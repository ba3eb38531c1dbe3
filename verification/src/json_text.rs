//! Writing JSON text: objects of named members, arrays, and strings quoted
//! as `serde_json` quotes them.

use vstd::prelude::*;

use crate::codec::{json_quote, json_string_literal};
use crate::text::{pair_views, push_str, views};

verus! {

/// The texts joined with commas between them.
pub open spec fn joined(items: Seq<Seq<char>>) -> Seq<char>
    decreases items.len(),
{
    if items.len() == 0 {
        Seq::empty()
    } else if items.len() == 1 {
        items[0]
    } else {
        joined(items.drop_last()) + ","@ + items.last()
    }
}

/// A member of a JSON object: its quoted name, a colon and its value text.
pub open spec fn member_json(name: Seq<char>, value: Seq<char>) -> Seq<char> {
    json_string_literal(name) + ":"@ + value
}

/// A JSON object of member texts.
pub open spec fn object_json(members: Seq<Seq<char>>) -> Seq<char> {
    "{"@ + joined(members) + "}"@
}

/// A JSON array of value texts.
pub open spec fn array_json(items: Seq<Seq<char>>) -> Seq<char> {
    "["@ + joined(items) + "]"@
}

/// Each text as a JSON string.
pub open spec fn quoted_all(items: Seq<Seq<char>>) -> Seq<Seq<char>> {
    items.map_values(|s: Seq<char>| json_string_literal(s))
}

/// A JSON array of strings.
pub open spec fn strings_json(items: Seq<Seq<char>>) -> Seq<char> {
    array_json(quoted_all(items))
}

/// A JSON object of `(name, JSON text)` pairs.
pub open spec fn pairs_json(pairs: Seq<(Seq<char>, Seq<char>)>) -> Seq<char> {
    object_json(pairs.map_values(|p: (Seq<char>, Seq<char>)| member_json(p.0, p.1)))
}

/// The member `name` when `value` is there, else none.
pub open spec fn opt_string_member(name: Seq<char>, value: Option<String>) -> Seq<Seq<char>> {
    match value {
        Some(v) => seq![member_json(name, json_string_literal(v@))],
        None => Seq::empty(),
    }
}

/// Writes `items` joined with commas.
pub fn join_texts(items: &Vec<String>) -> (text: String)
    ensures
        text@ == joined(views(items@)),
{
    let mut text = String::new();
    let mut i: usize = 0;
    while i < items.len()
        invariant
            i <= items@.len(),
            text@ == joined(views(items@.take(i as int))),
        decreases items@.len() - i,
    {
        let ghost before = text@;
        assert(views(items@.take(i + 1)).drop_last() =~= views(items@.take(i as int)));
        if i > 0 {
            push_str(&mut text, ",");
        }
        push_str(&mut text, items[i].as_str());
        assert(views(items@.take(i + 1)).last() == items@[i as int]@);
        if i == 0 {
            assert(text@ =~= joined(views(items@.take(1))));
        } else {
            assert(text@ =~= joined(views(items@.take(i + 1))));
        }
        i += 1;
    }
    assert(items@.take(items@.len() as int) =~= items@);
    text
}

/// Appends the member `name` with value text `value`.
pub fn push_member(members: &mut Vec<String>, name: &str, value: &str)
    ensures
        views(final(members)@) == views(old(members)@).push(member_json(name@, value@)),
{
    let mut member = json_quote(name);
    push_str(&mut member, ":");
    push_str(&mut member, value);
    members.push(member);
    assert(views(members@) =~= views(old(members)@).push(member_json(name@, value@)));
}

/// Writes a JSON object of the member texts.
pub fn object_text(members: &Vec<String>) -> (text: String)
    ensures
        text@ == object_json(views(members@)),
{
    let mut text = "{".to_owned();
    let inner = join_texts(members);
    push_str(&mut text, inner.as_str());
    push_str(&mut text, "}");
    text
}

/// Writes a JSON array of the value texts.
pub fn array_text(items: &Vec<String>) -> (text: String)
    ensures
        text@ == array_json(views(items@)),
{
    let mut text = "[".to_owned();
    let inner = join_texts(items);
    push_str(&mut text, inner.as_str());
    push_str(&mut text, "]");
    text
}

/// Writes a JSON array of strings.
pub fn strings_text(items: &Vec<String>) -> (text: String)
    ensures
        text@ == strings_json(views(items@)),
{
    let mut quoted: Vec<String> = Vec::new();
    let mut i: usize = 0;
    while i < items.len()
        invariant
            i <= items@.len(),
            views(quoted@) == quoted_all(views(items@.take(i as int))),
        decreases items@.len() - i,
    {
        let q = json_quote(items[i].as_str());
        let ghost before = quoted@;
        quoted.push(q);
        assert(views(items@.take(i + 1)) =~= views(items@.take(i as int)).push(items@[i as int]@));
        assert(quoted_all(views(items@.take(i + 1))) =~= quoted_all(views(items@.take(i as int))).push(
            json_string_literal(items@[i as int]@),
        ));
        assert(views(quoted@) =~= views(before).push(quoted@[i as int]@));
        assert(views(quoted@) =~= quoted_all(views(items@.take(i + 1))));
        i += 1;
    }
    assert(items@.take(items@.len() as int) =~= items@);
    array_text(&quoted)
}

/// Writes a JSON object of `(name, JSON text)` pairs.
pub fn pairs_text(pairs: &Vec<(String, String)>) -> (text: String)
    ensures
        text@ == pairs_json(pair_views(pairs@)),
{
    let mut members: Vec<String> = Vec::new();
    let mut i: usize = 0;
    while i < pairs.len()
        invariant
            i <= pairs@.len(),
            views(members@) == pair_views(pairs@.take(i as int)).map_values(
                |p: (Seq<char>, Seq<char>)| member_json(p.0, p.1),
            ),
        decreases pairs@.len() - i,
    {
        push_member(&mut members, pairs[i].0.as_str(), pairs[i].1.as_str());
        assert(views(members@) =~= pair_views(pairs@.take(i + 1)).map_values(
            |p: (Seq<char>, Seq<char>)| member_json(p.0, p.1),
        ));
        i += 1;
    }
    assert(pairs@.take(pairs@.len() as int) =~= pairs@);
    object_text(&members)
}

/// Appends the member `name` when `value` is there.
pub fn push_opt_string_member(members: &mut Vec<String>, name: &str, value: &Option<String>)
    ensures
        views(final(members)@) == views(old(members)@) + opt_string_member(name@, *value),
{
    match value {
        Some(v) => {
            let q = json_quote(v.as_str());
            push_member(members, name, q.as_str());
        },
        None => {},
    }
    assert(views(members@) =~= views(old(members)@) + opt_string_member(name@, *value));
}

} // verus!
