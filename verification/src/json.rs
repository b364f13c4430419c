//! A structured document value: the tagged union that payloads, rows and
//! opaque column values are made of.

use vstd::prelude::*;
use crate::text::str_eq;

verus! {

/// A number of a document: a non-negative integer, a negative integer, or a
/// binary64 value kept as its bit pattern.
#[derive(Clone, Copy, Debug, PartialEq, Eq, Structural)]
pub enum JsonNumber {
    PosInt(u64),
    NegInt(i64),
    Float(u64),
}

/// A document value. An object keeps its members in the order in which they
/// were added; a key is looked up from the front.
#[derive(Debug, PartialEq, Eq)]
pub enum Json {
    Null,
    Bool(bool),
    Number(JsonNumber),
    String(String),
    Array(Vec<Json>),
    Object(Vec<(String, Json)>),
}

/// The mathematical content of a [`Json`].
pub enum JsonV {
    Null,
    Bool(bool),
    Number(JsonNumber),
    String(Seq<char>),
    Array(Seq<JsonV>),
    Object(Seq<(Seq<char>, JsonV)>),
}

/// The members of an object, as mathematical values.
pub type Members = Seq<(Seq<char>, JsonV)>;

/// The content of a value, member by member and item by item.
pub open spec fn content(j: Json) -> JsonV
    decreases j,
{
    match j {
        Json::Null => JsonV::Null,
        Json::Bool(b) => JsonV::Bool(b),
        Json::Number(n) => JsonV::Number(n),
        Json::String(s) => JsonV::String(s@),
        Json::Array(items) => JsonV::Array(
            Seq::new(
                items@.len(),
                |i: int|
                    if 0 <= i < items@.len() {
                        content(items@[i])
                    } else {
                        JsonV::Null
                    },
            ),
        ),
        Json::Object(entries) => JsonV::Object(
            Seq::new(
                entries@.len(),
                |i: int|
                    if 0 <= i < entries@.len() {
                        (entries@[i].0@, content(entries@[i].1))
                    } else {
                        (Seq::empty(), JsonV::Null)
                    },
            ),
        ),
    }
}

impl View for Json {
    type V = JsonV;

    open spec fn view(&self) -> JsonV {
        content(*self)
    }
}

/// The contents of a list of values.
pub open spec fn item_views(items: Seq<Json>) -> Seq<JsonV> {
    Seq::new(items.len(), |i: int| items[i]@)
}

/// The contents of a list of members.
pub open spec fn member_views(entries: Seq<(String, Json)>) -> Members {
    Seq::new(entries.len(), |i: int| (entries[i].0@, entries[i].1@))
}

/// The content of an array is the list of its items' contents.
pub proof fn lemma_array_view(items: Vec<Json>)
    ensures
        Json::Array(items)@ == JsonV::Array(item_views(items@)),
{
    let a = Json::Array(items);
    assert(a@ is Array);
    assert(a@->Array_0.len() == items@.len());
    assert forall|i: int| 0 <= i < items@.len() implies a@->Array_0[i] == items@[i]@ by {}
    assert(a@->Array_0 =~= item_views(items@));
}

/// The content of an object is the list of its members' contents.
pub proof fn lemma_object_view(entries: Vec<(String, Json)>)
    ensures
        Json::Object(entries)@ == JsonV::Object(member_views(entries@)),
{
    let o = Json::Object(entries);
    assert(o@ is Object);
    assert forall|i: int| 0 <= i < entries@.len() implies o@->Object_0[i] == (
        entries@[i].0@,
        entries@[i].1@,
    ) by {}
    assert(o@->Object_0 =~= member_views(entries@));
}

/// The index of the first member named `key`, or the number of members if
/// there is none.
pub open spec fn position(members: Members, key: Seq<char>) -> int
    decreases members.len(),
{
    if members.len() == 0 {
        0
    } else if members[0].0 == key {
        0
    } else {
        1 + position(members.drop_first(), key)
    }
}

/// The value of the first member named `key`.
pub open spec fn lookup(members: Members, key: Seq<char>) -> Option<JsonV> {
    let i = position(members, key);
    if i < members.len() {
        Some(members[i].1)
    } else {
        None
    }
}

/// The members with `key` set to `value`: the first member of that name gets
/// the value and keeps its place, or a new member is added at the end.
pub open spec fn put(members: Members, key: Seq<char>, value: JsonV) -> Members {
    let i = position(members, key);
    if i < members.len() {
        members.update(i, (key, value))
    } else {
        members.push((key, value))
    }
}

/// The members without those named `key`.
pub open spec fn without(members: Members, key: Seq<char>) -> Members
    decreases members.len(),
{
    if members.len() == 0 {
        members
    } else if members.last().0 == key {
        without(members.drop_last(), key)
    } else {
        without(members.drop_last(), key).push(members.last())
    }
}

/// What `position` returns: an index no member before which is named `key`,
/// and which is either the end or a member named `key`.
pub proof fn lemma_position(members: Members, key: Seq<char>)
    ensures
        0 <= position(members, key) <= members.len(),
        forall|j: int| 0 <= j < position(members, key) ==> (#[trigger] members[j]).0 != key,
        position(members, key) < members.len() ==> members[position(members, key)].0 == key,
    decreases members.len(),
{
    if members.len() != 0 && members[0].0 != key {
        let rest = members.drop_first();
        lemma_position(rest, key);
        assert forall|j: int| 0 <= j < position(members, key) implies (#[trigger] members[j]).0
            != key by {
            if j > 0 {
                assert(members[j] == rest[j - 1]);
            }
        }
    }
}

/// An index with the properties of `position` is `position`.
pub proof fn lemma_position_is(members: Members, key: Seq<char>, i: int)
    requires
        0 <= i <= members.len(),
        forall|j: int| 0 <= j < i ==> (#[trigger] members[j]).0 != key,
        i < members.len() ==> members[i].0 == key,
    ensures
        position(members, key) == i,
{
    lemma_position(members, key);
    let p = position(members, key);
    if p < i {
        assert(members[p].0 != key);
    } else if i < p {
        assert(members[i].0 != key);
    }
}

/// After a member was put, it is found with its value, and every member of
/// another name is found as before.
pub proof fn lemma_lookup_put(members: Members, key: Seq<char>, value: JsonV, other: Seq<char>)
    ensures
        lookup(put(members, key, value), key) == Some(value),
        other != key ==> lookup(put(members, key, value), other) == lookup(members, other),
{
    let after = put(members, key, value);
    let i = position(members, key);
    lemma_position(members, key);
    assert forall|j: int| 0 <= j < i implies (#[trigger] after[j]).0 != key by {
        assert(after[j] == members[j]);
    }
    lemma_position_is(after, key, i);
    if other != key {
        let k = position(members, other);
        lemma_position(members, other);
        let at = if k < members.len() {
            k
        } else {
            after.len() as int
        };
        assert forall|j: int| 0 <= j < at implies (#[trigger] after[j]).0 != other by {
            if j == i {
                assert(after[j].0 == key);
            } else {
                assert(after[j] == members[j]);
            }
        }
        if k < members.len() {
            assert(k != i);
            assert(after[k] == members[k]);
        }
        lemma_position_is(after, other, at);
    }
}

impl Json {
    /// A copy of the value, with the same content.
    pub fn duplicate(&self) -> (r: Json)
        ensures
            r@ == self@,
        decreases self,
    {
        match self {
            Json::Null => Json::Null,
            Json::Bool(b) => Json::Bool(*b),
            Json::Number(n) => Json::Number(*n),
            Json::String(s) => Json::String(s.clone()),
            Json::Array(items) => {
                let out = duplicate_items(items);
                proof {
                    lemma_array_view(out);
                    lemma_array_view(*items);
                }
                Json::Array(out)
            },
            Json::Object(entries) => {
                let out = duplicate_members(entries);
                proof {
                    lemma_object_view(out);
                    lemma_object_view(*entries);
                }
                Json::Object(out)
            },
        }
    }

    /// The value of member `key`, if this is an object that has one.
    pub fn get(&self, key: &str) -> (r: Option<&Json>)
        ensures
            match self@ {
                JsonV::Object(members) => match lookup(members, key@) {
                    Some(v) => r is Some && r->0@ == v,
                    None => r is None,
                },
                _ => r is None,
            },
    {
        match self {
            Json::Object(entries) => {
                proof {
                    lemma_object_view(*entries);
                }
                get_member(entries, key)
            },
            _ => None,
        }
    }
}

/// A copy of a list of values, with the same content.
pub fn duplicate_items(items: &Vec<Json>) -> (r: Vec<Json>)
    ensures
        item_views(r@) == item_views(items@),
    decreases items,
{
    let mut out: Vec<Json> = Vec::new();
    let mut i: usize = 0;
    while i < items.len()
        invariant
            i <= items.len(),
            out@.len() == i,
            forall|j: int| 0 <= j < i ==> out@[j]@ == items@[j]@,
        decreases items.len() - i,
    {
        let item = items[i].duplicate();
        out.push(item);
        i += 1;
    }
    assert(item_views(out@) =~= item_views(items@));
    out
}

/// A copy of a list of members, with the same content.
pub fn duplicate_members(entries: &Vec<(String, Json)>) -> (r: Vec<(String, Json)>)
    ensures
        member_views(r@) == member_views(entries@),
    decreases entries,
{
    let mut out: Vec<(String, Json)> = Vec::new();
    let mut i: usize = 0;
    while i < entries.len()
        invariant
            i <= entries.len(),
            out@.len() == i,
            forall|j: int|
                0 <= j < i ==> out@[j].0@ == entries@[j].0@ && out@[j].1@ == entries@[j].1@,
        decreases entries.len() - i,
    {
        let key = entries[i].0.clone();
        let value = entries[i].1.duplicate();
        out.push((key, value));
        i += 1;
    }
    assert(member_views(out@) =~= member_views(entries@));
    out
}

/// The index of the first member named `key`, or the number of members.
pub fn find_member(entries: &Vec<(String, Json)>, key: &str) -> (r: usize)
    ensures
        r == position(member_views(entries@), key@),
{
    let mut i: usize = 0;
    while i < entries.len()
        invariant
            i <= entries.len(),
            forall|j: int| 0 <= j < i ==> (#[trigger] member_views(entries@)[j]).0 != key@,
        decreases entries.len() - i,
    {
        if str_eq(entries[i].0.as_str(), key) {
            proof {
                lemma_position_is(member_views(entries@), key@, i as int);
            }
            return i;
        }
        i += 1;
    }
    proof {
        lemma_position_is(member_views(entries@), key@, i as int);
    }
    i
}

/// The value of the first member named `key`.
pub fn get_member<'a>(entries: &'a Vec<(String, Json)>, key: &str) -> (r: Option<&'a Json>)
    ensures
        match lookup(member_views(entries@), key@) {
            Some(v) => r is Some && r->0@ == v,
            None => r is None,
        },
{
    let i = find_member(entries, key);
    if i < entries.len() {
        Some(&entries[i].1)
    } else {
        None
    }
}

/// Sets member `key` to `value`: in place where a member of that name
/// exists, at the end otherwise.
pub fn put_member(entries: &mut Vec<(String, Json)>, key: String, value: Json)
    ensures
        member_views(final(entries)@) == put(member_views(old(entries)@), key@, value@),
{
    let i = find_member(entries, key.as_str());
    if i < entries.len() {
        entries.set(i, (key, value));
        assert(member_views(entries@) =~= put(member_views(old(entries)@), key@, value@));
    } else {
        entries.push((key, value));
        assert(member_views(entries@) =~= put(member_views(old(entries)@), key@, value@));
    }
}

/// Removes every member named `key`.
pub fn remove_member(entries: &mut Vec<(String, Json)>, key: &str)
    ensures
        member_views(final(entries)@) == without(member_views(old(entries)@), key@),
{
    let mut kept: Vec<(String, Json)> = Vec::new();
    let mut i: usize = 0;
    let n = entries.len();
    while i < n
        invariant
            i <= n,
            n == entries.len(),
            member_views(kept@) == without(member_views(entries@).take(i as int), key@),
        decreases n - i,
    {
        let ghost all = member_views(entries@);
        assert(all.take(i + 1).drop_last() =~= all.take(i as int));
        if !str_eq(entries[i].0.as_str(), key) {
            let k = entries[i].0.clone();
            let v = entries[i].1.duplicate();
            kept.push((k, v));
            assert(member_views(kept@) =~= without(all.take(i as int), key@).push(all[i as int]));
        }
        i += 1;
    }
    assert(member_views(entries@).take(n as int) =~= member_views(entries@));
    *entries = kept;
}

} // verus!
