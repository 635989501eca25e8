//! The JSON values that the engine reads and writes.
//!
//! Values are `rustc_serialize::json::Json`. Verus cannot look inside one, so
//! this module names what a value holds ([`json_view`]) and offers two
//! conversions, one level deep each way, between a `Json` and a [`Node`].
//! Everything else in the crate reads and builds JSON through them.

use crate::limits::within_limits;
use rustc_serialize::json::Json;
use vstd::prelude::*;
use vstd::utf8::{decode_utf8, encode_utf8, valid_utf8};

verus! {

/// `rustc_serialize::json::Json`, a JSON value.
#[verifier::external_type_specification]
#[verifier::external_body]
pub struct ExJson(Json);

/// What a JSON value holds, one level deep: its kind, and for a container
/// the values directly inside it.
pub ghost enum JsonView {
    Null,
    Boolean(bool),
    I64(i64),
    U64(u64),
    /// A floating-point number. The number itself is not modelled: the engine
    /// only ever carries such a value from one place to another.
    F64,
    String(Seq<char>),
    Array(Seq<Json>),
    Object(Map<Seq<char>, Json>),
}

/// The contents of a `Json`: which variant of the enum it is and the fields
/// of that variant, an `Object`'s `BTreeMap` read as a map from key to value.
pub uninterp spec fn json_view(j: Json) -> JsonView;

/// The JSON value that `rustc_serialize::json::Json::from_str` builds from a
/// text, or `None` where it reports an error.
pub uninterp spec fn parsed_json(text: Seq<char>) -> Option<Json>;

/// The text that `rustc_serialize::json::encode` writes for a JSON value.
pub uninterp spec fn encoded_json(j: Json) -> Seq<char>;

/// One level of a JSON value in executable form.
pub enum Node {
    Null,
    Boolean(bool),
    I64(i64),
    U64(u64),
    /// A floating-point number, kept as the JSON value it came in.
    F64(Json),
    String(String),
    Array(Vec<Json>),
    /// The members of an object, one entry per key.
    Object(Vec<(String, Json)>),
}

/// `i` is a position in `entries` whose key is `key`.
pub open spec fn keyed_at(entries: Seq<(String, Json)>, key: Seq<char>, i: int) -> bool {
    0 <= i < entries.len() && entries[i].0@ == key
}

/// No key occurs twice in `entries`.
pub open spec fn distinct_keys(entries: Seq<(String, Json)>) -> bool {
    forall|i: int, j: int|
        0 <= i < j < entries.len() ==> (#[trigger] entries[i]).0@ != (#[trigger] entries[j]).0@
}

/// The map from key to value that a list of entries stands for.
pub open spec fn members_of(entries: Seq<(String, Json)>) -> Map<Seq<char>, Json> {
    Map::new(
        |key: Seq<char>| exists|i: int| keyed_at(entries, key, i),
        |key: Seq<char>| entries[choose|i: int| keyed_at(entries, key, i)].1,
    )
}

impl Node {
    /// A float node holds a float, and an object node holds each key once.
    pub open spec fn wf(self) -> bool {
        match self {
            Node::F64(number) => json_view(number) is F64,
            Node::Object(entries) => distinct_keys(entries@),
            _ => true,
        }
    }
}

impl View for Node {
    type V = JsonView;

    open spec fn view(&self) -> JsonView {
        match *self {
            Node::Null => JsonView::Null,
            Node::Boolean(b) => JsonView::Boolean(b),
            Node::I64(n) => JsonView::I64(n),
            Node::U64(n) => JsonView::U64(n),
            Node::F64(_) => JsonView::F64,
            Node::String(s) => JsonView::String(s@),
            Node::Array(items) => JsonView::Array(items@),
            Node::Object(entries) => JsonView::Object(members_of(entries@)),
        }
    }
}

/// Takes a `Json` apart, one arm for each variant of the enum. The contract
/// claims that the node holds the fields of that variant, moved and not
/// changed; that a float arrives as the value that was given; and that the
/// entries read from an object's `BTreeMap` hold each key once.
#[verifier::external_body]
pub(crate) fn open(j: Json) -> (node: Node)
    ensures
        node@ == json_view(j),
        node.wf(),
        node matches Node::F64(number) ==> number == j,
{
    match j {
        Json::Null => Node::Null,
        Json::Boolean(b) => Node::Boolean(b),
        Json::I64(n) => Node::I64(n),
        Json::U64(n) => Node::U64(n),
        Json::F64(x) => Node::F64(Json::F64(x)),
        Json::String(s) => Node::String(s),
        Json::Array(items) => Node::Array(items),
        Json::Object(members) => Node::Object(members.into_iter().collect()),
    }
}

/// Puts a `Json` together, one arm for each variant of the enum. The contract
/// claims that the value holds what the node held; an object's entries are
/// collected into a `BTreeMap`, which is why no key may occur twice.
#[verifier::external_body]
pub(crate) fn close(node: Node) -> (j: Json)
    requires
        node.wf(),
    ensures
        json_view(j) == node@,
        node matches Node::F64(number) ==> j == number,
{
    match node {
        Node::Null => Json::Null,
        Node::Boolean(b) => Json::Boolean(b),
        Node::I64(n) => Json::I64(n),
        Node::U64(n) => Json::U64(n),
        Node::F64(number) => number,
        Node::String(s) => Json::String(s),
        Node::Array(items) => Json::Array(items),
        Node::Object(entries) => Json::Object(entries.into_iter().collect()),
    }
}

/// `Json`'s derived `Clone`: the copy is the value that it was made from.
pub assume_specification[ <Json as Clone>::clone ](j: &Json) -> (copy: Json)
    ensures
        copy == *j,
;

/// Calls `rustc_serialize::json::Json::from_str`. The contract names the
/// result and claims that it depends on the text alone.
///
/// The text has to be within the limits, for the parser panics or runs out
/// of stack beyond them: it addresses the keys of the open objects with 16
/// bits and counts the items of an array in 32; it gathers the digits of an
/// exponent in a machine word; it calls itself for each array and object
/// inside another; and behind a `,` before a `}` it loses track of which
/// keys are open.
#[verifier::external_body]
pub(crate) fn parse_json(text: &str) -> (parsed: Option<Json>)
    requires
        within_limits(encode_utf8(text@)),
    ensures
        parsed == parsed_json(text@),
{
    Json::from_str(text).ok()
}

/// Calls `rustc_serialize::json::encode`. The contract names the result and
/// claims that it depends on the value alone, and that there is one: the
/// encoder writes into a `String`, which takes every write, and the keys of
/// a `Json` object are strings, the one kind of key that it accepts.
#[verifier::external_body]
pub(crate) fn encode_json(j: &Json) -> (text: Option<String>)
    ensures
        text is Some,
        text matches Some(s) ==> s@ == encoded_json(*j),
{
    rustc_serialize::json::encode(j).ok()
}

/// Calls `std::str::from_utf8`: bytes are a text exactly when they are valid
/// UTF-8, and the text is then what they decode to.
#[verifier::external_body]
pub(crate) fn utf8_text(bytes: &[u8]) -> (text: Option<&str>)
    ensures
        text is Some == valid_utf8(bytes@),
        text matches Some(s) ==> s@ == decode_utf8(bytes@),
{
    std::str::from_utf8(bytes).ok()
}

/// An entry with a given key is a member, and its value is the member's value.
pub proof fn lemma_member_at(entries: Seq<(String, Json)>, i: int)
    requires
        distinct_keys(entries),
        0 <= i < entries.len(),
    ensures
        members_of(entries).contains_key(entries[i].0@),
        members_of(entries)[entries[i].0@] == entries[i].1,
{
    let key = entries[i].0@;
    assert(keyed_at(entries, key, i));
    let chosen = choose|k: int| keyed_at(entries, key, k);
    assert(keyed_at(entries, key, chosen));
    if chosen < i {
        assert(entries[chosen].0@ != entries[i].0@);
    } else if i < chosen {
        assert(entries[i].0@ != entries[chosen].0@);
    }
}

/// The member of a JSON value under a key: a value only for an object that
/// has the key.
pub open spec fn member(v: JsonView, key: Seq<char>) -> Option<Json> {
    match v {
        JsonView::Object(members) => if members.contains_key(key) {
            Some(members[key])
        } else {
            None
        },
        _ => None,
    }
}

/// Takes the entry with the given key out of a list of entries.
///
/// Returns the value of that entry, or `None` and the list unchanged where no
/// entry has the key. The other entries keep their order.
pub(crate) fn take_member(entries: &mut Vec<(String, Json)>, key: &str) -> (value: Option<Json>)
    requires
        distinct_keys(old(entries)@),
    ensures
        distinct_keys(final(entries)@),
        value == member(JsonView::Object(members_of(old(entries)@)), key@),
        members_of(final(entries)@) == members_of(old(entries)@).remove(key@),
        value is None ==> final(entries)@ == old(entries)@,
        value is Some ==> exists|i: int|
            keyed_at(old(entries)@, key@, i) && final(entries)@ == old(entries)@.remove(i),
{
    let wanted = key.to_owned();
    let mut i: usize = 0;
    while i < entries.len()
        invariant
            i <= entries.len(),
            entries@ == old(entries)@,
            distinct_keys(entries@),
            wanted@ == key@,
            forall|k: int| 0 <= k < i ==> entries@[k].0@ != key@,
        decreases entries.len() - i,
    {
        if entries[i].0 == wanted {
            let ghost before = entries@;
            let entry = entries.remove(i);
            proof {
                lemma_member_at(before, i as int);
                lemma_remove_entry(before, i as int);
            }
            return Some(entry.1);
        }
        i += 1;
    }
    proof {
        assert(!members_of(entries@).contains_key(key@)) by {
            if exists|k: int| keyed_at(entries@, key@, k) {
                let k = choose|k: int| keyed_at(entries@, key@, k);
                assert(entries@[k].0@ != key@);
            }
        }
        assert(members_of(entries@).remove(key@) =~= members_of(entries@));
    }
    None
}

/// Without one of its entries, a list stands for the same map without that
/// entry's key.
pub proof fn lemma_remove_entry(entries: Seq<(String, Json)>, i: int)
    requires
        distinct_keys(entries),
        0 <= i < entries.len(),
    ensures
        distinct_keys(entries.remove(i)),
        members_of(entries.remove(i)) == members_of(entries).remove(entries[i].0@),
{
    let rest = entries.remove(i);
    let gone = entries[i].0@;
    assert forall|a: int, b: int| 0 <= a < b < rest.len() implies (#[trigger] rest[a]).0@ != (
    #[trigger] rest[b]).0@ by {
        let a0 = if a < i { a } else { a + 1 };
        let b0 = if b < i { b } else { b + 1 };
        assert(rest[a] == entries[a0]);
        assert(rest[b] == entries[b0]);
    }
    assert forall|key: Seq<char>| #[trigger]
        members_of(rest).contains_key(key) == members_of(entries).remove(gone).contains_key(
            key,
        ) by {
        if members_of(rest).contains_key(key) {
            let k = choose|k: int| keyed_at(rest, key, k);
            let k0 = if k < i { k } else { k + 1 };
            assert(rest[k] == entries[k0]);
            assert(keyed_at(entries, key, k0));
            if k0 < i {
                assert(entries[k0].0@ != entries[i].0@);
            } else {
                assert(entries[i].0@ != entries[k0].0@);
            }
        }
        if members_of(entries).remove(gone).contains_key(key) {
            let k0 = choose|k: int| keyed_at(entries, key, k);
            let k = if k0 < i { k0 } else { k0 - 1 };
            assert(rest[k] == entries[k0]);
            assert(keyed_at(rest, key, k));
        }
    }
    assert forall|key: Seq<char>| #[trigger] members_of(rest).contains_key(key) implies members_of(
        rest,
    )[key] == members_of(entries).remove(gone)[key] by {
        let k = choose|k: int| keyed_at(rest, key, k);
        let k0 = if k < i { k } else { k + 1 };
        assert(rest[k] == entries[k0]);
        lemma_member_at(entries, k0);
    }
    assert(members_of(rest) =~= members_of(entries).remove(gone));
}

/// `j` is an object with exactly three members, under the keys and with the
/// values given.
pub open spec fn is_object_of_three(
    j: Json,
    k0: Seq<char>,
    v0: Json,
    k1: Seq<char>,
    v1: Json,
    k2: Seq<char>,
    v2: Json,
) -> bool {
    &&& json_view(j) matches JsonView::Object(members)
    &&& members.dom() =~= set![k0, k1, k2]
    &&& members[k0] == v0
    &&& members[k1] == v1
    &&& members[k2] == v2
}

/// Builds the JSON object that has the three members given.
pub(crate) fn object_of_three(k0: &str, v0: Json, k1: &str, v1: Json, k2: &str, v2: Json) -> (j: Json)
    requires
        k0@ != k1@,
        k0@ != k2@,
        k1@ != k2@,
    ensures
        is_object_of_three(j, k0@, v0, k1@, v1, k2@, v2),
{
    let mut entries: Vec<(String, Json)> = Vec::new();
    entries.push((k0.to_owned(), v0));
    entries.push((k1.to_owned(), v1));
    entries.push((k2.to_owned(), v2));
    proof {
        let es = entries@;
        lemma_member_at(es, 0);
        lemma_member_at(es, 1);
        lemma_member_at(es, 2);
        assert forall|key: Seq<char>| #[trigger]
            members_of(es).contains_key(key) implies key == k0@ || key == k1@ || key == k2@ by {
            let i = choose|i: int| keyed_at(es, key, i);
            assert(keyed_at(es, key, i));
        }
        assert(members_of(es).dom() =~= set![k0@, k1@, k2@]);
    }
    close(Node::Object(entries))
}

} // verus!
