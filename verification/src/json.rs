//! A mathematical model of JSON documents, and the trusted boundary around
//! `serde_json` that produces values of it.
//!
//! The library never states what the JSON grammar is: whether a byte string
//! parses, and to which tree, is named by `json_of_bytes`, and the content of
//! a parsed `serde_json::Value` node is named by `json_of_value`. Everything
//! the skip schema requires of a parsed tree is then verified code over the
//! `Json` model.

use vstd::prelude::*;
use crate::registry::str_eq;

verus! {

/// Model of a JSON tree, at the level of detail the skip schema needs:
/// numbers carry no payload, because no field of the schema is numeric — a
/// number anywhere in a typed position is a shape error either way.
#[verifier::ext_equal]
pub enum Json {
    Null,
    Bool(bool),
    Num,
    Text(Seq<char>),
    Arr(Seq<Json>),
    Obj(Seq<Member>),
}

/// One member of a JSON object: a key and the value bound to it.
#[verifier::ext_equal]
pub struct Member {
    pub key: Seq<char>,
    pub val: Json,
}

#[verifier::external_type_specification]
#[verifier::external_body]
pub struct ExValue(serde_json::Value);

/// The JSON tree held by a parsed `serde_json::Value`. A `Value` is built by
/// parsing alone and never mutated here, so its content is a function of the
/// value itself.
pub uninterp spec fn json_of_value(v: serde_json::Value) -> Json;

/// What parsing a byte string as one JSON document yields: `None` when the
/// bytes are not well-formed JSON, otherwise the parsed tree.
pub uninterp spec fn json_of_bytes(bytes: Seq<u8>) -> Option<Json>;

/// The models of a sequence of parsed JSON nodes.
pub open spec fn values_model(a: Seq<serde_json::Value>) -> Seq<Json> {
    Seq::new(a.len(), |i: int| json_of_value(a[i]))
}

/// The models of a sequence of object members.
pub open spec fn members_model(o: Seq<(String, serde_json::Value)>) -> Seq<Member> {
    Seq::new(o.len(), |i: int| Member { key: o[i].0@, val: json_of_value(o[i].1) })
}

/// One level of a parsed JSON node, with the children still opaque.
pub enum Node {
    Null,
    Bool(bool),
    Num,
    Text(String),
    Arr(Vec<serde_json::Value>),
    Obj(Vec<(String, serde_json::Value)>),
}

/// `n` describes the top level of `v`: the same variant, with the same
/// contents.
pub open spec fn classified(v: serde_json::Value, n: Node) -> bool {
    match n {
        Node::Null => json_of_value(v) == Json::Null,
        Node::Bool(b) => json_of_value(v) == Json::Bool(b),
        Node::Num => json_of_value(v) == Json::Num,
        Node::Text(s) => json_of_value(v) == Json::Text(s@),
        Node::Arr(a) => json_of_value(v) == Json::Arr(values_model(a@)),
        Node::Obj(o) => json_of_value(v) == Json::Obj(members_model(o@)),
    }
}

/// Relies on `serde_json::from_slice::<Value>`: whether a byte slice parses
/// as JSON, and the tree it parses to, depend on the bytes alone.
#[verifier::external_body]
pub(crate) fn parse_value(bytes: &[u8]) -> (r: Option<serde_json::Value>)
    ensures
        r is Some <==> json_of_bytes(bytes@) is Some,
        r is Some ==> Some(json_of_value(r->0)) == json_of_bytes(bytes@),
{
    serde_json::from_slice::<serde_json::Value>(bytes).ok()
}

/// Relies on the public shape of `serde_json::Value`: a parsed node is
/// exactly one of null, boolean, number, string, array or object, and an
/// object's `Map` hands out its members with their keys and values unchanged.
#[verifier::external_body]
pub(crate) fn classify(v: &serde_json::Value) -> (n: Node)
    ensures
        classified(*v, n),
{
    match v {
        serde_json::Value::Null => Node::Null,
        serde_json::Value::Bool(b) => Node::Bool(*b),
        serde_json::Value::Number(_) => Node::Num,
        serde_json::Value::String(s) => Node::Text(s.clone()),
        serde_json::Value::Array(a) => Node::Arr(a.clone()),
        serde_json::Value::Object(m) => Node::Obj(
            m.iter().map(|(k, x)| (k.clone(), x.clone())).collect(),
        ),
    }
}

/// The value bound to the first member of `ms` whose key is `key`, if any.
/// JSON objects handed out by the parser bind each key once, so first-match
/// lookup is plain map lookup.
pub open spec fn obj_get(ms: Seq<Member>, key: Seq<char>) -> Option<Json>
    decreases ms.len(),
{
    if ms.len() == 0 {
        None
    } else if ms[0].key == key {
        Some(ms[0].val)
    } else {
        obj_get(ms.drop_first(), key)
    }
}

/// Scanning past a member whose key differs leaves the lookup unchanged.
proof fn lemma_obj_get_step(ms: Seq<Member>, key: Seq<char>, i: int)
    requires
        0 <= i < ms.len(),
        ms[i].key != key,
    ensures
        obj_get(ms.skip(i), key) == obj_get(ms.skip(i + 1), key),
{
    assert(ms.skip(i)[0] == ms[i]);
    assert(ms.skip(i).drop_first() =~= ms.skip(i + 1));
}

/// Finds the member of `o` named `key` and returns its value.
pub(crate) fn lookup<'a>(
    o: &'a Vec<(String, serde_json::Value)>,
    key: &str,
) -> (r: Option<&'a serde_json::Value>)
    ensures
        match r {
            Some(v) => obj_get(members_model(o@), key@) == Some(json_of_value(*v)),
            None => obj_get(members_model(o@), key@) is None,
        },
{
    let ghost ms = members_model(o@);
    proof {
        assert(ms.skip(0) =~= ms);
    }
    let n = o.len();
    for i in 0..n
        invariant
            n == o.len(),
            ms == members_model(o@),
            obj_get(ms, key@) == obj_get(ms.skip(i as int), key@),
    {
        if str_eq(o[i].0.as_str(), key) {
            proof {
                assert(ms.skip(i as int)[0] == ms[i as int]);
            }
            return Some(&o[i].1);
        }
        proof {
            lemma_obj_get_step(ms, key@, i as int);
        }
    }
    proof {
        assert(ms.skip(n as int) =~= Seq::<Member>::empty());
    }
    None
}

} // verus!
