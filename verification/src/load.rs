//! Loading a registry from a JSON document: the schema, stated over the
//! `Json` model, and the verified parser that enforces it.
//!
//! The schema is strict: the document must be an object holding all four of
//! `block`, `state`, `legacy_block` and `legacy_state`, each an array of
//! well-formed entries, and every leaf must have its stated type. Keys other
//! than the required ones are ignored. A document that breaks any of this
//! yields `ParseError` and no registry at all.

use vstd::prelude::*;
use crate::json::{
    classify, json_of_bytes, json_of_value, lookup, members_model, obj_get, parse_value,
    values_model, Json, Member, Node,
};
use crate::registry::{
    block_views, state_views, strings_view, sub_entries_view, BlockTestView, ParseError,
    SkipBlockchainTest, SkipStateTest, SkipTests, SkipTestsView, StateSkipSubStates,
    StateTestView, SubEntryView, SubStatesView,
};

verus! {

/// The character sequences of an array of JSON strings; `None` when any
/// element is not a string.
pub open spec fn texts_of(a: Seq<Json>) -> Option<Seq<Seq<char>>>
    decreases a.len(),
{
    if a.len() == 0 {
        Some(Seq::empty())
    } else {
        match (texts_of(a.drop_last()), a.last()) {
            (Some(ts), Json::Text(s)) => Some(ts.push(s)),
            _ => None,
        }
    }
}

/// A block skip entry: an object whose `reference` and `failing` are strings
/// and whose `subtests` is an array of strings.
pub open spec fn block_entry_of(j: Json) -> Option<BlockTestView> {
    match j {
        Json::Obj(ms) => match (
            obj_get(ms, "reference"@),
            obj_get(ms, "failing"@),
            obj_get(ms, "subtests"@),
        ) {
            (Some(Json::Text(r)), Some(Json::Text(f)), Some(Json::Arr(a))) => match texts_of(a) {
                Some(ts) => Some(BlockTestView { reference: r, failing: f, subtests: ts }),
                _ => None,
            },
            _ => None,
        },
        _ => None,
    }
}

/// An array of block skip entries; `None` when any element is malformed.
pub open spec fn block_list_of(a: Seq<Json>) -> Option<Seq<BlockTestView>>
    decreases a.len(),
{
    if a.len() == 0 {
        Some(Seq::empty())
    } else {
        match (block_list_of(a.drop_last()), block_entry_of(a.last())) {
            (Some(es), Some(e)) => Some(es.push(e)),
            _ => None,
        }
    }
}

/// The skipped instances of one state test: an object whose `subnumbers` is
/// an array of strings and whose `chain` is a string.
pub open spec fn sub_states_of(j: Json) -> Option<SubStatesView> {
    match j {
        Json::Obj(ms) => match (obj_get(ms, "subnumbers"@), obj_get(ms, "chain"@)) {
            (Some(Json::Arr(a)), Some(Json::Text(c))) => match texts_of(a) {
                Some(ns) => Some(SubStatesView { subnumbers: ns, chain: c }),
                _ => None,
            },
            _ => None,
        },
        _ => None,
    }
}

/// The subtest map of a state entry: every value must be a well-formed
/// sub-states record.
pub open spec fn sub_entries_of(ms: Seq<Member>) -> Option<Seq<SubEntryView>>
    decreases ms.len(),
{
    if ms.len() == 0 {
        Some(Seq::empty())
    } else {
        match (sub_entries_of(ms.drop_last()), sub_states_of(ms.last().val)) {
            (Some(es), Some(s)) => Some(
                es.push(SubEntryView { name: ms.last().key, states: s }),
            ),
            _ => None,
        }
    }
}

/// A state skip entry: an object whose `reference` and `failing` are strings
/// and whose `subtests` is an object of sub-states records.
pub open spec fn state_entry_of(j: Json) -> Option<StateTestView> {
    match j {
        Json::Obj(ms) => match (
            obj_get(ms, "reference"@),
            obj_get(ms, "failing"@),
            obj_get(ms, "subtests"@),
        ) {
            (Some(Json::Text(r)), Some(Json::Text(f)), Some(Json::Obj(sub))) => match sub_entries_of(
                sub,
            ) {
                Some(es) => Some(StateTestView { reference: r, failing: f, subtests: es }),
                _ => None,
            },
            _ => None,
        },
        _ => None,
    }
}

/// An array of state skip entries; `None` when any element is malformed.
pub open spec fn state_list_of(a: Seq<Json>) -> Option<Seq<StateTestView>>
    decreases a.len(),
{
    if a.len() == 0 {
        Some(Seq::empty())
    } else {
        match (state_list_of(a.drop_last()), state_entry_of(a.last())) {
            (Some(es), Some(e)) => Some(es.push(e)),
            _ => None,
        }
    }
}

/// The whole document: an object holding all four required keys, each an
/// array of well-formed entries.
pub open spec fn registry_of(doc: Json) -> Option<SkipTestsView> {
    match doc {
        Json::Obj(ms) => match (
            obj_get(ms, "block"@),
            obj_get(ms, "state"@),
            obj_get(ms, "legacy_block"@),
            obj_get(ms, "legacy_state"@),
        ) {
            (
                Some(Json::Arr(b)),
                Some(Json::Arr(s)),
                Some(Json::Arr(lb)),
                Some(Json::Arr(ls)),
            ) => match (block_list_of(b), state_list_of(s), block_list_of(lb), state_list_of(ls)) {
                (Some(bv), Some(sv), Some(lbv), Some(lsv)) => Some(
                    SkipTestsView { block: bv, state: sv, legacy_block: lbv, legacy_state: lsv },
                ),
                _ => None,
            },
            _ => None,
        },
        _ => None,
    }
}

/// What loading `bytes` yields: `None` exactly when the bytes are not
/// well-formed JSON, or the document does not have the schema's shape.
pub open spec fn spec_load(bytes: Seq<u8>) -> Option<SkipTestsView> {
    match json_of_bytes(bytes) {
        Some(doc) => registry_of(doc),
        None => None,
    }
}

/// A well-formed array of strings stays well-formed on every prefix.
proof fn lemma_texts_of_take(a: Seq<Json>, k: int)
    requires
        0 <= k <= a.len(),
        texts_of(a) is Some,
    ensures
        texts_of(a.take(k)) is Some,
    decreases a.len(),
{
    if k == a.len() {
        assert(a.take(k) =~= a);
    } else {
        assert(a.drop_last().take(k) =~= a.take(k));
        lemma_texts_of_take(a.drop_last(), k);
    }
}

/// A well-formed array of block entries stays well-formed on every prefix.
proof fn lemma_block_list_of_take(a: Seq<Json>, k: int)
    requires
        0 <= k <= a.len(),
        block_list_of(a) is Some,
    ensures
        block_list_of(a.take(k)) is Some,
    decreases a.len(),
{
    if k == a.len() {
        assert(a.take(k) =~= a);
    } else {
        assert(a.drop_last().take(k) =~= a.take(k));
        lemma_block_list_of_take(a.drop_last(), k);
    }
}

/// A well-formed array of state entries stays well-formed on every prefix.
proof fn lemma_state_list_of_take(a: Seq<Json>, k: int)
    requires
        0 <= k <= a.len(),
        state_list_of(a) is Some,
    ensures
        state_list_of(a.take(k)) is Some,
    decreases a.len(),
{
    if k == a.len() {
        assert(a.take(k) =~= a);
    } else {
        assert(a.drop_last().take(k) =~= a.take(k));
        lemma_state_list_of_take(a.drop_last(), k);
    }
}

/// A well-formed subtest map stays well-formed on every prefix.
proof fn lemma_sub_entries_of_take(ms: Seq<Member>, k: int)
    requires
        0 <= k <= ms.len(),
        sub_entries_of(ms) is Some,
    ensures
        sub_entries_of(ms.take(k)) is Some,
    decreases ms.len(),
{
    if k == ms.len() {
        assert(ms.take(k) =~= ms);
    } else {
        assert(ms.drop_last().take(k) =~= ms.take(k));
        lemma_sub_entries_of_take(ms.drop_last(), k);
    }
}

/// Requires the node to be a JSON string and takes its characters.
fn take_text(v: &serde_json::Value) -> (r: Result<String, ParseError>)
    ensures
        match r {
            Ok(s) => json_of_value(*v) == Json::Text(s@),
            Err(_) => !(json_of_value(*v) is Text),
        },
{
    match classify(v) {
        Node::Text(s) => Ok(s),
        _ => Err(ParseError),
    }
}

/// Requires the node to be an array of JSON strings and takes them.
fn take_texts(v: &serde_json::Value) -> (r: Result<Vec<String>, ParseError>)
    ensures
        match r {
            Ok(out) => json_of_value(*v) matches Json::Arr(a) && texts_of(a) == Some(
                strings_view(out@),
            ),
            Err(_) => json_of_value(*v) matches Json::Arr(a) ==> texts_of(a) is None,
        },
{
    let a = match classify(v) {
        Node::Arr(a) => a,
        _ => { return Err(ParseError) },
    };
    let ghost js = values_model(a@);
    let mut out: Vec<String> = Vec::new();
    let n = a.len();
    proof {
        assert(js.take(0) =~= Seq::<Json>::empty());
        assert(strings_view(out@) =~= Seq::<Seq<char>>::empty());
    }
    for i in 0..n
        invariant
            n == a.len(),
            js == values_model(a@),
            json_of_value(*v) == Json::Arr(js),
            texts_of(js.take(i as int)) == Some(strings_view(out@)),
    {
        let s = match classify(&a[i]) {
            Node::Text(s) => s,
            _ => {
                proof {
                    assert(js.take(i + 1).drop_last() =~= js.take(i as int));
                    assert(js.take(i + 1).last() == js[i as int]);
                    assert(texts_of(js.take(i + 1)) is None);
                    if texts_of(js) is Some {
                        lemma_texts_of_take(js, i + 1);
                    }
                }
                return Err(ParseError);
            },
        };
        let ghost out0 = out@;
        out.push(s);
        proof {
            assert(js.take(i + 1).drop_last() =~= js.take(i as int));
            assert(js.take(i + 1).last() == js[i as int]);
            assert(strings_view(out@) =~= strings_view(out0).push(s@));
        }
    }
    proof {
        assert(js.take(n as int) =~= js);
    }
    Ok(out)
}

/// Parses one block skip entry.
fn parse_block_entry(v: &serde_json::Value) -> (r: Result<SkipBlockchainTest, ParseError>)
    ensures
        match r {
            Ok(e) => block_entry_of(json_of_value(*v)) == Some(e@),
            Err(_) => block_entry_of(json_of_value(*v)) is None,
        },
{
    let o = match classify(v) {
        Node::Obj(o) => o,
        _ => { return Err(ParseError) },
    };
    let reference = match lookup(&o, "reference") {
        Some(x) => match take_text(x) {
            Ok(s) => s,
            Err(e) => { return Err(e) },
        },
        None => { return Err(ParseError) },
    };
    let failing = match lookup(&o, "failing") {
        Some(x) => match take_text(x) {
            Ok(s) => s,
            Err(e) => { return Err(e) },
        },
        None => { return Err(ParseError) },
    };
    let subtests = match lookup(&o, "subtests") {
        Some(x) => match take_texts(x) {
            Ok(ts) => ts,
            Err(e) => { return Err(e) },
        },
        None => { return Err(ParseError) },
    };
    Ok(SkipBlockchainTest { reference, failing, subtests })
}

/// Parses one sub-states record of a state entry's subtest map.
fn parse_sub_states(v: &serde_json::Value) -> (r: Result<StateSkipSubStates, ParseError>)
    ensures
        match r {
            Ok(s) => sub_states_of(json_of_value(*v)) == Some(s@),
            Err(_) => sub_states_of(json_of_value(*v)) is None,
        },
{
    let o = match classify(v) {
        Node::Obj(o) => o,
        _ => { return Err(ParseError) },
    };
    let subnumbers = match lookup(&o, "subnumbers") {
        Some(x) => match take_texts(x) {
            Ok(ns) => ns,
            Err(e) => { return Err(e) },
        },
        None => { return Err(ParseError) },
    };
    let chain = match lookup(&o, "chain") {
        Some(x) => match take_text(x) {
            Ok(c) => c,
            Err(e) => { return Err(e) },
        },
        None => { return Err(ParseError) },
    };
    Ok(StateSkipSubStates { subnumbers, chain })
}

/// Parses the subtest map of a state entry, keeping the bindings in the
/// order the parsed object hands them out.
fn parse_sub_entries(
    sub: &Vec<(String, serde_json::Value)>,
) -> (r: Result<Vec<(String, StateSkipSubStates)>, ParseError>)
    ensures
        match r {
            Ok(out) => sub_entries_of(members_model(sub@)) == Some(sub_entries_view(out@)),
            Err(_) => sub_entries_of(members_model(sub@)) is None,
        },
{
    let ghost ms = members_model(sub@);
    let mut out: Vec<(String, StateSkipSubStates)> = Vec::new();
    let n = sub.len();
    proof {
        assert(ms.take(0) =~= Seq::<Member>::empty());
        assert(sub_entries_view(out@) =~= Seq::<SubEntryView>::empty());
    }
    for i in 0..n
        invariant
            n == sub.len(),
            ms == members_model(sub@),
            sub_entries_of(ms.take(i as int)) == Some(sub_entries_view(out@)),
    {
        let states = match parse_sub_states(&sub[i].1) {
            Ok(st) => st,
            Err(e) => {
                proof {
                    assert(ms.take(i + 1).drop_last() =~= ms.take(i as int));
                    assert(ms.take(i + 1).last() == ms[i as int]);
                    assert(sub_entries_of(ms.take(i + 1)) is None);
                    if sub_entries_of(ms) is Some {
                        lemma_sub_entries_of_take(ms, i + 1);
                    }
                }
                return Err(e);
            },
        };
        let name = sub[i].0.clone();
        let ghost out0 = out@;
        out.push((name, states));
        proof {
            assert(ms.take(i + 1).drop_last() =~= ms.take(i as int));
            assert(ms.take(i + 1).last() == ms[i as int]);
            assert(sub_entries_view(out@) =~= sub_entries_view(out0).push(
                SubEntryView { name: ms[i as int].key, states: states@ },
            ));
        }
    }
    proof {
        assert(ms.take(n as int) =~= ms);
    }
    Ok(out)
}

/// Parses one state skip entry.
fn parse_state_entry(v: &serde_json::Value) -> (r: Result<SkipStateTest, ParseError>)
    ensures
        match r {
            Ok(e) => state_entry_of(json_of_value(*v)) == Some(e@),
            Err(_) => state_entry_of(json_of_value(*v)) is None,
        },
{
    let o = match classify(v) {
        Node::Obj(o) => o,
        _ => { return Err(ParseError) },
    };
    let reference = match lookup(&o, "reference") {
        Some(x) => match take_text(x) {
            Ok(s) => s,
            Err(e) => { return Err(e) },
        },
        None => { return Err(ParseError) },
    };
    let failing = match lookup(&o, "failing") {
        Some(x) => match take_text(x) {
            Ok(s) => s,
            Err(e) => { return Err(e) },
        },
        None => { return Err(ParseError) },
    };
    let subtests = match lookup(&o, "subtests") {
        Some(x) => match classify(x) {
            Node::Obj(sub) => match parse_sub_entries(&sub) {
                Ok(ts) => ts,
                Err(e) => { return Err(e) },
            },
            _ => { return Err(ParseError) },
        },
        None => { return Err(ParseError) },
    };
    Ok(SkipStateTest { reference, failing, subtests })
}

/// Parses an array of block skip entries.
fn parse_block_list(items: &Vec<serde_json::Value>) -> (r: Result<
    Vec<SkipBlockchainTest>,
    ParseError,
>)
    ensures
        match r {
            Ok(out) => block_list_of(values_model(items@)) == Some(block_views(out@)),
            Err(_) => block_list_of(values_model(items@)) is None,
        },
{
    let ghost js = values_model(items@);
    let mut out: Vec<SkipBlockchainTest> = Vec::new();
    let n = items.len();
    proof {
        assert(js.take(0) =~= Seq::<Json>::empty());
        assert(block_views(out@) =~= Seq::<BlockTestView>::empty());
    }
    for i in 0..n
        invariant
            n == items.len(),
            js == values_model(items@),
            block_list_of(js.take(i as int)) == Some(block_views(out@)),
    {
        let e = match parse_block_entry(&items[i]) {
            Ok(e) => e,
            Err(e) => {
                proof {
                    assert(js.take(i + 1).drop_last() =~= js.take(i as int));
                    assert(js.take(i + 1).last() == js[i as int]);
                    assert(block_list_of(js.take(i + 1)) is None);
                    if block_list_of(js) is Some {
                        lemma_block_list_of_take(js, i + 1);
                    }
                }
                return Err(e);
            },
        };
        let ghost out0 = out@;
        let ghost ev = e@;
        out.push(e);
        proof {
            assert(js.take(i + 1).drop_last() =~= js.take(i as int));
            assert(js.take(i + 1).last() == js[i as int]);
            assert(block_views(out@) =~= block_views(out0).push(ev));
        }
    }
    proof {
        assert(js.take(n as int) =~= js);
    }
    Ok(out)
}

/// Parses an array of state skip entries.
fn parse_state_list(items: &Vec<serde_json::Value>) -> (r: Result<Vec<SkipStateTest>, ParseError>)
    ensures
        match r {
            Ok(out) => state_list_of(values_model(items@)) == Some(state_views(out@)),
            Err(_) => state_list_of(values_model(items@)) is None,
        },
{
    let ghost js = values_model(items@);
    let mut out: Vec<SkipStateTest> = Vec::new();
    let n = items.len();
    proof {
        assert(js.take(0) =~= Seq::<Json>::empty());
        assert(state_views(out@) =~= Seq::<StateTestView>::empty());
    }
    for i in 0..n
        invariant
            n == items.len(),
            js == values_model(items@),
            state_list_of(js.take(i as int)) == Some(state_views(out@)),
    {
        let e = match parse_state_entry(&items[i]) {
            Ok(e) => e,
            Err(e) => {
                proof {
                    assert(js.take(i + 1).drop_last() =~= js.take(i as int));
                    assert(js.take(i + 1).last() == js[i as int]);
                    assert(state_list_of(js.take(i + 1)) is None);
                    if state_list_of(js) is Some {
                        lemma_state_list_of_take(js, i + 1);
                    }
                }
                return Err(e);
            },
        };
        let ghost out0 = out@;
        let ghost ev = e@;
        out.push(e);
        proof {
            assert(js.take(i + 1).drop_last() =~= js.take(i as int));
            assert(js.take(i + 1).last() == js[i as int]);
            assert(state_views(out@) =~= state_views(out0).push(ev));
        }
    }
    proof {
        assert(js.take(n as int) =~= js);
    }
    Ok(out)
}

impl SkipTests {
    /// Loads a registry from the bytes of a JSON skip document.
    ///
    /// Succeeds exactly when the bytes are well-formed JSON of the schema's
    /// shape, and then returns the registry the document describes; on any
    /// malformed input it returns `ParseError` and no partial registry.
    pub fn load(bytes: &[u8]) -> (r: Result<SkipTests, ParseError>)
        ensures
            match r {
                Ok(t) => spec_load(bytes@) == Some(t@),
                Err(_) => spec_load(bytes@) is None,
            },
    {
        let doc = match parse_value(bytes) {
            Some(d) => d,
            None => { return Err(ParseError) },
        };
        let o = match classify(&doc) {
            Node::Obj(o) => o,
            _ => { return Err(ParseError) },
        };
        let block_items = match lookup(&o, "block") {
            Some(x) => match classify(x) {
                Node::Arr(a) => a,
                _ => { return Err(ParseError) },
            },
            None => { return Err(ParseError) },
        };
        let state_items = match lookup(&o, "state") {
            Some(x) => match classify(x) {
                Node::Arr(a) => a,
                _ => { return Err(ParseError) },
            },
            None => { return Err(ParseError) },
        };
        let legacy_block_items = match lookup(&o, "legacy_block") {
            Some(x) => match classify(x) {
                Node::Arr(a) => a,
                _ => { return Err(ParseError) },
            },
            None => { return Err(ParseError) },
        };
        let legacy_state_items = match lookup(&o, "legacy_state") {
            Some(x) => match classify(x) {
                Node::Arr(a) => a,
                _ => { return Err(ParseError) },
            },
            None => { return Err(ParseError) },
        };
        let block = match parse_block_list(&block_items) {
            Ok(b) => b,
            Err(e) => { return Err(e) },
        };
        let state = match parse_state_list(&state_items) {
            Ok(s) => s,
            Err(e) => { return Err(e) },
        };
        let legacy_block = match parse_block_list(&legacy_block_items) {
            Ok(b) => b,
            Err(e) => { return Err(e) },
        };
        let legacy_state = match parse_state_list(&legacy_state_items) {
            Ok(s) => s,
            Err(e) => { return Err(e) },
        };
        Ok(SkipTests { block, state, legacy_block, legacy_state })
    }
}

} // verus!
