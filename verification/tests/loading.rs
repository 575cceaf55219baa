//! Loading behaviour: which documents are accepted, which are rejected with
//! `ParseError`, and that nothing partial ever comes back.

use skip_registry::{ParseError, SkipTests};

#[test]
fn all_empty_collections_load() {
    let t = SkipTests::load(
        br#"{"block":[],"state":[],"legacy_block":[],"legacy_state":[]}"#,
    )
    .expect("document should load");
    assert_eq!(t, SkipTests::empty());
    assert!(!t.should_skip_block("fA", "t1"));
    assert!(!t.should_skip_state("fS", "tS", "0", "c"));
}

#[test]
fn syntactically_invalid_bytes_fail() {
    assert_eq!(SkipTests::load(b"not json at all"), Err(ParseError));
    assert_eq!(SkipTests::load(b"{\"block\": ["), Err(ParseError));
    assert_eq!(SkipTests::load(b""), Err(ParseError));
}

#[test]
fn missing_legacy_state_key_fails() {
    assert_eq!(
        SkipTests::load(br#"{"block":[],"state":[],"legacy_block":[]}"#),
        Err(ParseError),
    );
}

#[test]
fn each_missing_top_level_key_fails() {
    assert_eq!(
        SkipTests::load(br#"{"state":[],"legacy_block":[],"legacy_state":[]}"#),
        Err(ParseError),
    );
    assert_eq!(
        SkipTests::load(br#"{"block":[],"legacy_block":[],"legacy_state":[]}"#),
        Err(ParseError),
    );
    assert_eq!(
        SkipTests::load(br#"{"block":[],"state":[],"legacy_state":[]}"#),
        Err(ParseError),
    );
}

#[test]
fn root_must_be_an_object() {
    assert_eq!(SkipTests::load(b"[]"), Err(ParseError));
    assert_eq!(SkipTests::load(b"\"block\""), Err(ParseError));
    assert_eq!(SkipTests::load(b"3"), Err(ParseError));
    assert_eq!(SkipTests::load(b"null"), Err(ParseError));
}

#[test]
fn collections_must_be_arrays() {
    assert_eq!(
        SkipTests::load(br#"{"block":{},"state":[],"legacy_block":[],"legacy_state":[]}"#),
        Err(ParseError),
    );
    assert_eq!(
        SkipTests::load(br#"{"block":[],"state":"x","legacy_block":[],"legacy_state":[]}"#),
        Err(ParseError),
    );
}

#[test]
fn block_entry_fields_are_checked() {
    // entry not an object
    assert_eq!(
        SkipTests::load(br#"{"block":["x"],"state":[],"legacy_block":[],"legacy_state":[]}"#),
        Err(ParseError),
    );
    // missing failing
    assert_eq!(
        SkipTests::load(
            br#"{"block":[{"reference":"r","subtests":[]}],"state":[],"legacy_block":[],"legacy_state":[]}"#,
        ),
        Err(ParseError),
    );
    // subtests not an array
    assert_eq!(
        SkipTests::load(
            br#"{"block":[{"reference":"r","failing":"f","subtests":"t1"}],"state":[],"legacy_block":[],"legacy_state":[]}"#,
        ),
        Err(ParseError),
    );
    // subtest name not a string
    assert_eq!(
        SkipTests::load(
            br#"{"block":[{"reference":"r","failing":"f","subtests":[1]}],"state":[],"legacy_block":[],"legacy_state":[]}"#,
        ),
        Err(ParseError),
    );
    // reference must be a string, not null
    assert_eq!(
        SkipTests::load(
            br#"{"block":[{"reference":null,"failing":"f","subtests":[]}],"state":[],"legacy_block":[],"legacy_state":[]}"#,
        ),
        Err(ParseError),
    );
}

#[test]
fn state_entry_fields_are_checked() {
    // subtests must be an object, not an array
    assert_eq!(
        SkipTests::load(
            br#"{"block":[],"state":[{"reference":"r","failing":"f","subtests":["t"]}],"legacy_block":[],"legacy_state":[]}"#,
        ),
        Err(ParseError),
    );
    // subnumbers must be an array of strings
    assert_eq!(
        SkipTests::load(
            br#"{"block":[],"state":[{"reference":"r","failing":"f","subtests":{"t":{"subnumbers":"*","chain":"c"}}}],"legacy_block":[],"legacy_state":[]}"#,
        ),
        Err(ParseError),
    );
    assert_eq!(
        SkipTests::load(
            br#"{"block":[],"state":[{"reference":"r","failing":"f","subtests":{"t":{"subnumbers":[2],"chain":"c"}}}],"legacy_block":[],"legacy_state":[]}"#,
        ),
        Err(ParseError),
    );
    // chain missing
    assert_eq!(
        SkipTests::load(
            br#"{"block":[],"state":[{"reference":"r","failing":"f","subtests":{"t":{"subnumbers":["*"]}}}],"legacy_block":[],"legacy_state":[]}"#,
        ),
        Err(ParseError),
    );
}

#[test]
fn one_bad_entry_rejects_the_whole_document() {
    let t = SkipTests::load(
        br#"{"block":[{"reference":"r","failing":"f","subtests":["t"]},{"reference":"r2"}],"state":[],"legacy_block":[],"legacy_state":[]}"#,
    );
    assert_eq!(t, Err(ParseError));
}

#[test]
fn unknown_keys_are_ignored() {
    let t = SkipTests::load(
        br#"{"block":[{"reference":"r","failing":"fA","subtests":["t1"],"note":"extra"}],"state":[],"legacy_block":[],"legacy_state":[],"comment":"extra too"}"#,
    )
    .expect("extra keys do not break the shape");
    assert!(t.should_skip_block("fA", "t1"));
}

#[test]
fn loaded_fields_hold_the_document_values() {
    let t = SkipTests::load(
        br#"{"block":[{"reference":"issue-7","failing":"fA","subtests":["t1","t2"]}],"state":[{"reference":"issue-9","failing":"fS","subtests":{"tS":{"subnumbers":["4"],"chain":"main"}}}],"legacy_block":[],"legacy_state":[]}"#,
    )
    .expect("document should load");
    assert_eq!(t.block.len(), 1);
    assert_eq!(t.block[0].reference, "issue-7");
    assert_eq!(t.block[0].failing, "fA");
    assert_eq!(t.block[0].subtests, vec!["t1".to_owned(), "t2".to_owned()]);
    assert_eq!(t.state.len(), 1);
    assert_eq!(t.state[0].reference, "issue-9");
    assert_eq!(t.state[0].subtests.len(), 1);
    assert_eq!(t.state[0].subtests[0].0, "tS");
    assert_eq!(t.state[0].subtests[0].1.subnumbers, vec!["4".to_owned()]);
    assert_eq!(t.state[0].subtests[0].1.chain, "main");
    assert!(t.legacy_block.is_empty());
    assert!(t.legacy_state.is_empty());
}
