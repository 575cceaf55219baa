//! Lookup behaviour of registries: block and state matching, the wildcard,
//! chain non-interference, and the legacy namespace.

use skip_registry::{SkipBlockchainTest, SkipStateTest, SkipTests, StateSkipSubStates};

fn registry_from(doc: &str) -> SkipTests {
    SkipTests::load(doc.as_bytes()).expect("document should load")
}

#[test]
fn empty_registry_skips_nothing() {
    let t = SkipTests::empty();
    assert!(!t.should_skip_block("fA", "t1"));
    assert!(!t.should_skip_block("", ""));
    assert!(!t.should_skip_state("fS", "tS", "0", "c1"));
    assert!(!t.should_skip_state("", "", "*", ""));
}

#[test]
fn block_round_trip_present_and_absent() {
    let t = registry_from(
        r#"{"block":[{"reference":"r1","failing":"fA","subtests":["t1"]}],"state":[],"legacy_block":[],"legacy_state":[]}"#,
    );
    assert!(t.should_skip_block("fA", "t1"));
    assert!(!t.should_skip_block("fA", "t2"));
    assert!(!t.should_skip_block("fB", "t1"));
}

#[test]
fn block_entry_with_empty_subtests_never_skips() {
    let t = registry_from(
        r#"{"block":[{"reference":"r1","failing":"fA","subtests":[]}],"state":[],"legacy_block":[],"legacy_state":[]}"#,
    );
    assert!(!t.should_skip_block("fA", "t1"));
    assert!(!t.should_skip_block("fA", ""));
}

#[test]
fn wildcard_matches_any_subnumber() {
    let t = registry_from(
        r#"{"block":[],"state":[{"reference":"r","failing":"fS","subtests":{"tS":{"subnumbers":["*"],"chain":"c1"}}}],"legacy_block":[],"legacy_state":[]}"#,
    );
    assert!(t.should_skip_state("fS", "tS", "999", "anyChain"));
    assert!(t.should_skip_state("fS", "tS", "0", "c1"));
    assert!(t.should_skip_state("fS", "tS", "notanumber", ""));
    assert!(!t.should_skip_state("fS", "other", "999", "c1"));
    assert!(!t.should_skip_state("other", "tS", "999", "c1"));
}

#[test]
fn specific_subnumber_matches_only_itself() {
    let t = registry_from(
        r#"{"block":[],"state":[{"reference":"r","failing":"fS","subtests":{"tS":{"subnumbers":["3","7"],"chain":"c1"}}}],"legacy_block":[],"legacy_state":[]}"#,
    );
    assert!(t.should_skip_state("fS", "tS", "3", "c1"));
    assert!(t.should_skip_state("fS", "tS", "7", "c1"));
    assert!(!t.should_skip_state("fS", "tS", "4", "c1"));
    assert!(!t.should_skip_state("fS", "tS", "*", "c1"));
}

#[test]
fn chain_query_never_changes_decision() {
    let t = registry_from(
        r#"{"block":[],"state":[{"reference":"r","failing":"fS","subtests":{"tS":{"subnumbers":["3"],"chain":"c1"}}}],"legacy_block":[],"legacy_state":[]}"#,
    );
    assert_eq!(
        t.should_skip_state("fS", "tS", "3", "c1"),
        t.should_skip_state("fS", "tS", "3", "someOtherChain"),
    );
    assert_eq!(
        t.should_skip_state("fS", "tS", "4", "c1"),
        t.should_skip_state("fS", "tS", "4", "someOtherChain"),
    );
    assert!(t.should_skip_state("fS", "tS", "3", ""));
    assert!(!t.should_skip_state("fS", "tS", "4", ""));
}

#[test]
fn legacy_block_matches_via_combined_lookup() {
    let t = registry_from(
        r#"{"block":[],"state":[],"legacy_block":[{"reference":"r1","failing":"fA","subtests":["t1"]}],"legacy_state":[]}"#,
    );
    assert!(t.should_skip_block("fA", "t1"));
    assert!(!t.should_skip_block("fA", "t2"));
}

#[test]
fn legacy_state_matches_via_combined_lookup() {
    let t = registry_from(
        r#"{"block":[],"state":[],"legacy_block":[],"legacy_state":[{"reference":"r","failing":"fS","subtests":{"tS":{"subnumbers":["*"],"chain":"c"}}}]}"#,
    );
    assert!(t.should_skip_state("fS", "tS", "12", "c"));
    assert!(!t.should_skip_state("fS", "tX", "12", "c"));
}

#[test]
fn several_entries_and_names_all_reachable() {
    let t = registry_from(
        r#"{"block":[{"reference":"r1","failing":"fA","subtests":["t1","t2"]},{"reference":"r2","failing":"fB","subtests":["t3"]}],"state":[{"reference":"r3","failing":"fS","subtests":{"tA":{"subnumbers":["1"],"chain":"c"},"tB":{"subnumbers":["*"],"chain":"c"}}}],"legacy_block":[],"legacy_state":[]}"#,
    );
    assert!(t.should_skip_block("fA", "t1"));
    assert!(t.should_skip_block("fA", "t2"));
    assert!(t.should_skip_block("fB", "t3"));
    assert!(!t.should_skip_block("fB", "t1"));
    assert!(t.should_skip_state("fS", "tA", "1", "c"));
    assert!(!t.should_skip_state("fS", "tA", "2", "c"));
    assert!(t.should_skip_state("fS", "tB", "2", "c"));
}

#[test]
fn duplicate_leaf_folder_names_both_match() {
    let t = registry_from(
        r#"{"block":[{"reference":"r1","failing":"fA","subtests":["t1"]},{"reference":"r2","failing":"fA","subtests":["t9"]}],"state":[],"legacy_block":[],"legacy_state":[]}"#,
    );
    assert!(t.should_skip_block("fA", "t1"));
    assert!(t.should_skip_block("fA", "t9"));
    assert!(!t.should_skip_block("fA", "t5"));
}

#[test]
fn constructed_registry_matches_like_loaded_one() {
    let constructed = SkipTests {
        block: vec![SkipBlockchainTest {
            reference: "r1".to_owned(),
            failing: "fA".to_owned(),
            subtests: vec!["t1".to_owned()],
        }],
        state: vec![SkipStateTest {
            reference: "r2".to_owned(),
            failing: "fS".to_owned(),
            subtests: vec![(
                "tS".to_owned(),
                StateSkipSubStates { subnumbers: vec!["*".to_owned()], chain: "c1".to_owned() },
            )],
        }],
        legacy_block: vec![],
        legacy_state: vec![],
    };
    let loaded = registry_from(
        r#"{"block":[{"reference":"r1","failing":"fA","subtests":["t1"]}],"state":[{"reference":"r2","failing":"fS","subtests":{"tS":{"subnumbers":["*"],"chain":"c1"}}}],"legacy_block":[],"legacy_state":[]}"#,
    );
    assert_eq!(loaded, constructed);
    assert!(constructed.should_skip_block("fA", "t1"));
    assert!(constructed.should_skip_state("fS", "tS", "999", "anyChain"));
}
