//! Laws of the registry, stated and proved once over the mathematical model:
//! what holds of every registry, not just of the ones a test happens to
//! build.

use vstd::prelude::*;
use crate::load::spec_load;
use crate::registry::{
    block_entry_matches, block_seq_matches, spec_skip_block, spec_skip_state,
    state_entry_matches, sub_entry_covers, SkipTestsView,
};

verus! {

/// An empty registry skips nothing: both lookups are false for every query.
pub proof fn lemma_empty_skips_nothing(
    t: SkipTestsView,
    failing: Seq<char>,
    subtest: Seq<char>,
    name: Seq<char>,
    subnumber: Seq<char>,
    chain: Seq<char>,
)
    requires
        t.is_empty(),
    ensures
        !spec_skip_block(t, failing, subtest),
        !spec_skip_state(t, failing, name, subnumber, chain),
{
}

/// Round trip, positive half: in a registry loaded from a document, any
/// `(failing, subtest)` pair listed by one of its block entries is skipped.
pub proof fn lemma_loaded_block_pair_skips(
    bytes: Seq<u8>,
    t: SkipTestsView,
    i: int,
    subtest: Seq<char>,
)
    requires
        spec_load(bytes) == Some(t),
        0 <= i < t.block.len(),
        t.block[i].subtests.contains(subtest),
    ensures
        spec_skip_block(t, t.block[i].failing, subtest),
{
    assert(block_entry_matches(t.block[i], t.block[i].failing, subtest));
}

/// Round trip, negative half: when no entry of either block collection lists
/// the pair, the lookup is false.
pub proof fn lemma_absent_block_pair_not_skipped(
    t: SkipTestsView,
    failing: Seq<char>,
    subtest: Seq<char>,
)
    requires
        forall|i: int|
            0 <= i < t.block.len() ==> !block_entry_matches(t.block[i], failing, subtest),
        forall|i: int|
            0 <= i < t.legacy_block.len() ==> !block_entry_matches(
                t.legacy_block[i],
                failing,
                subtest,
            ),
    ensures
        !spec_skip_block(t, failing, subtest),
{
}

/// The wildcard law: a state entry whose sub-states record lists `"*"` under
/// a test name skips every instance of that test, whatever subnumber and
/// chain are queried.
pub proof fn lemma_wildcard_skips_every_subnumber(
    t: SkipTestsView,
    i: int,
    j: int,
    subnumber: Seq<char>,
    chain: Seq<char>,
)
    requires
        0 <= i < t.state.len(),
        0 <= j < t.state[i].subtests.len(),
        t.state[i].subtests[j].states.subnumbers.contains("*"@),
    ensures
        spec_skip_state(t, t.state[i].failing, t.state[i].subtests[j].name, subnumber, chain),
{
    assert(sub_entry_covers(t.state[i].subtests[j], t.state[i].subtests[j].name, subnumber));
    assert(state_entry_matches(
        t.state[i],
        t.state[i].failing,
        t.state[i].subtests[j].name,
        subnumber,
    ));
}

/// Chain non-interference: changing only the queried chain never changes a
/// state lookup.
pub proof fn lemma_chain_never_decides(
    t: SkipTestsView,
    failing: Seq<char>,
    name: Seq<char>,
    subnumber: Seq<char>,
    chain_a: Seq<char>,
    chain_b: Seq<char>,
)
    ensures
        spec_skip_state(t, failing, name, subnumber, chain_a) == spec_skip_state(
            t,
            failing,
            name,
            subnumber,
            chain_b,
        ),
{
}

/// Namespace isolation: a pair listed only in the legacy block collection
/// matches nothing when the current collection is searched alone, yet the
/// combined lookup still skips it — either namespace matching suffices.
pub proof fn lemma_legacy_block_entry_still_matches(
    t: SkipTestsView,
    i: int,
    failing: Seq<char>,
    subtest: Seq<char>,
)
    requires
        !block_seq_matches(t.block, failing, subtest),
        0 <= i < t.legacy_block.len(),
        t.legacy_block[i].failing == failing,
        t.legacy_block[i].subtests.contains(subtest),
    ensures
        spec_skip_block(t, failing, subtest),
{
    assert(block_entry_matches(t.legacy_block[i], failing, subtest));
}

} // verus!
