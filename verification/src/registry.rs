//! The skip registry: its data model, and the two lookup predicates that
//! decide whether a block test or a state test instance is skipped.

use vstd::prelude::*;

verus! {

/// Error returned when a skip document cannot be parsed: either the bytes are
/// not well-formed JSON, or the document does not have the expected shape
/// (a required key is missing, or a field has the wrong type).
#[derive(Debug, Clone, Copy, PartialEq, Eq, Structural)]
pub struct ParseError;

/// A group of block tests to skip: every test of `subtests` inside the leaf
/// folder named by `failing`.
#[derive(Debug, PartialEq)]
pub struct SkipBlockchainTest {
    /// Reference to the issue tracking the failure.
    pub reference: String,
    /// Name of the leaf folder holding the failing tests.
    pub failing: String,
    /// Names of the individual tests to skip inside that folder.
    pub subtests: Vec<String>,
}

/// The skipped instances of one named state test: which subtest indices, and
/// on which chain the failure was observed.
#[derive(Debug, PartialEq)]
pub struct StateSkipSubStates {
    /// Subtest indices to skip, as decimal strings, or the wildcard `"*"`
    /// meaning every index.
    pub subnumbers: Vec<String>,
    /// Chain the failure was recorded on. Informational only: lookups never
    /// compare it.
    pub chain: String,
}

/// A group of state tests to skip: for the leaf folder named by `failing`,
/// the map from test name to the skipped instances of that test.
#[derive(Debug, PartialEq)]
pub struct SkipStateTest {
    /// Reference to the issue tracking the failure.
    pub reference: String,
    /// Name of the leaf folder holding the failing tests.
    pub failing: String,
    /// Test name to skipped instances. Keys are unique: the map is built from
    /// a JSON object, whose later duplicate keys overwrite earlier ones.
    pub subtests: Vec<(String, StateSkipSubStates)>,
}

/// The whole skip registry: block and state entries, each in a current and a
/// legacy namespace. The namespaces are searched independently; a lookup
/// succeeds when either one matches.
#[derive(Debug, PartialEq)]
pub struct SkipTests {
    /// Block tests to skip.
    pub block: Vec<SkipBlockchainTest>,
    /// State tests to skip.
    pub state: Vec<SkipStateTest>,
    /// Legacy block tests to skip.
    pub legacy_block: Vec<SkipBlockchainTest>,
    /// Legacy state tests to skip.
    pub legacy_state: Vec<SkipStateTest>,
}

/// Mathematical model of a block skip entry.
#[verifier::ext_equal]
pub struct BlockTestView {
    pub reference: Seq<char>,
    pub failing: Seq<char>,
    pub subtests: Seq<Seq<char>>,
}

/// Mathematical model of the skipped instances of one state test.
#[verifier::ext_equal]
pub struct SubStatesView {
    pub subnumbers: Seq<Seq<char>>,
    pub chain: Seq<char>,
}

/// One binding of a state entry's subtest map: a test name and the skipped
/// instances recorded under it.
#[verifier::ext_equal]
pub struct SubEntryView {
    pub name: Seq<char>,
    pub states: SubStatesView,
}

/// Mathematical model of a state skip entry.
#[verifier::ext_equal]
pub struct StateTestView {
    pub reference: Seq<char>,
    pub failing: Seq<char>,
    pub subtests: Seq<SubEntryView>,
}

/// Mathematical model of the whole registry.
#[verifier::ext_equal]
pub struct SkipTestsView {
    pub block: Seq<BlockTestView>,
    pub state: Seq<StateTestView>,
    pub legacy_block: Seq<BlockTestView>,
    pub legacy_state: Seq<StateTestView>,
}

/// The views of a sequence of strings.
pub open spec fn strings_view(v: Seq<String>) -> Seq<Seq<char>> {
    Seq::new(v.len(), |i: int| v[i]@)
}

impl View for SkipBlockchainTest {
    type V = BlockTestView;

    open spec fn view(&self) -> BlockTestView {
        BlockTestView {
            reference: self.reference@,
            failing: self.failing@,
            subtests: strings_view(self.subtests@),
        }
    }
}

impl View for StateSkipSubStates {
    type V = SubStatesView;

    open spec fn view(&self) -> SubStatesView {
        SubStatesView { subnumbers: strings_view(self.subnumbers@), chain: self.chain@ }
    }
}

/// The views of a sequence of subtest-map bindings.
pub open spec fn sub_entries_view(v: Seq<(String, StateSkipSubStates)>) -> Seq<SubEntryView> {
    Seq::new(v.len(), |i: int| SubEntryView { name: v[i].0@, states: v[i].1@ })
}

impl View for SkipStateTest {
    type V = StateTestView;

    open spec fn view(&self) -> StateTestView {
        StateTestView {
            reference: self.reference@,
            failing: self.failing@,
            subtests: sub_entries_view(self.subtests@),
        }
    }
}

/// The views of a sequence of block skip entries.
pub open spec fn block_views(es: Seq<SkipBlockchainTest>) -> Seq<BlockTestView> {
    Seq::new(es.len(), |i: int| es[i]@)
}

/// The views of a sequence of state skip entries.
pub open spec fn state_views(es: Seq<SkipStateTest>) -> Seq<StateTestView> {
    Seq::new(es.len(), |i: int| es[i]@)
}

impl View for SkipTests {
    type V = SkipTestsView;

    open spec fn view(&self) -> SkipTestsView {
        SkipTestsView {
            block: block_views(self.block@),
            state: state_views(self.state@),
            legacy_block: block_views(self.legacy_block@),
            legacy_state: state_views(self.legacy_state@),
        }
    }
}

impl SkipTestsView {
    /// All four collections are empty.
    pub open spec fn is_empty(self) -> bool {
        self.block.len() == 0 && self.state.len() == 0 && self.legacy_block.len() == 0
            && self.legacy_state.len() == 0
    }
}

/// One block entry asks to skip `(failing, subtest)`: its leaf folder name
/// equals `failing` exactly, and `subtest` is among its subtest names.
pub open spec fn block_entry_matches(e: BlockTestView, failing: Seq<char>, subtest: Seq<char>) -> bool {
    e.failing == failing && e.subtests.contains(subtest)
}

/// Some entry of the sequence asks to skip `(failing, subtest)`.
pub open spec fn block_seq_matches(
    es: Seq<BlockTestView>,
    failing: Seq<char>,
    subtest: Seq<char>,
) -> bool {
    exists|i: int| 0 <= i < es.len() && block_entry_matches(es[i], failing, subtest)
}

/// The block lookup: the current and the legacy namespace are searched
/// independently, and either one matching suffices.
pub open spec fn spec_skip_block(t: SkipTestsView, failing: Seq<char>, subtest: Seq<char>) -> bool {
    block_seq_matches(t.block, failing, subtest) || block_seq_matches(
        t.legacy_block,
        failing,
        subtest,
    )
}

/// A sub-states record covers `subnumber`: it lists the wildcard `"*"`, or
/// lists `subnumber` itself.
pub open spec fn sub_states_match(s: SubStatesView, subnumber: Seq<char>) -> bool {
    s.subnumbers.contains("*"@) || s.subnumbers.contains(subnumber)
}

/// One binding of a subtest map asks to skip instance `subnumber` of the test
/// named `name`.
pub open spec fn sub_entry_covers(se: SubEntryView, name: Seq<char>, subnumber: Seq<char>) -> bool {
    se.name == name && sub_states_match(se.states, subnumber)
}

/// One state entry asks to skip instance `subnumber` of test `name` in leaf
/// folder `failing`. The chain recorded on the entry plays no part.
pub open spec fn state_entry_matches(
    e: StateTestView,
    failing: Seq<char>,
    name: Seq<char>,
    subnumber: Seq<char>,
) -> bool {
    e.failing == failing && exists|j: int|
        0 <= j < e.subtests.len() && sub_entry_covers(e.subtests[j], name, subnumber)
}

/// Some entry of the sequence asks to skip this state test instance.
pub open spec fn state_seq_matches(
    es: Seq<StateTestView>,
    failing: Seq<char>,
    name: Seq<char>,
    subnumber: Seq<char>,
) -> bool {
    exists|i: int| 0 <= i < es.len() && state_entry_matches(es[i], failing, name, subnumber)
}

/// The state lookup: both namespaces are searched, and the queried `chain` is
/// ignored — the chain on a matching entry is informational metadata, never a
/// match key.
pub open spec fn spec_skip_state(
    t: SkipTestsView,
    failing: Seq<char>,
    name: Seq<char>,
    subnumber: Seq<char>,
    chain: Seq<char>,
) -> bool {
    state_seq_matches(t.state, failing, name, subnumber) || state_seq_matches(
        t.legacy_state,
        failing,
        name,
        subnumber,
    )
}

/// Relies on `str`'s `PartialEq` implementation: two string slices compare
/// equal exactly when they consist of the same characters.
#[verifier::external_body]
pub(crate) fn str_eq(a: &str, b: &str) -> (r: bool)
    ensures
        r == (a@ == b@),
{
    a == b
}

/// Whether `s` occurs in `v`, by exact string equality.
fn contains_string(v: &Vec<String>, s: &str) -> (b: bool)
    ensures
        b == strings_view(v@).contains(s@),
{
    let n = v.len();
    for i in 0..n
        invariant
            n == v.len(),
            forall|k: int| 0 <= k < i ==> strings_view(v@)[k] != s@,
    {
        if str_eq(v[i].as_str(), s) {
            assert(strings_view(v@)[i as int] == s@);
            return true;
        }
    }
    assert(!strings_view(v@).contains(s@));
    false
}

/// Whether this single block entry asks to skip `(failing, subtest)`.
fn block_entry_matched(e: &SkipBlockchainTest, failing: &str, subtest: &str) -> (b: bool)
    ensures
        b == block_entry_matches(e@, failing@, subtest@),
{
    if !str_eq(e.failing.as_str(), failing) {
        return false;
    }
    contains_string(&e.subtests, subtest)
}

/// Whether some entry of `es` asks to skip `(failing, subtest)`.
fn block_entries_match(es: &Vec<SkipBlockchainTest>, failing: &str, subtest: &str) -> (b: bool)
    ensures
        b == block_seq_matches(block_views(es@), failing@, subtest@),
{
    let n = es.len();
    for i in 0..n
        invariant
            n == es.len(),
            forall|k: int| 0 <= k < i ==> !block_entry_matches(block_views(es@)[k], failing@, subtest@),
    {
        if block_entry_matched(&es[i], failing, subtest) {
            assert(block_entry_matches(block_views(es@)[i as int], failing@, subtest@));
            return true;
        }
    }
    false
}

/// Whether this sub-states record covers `subnumber`.
fn sub_states_matched(s: &StateSkipSubStates, subnumber: &str) -> (b: bool)
    ensures
        b == sub_states_match(s@, subnumber@),
{
    if contains_string(&s.subnumbers, "*") {
        return true;
    }
    contains_string(&s.subnumbers, subnumber)
}

/// Whether this single state entry asks to skip instance `subnumber` of test
/// `name` in leaf folder `failing`.
fn state_entry_matched(e: &SkipStateTest, failing: &str, name: &str, subnumber: &str) -> (b: bool)
    ensures
        b == state_entry_matches(e@, failing@, name@, subnumber@),
{
    if !str_eq(e.failing.as_str(), failing) {
        return false;
    }
    let n = e.subtests.len();
    for j in 0..n
        invariant
            n == e.subtests.len(),
            e@.failing == failing@,
            forall|k: int| 0 <= k < j ==> !sub_entry_covers(e@.subtests[k], name@, subnumber@),
    {
        if str_eq(e.subtests[j].0.as_str(), name) {
            if sub_states_matched(&e.subtests[j].1, subnumber) {
                assert(sub_entry_covers(e@.subtests[j as int], name@, subnumber@));
                return true;
            }
        }
    }
    false
}

/// Whether some entry of `es` asks to skip this state test instance.
fn state_entries_match(
    es: &Vec<SkipStateTest>,
    failing: &str,
    name: &str,
    subnumber: &str,
) -> (b: bool)
    ensures
        b == state_seq_matches(state_views(es@), failing@, name@, subnumber@),
{
    let n = es.len();
    for i in 0..n
        invariant
            n == es.len(),
            forall|k: int|
                0 <= k < i ==> !state_entry_matches(
                    state_views(es@)[k],
                    failing@,
                    name@,
                    subnumber@,
                ),
    {
        if state_entry_matched(&es[i], failing, name, subnumber) {
            assert(state_entry_matches(state_views(es@)[i as int], failing@, name@, subnumber@));
            return true;
        }
    }
    false
}

impl SkipTests {
    /// A registry with all four collections empty: it matches nothing, the
    /// safe default when no skip document is supplied.
    pub fn empty() -> (r: SkipTests)
        ensures
            r@.is_empty(),
    {
        SkipTests {
            block: Vec::new(),
            state: Vec::new(),
            legacy_block: Vec::new(),
            legacy_state: Vec::new(),
        }
    }

    /// Whether block test `subtest` in leaf folder `failing` is skip-listed,
    /// in either the current or the legacy namespace.
    pub fn should_skip_block(&self, failing: &str, subtest: &str) -> (b: bool)
        ensures
            b == spec_skip_block(self@, failing@, subtest@),
    {
        if block_entries_match(&self.block, failing, subtest) {
            return true;
        }
        block_entries_match(&self.legacy_block, failing, subtest)
    }

    /// Whether instance `subnumber` of state test `name` in leaf folder
    /// `failing` is skip-listed, in either namespace. The queried `chain`
    /// never affects the answer: entries record a chain for humans only.
    pub fn should_skip_state(
        &self,
        failing: &str,
        name: &str,
        subnumber: &str,
        chain: &str,
    ) -> (b: bool)
        ensures
            b == spec_skip_state(self@, failing@, name@, subnumber@, chain@),
    {
        if state_entries_match(&self.state, failing, name, subnumber) {
            return true;
        }
        state_entries_match(&self.legacy_state, failing, name, subnumber)
    }
}

} // verus!
