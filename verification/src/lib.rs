//! A registry of known-broken conformance tests that a test harness should
//! skip.
//!
//! The registry is loaded once from a JSON document listing block-level and
//! state-level skip entries (in a current and a legacy namespace each), and
//! then answers pure lookup queries: should this block test, or this state
//! test instance, be skipped?

pub mod json;
pub mod laws;
pub mod load;
pub mod registry;

pub use registry::ParseError;
pub use registry::SkipBlockchainTest;
pub use registry::SkipStateTest;
pub use registry::SkipTests;
pub use registry::StateSkipSubStates;
