//! A brute-force search engine that hands out disjoint batches of candidates,
//! tests the hash text of each candidate against a set of regular expressions,
//! and collects the matches until enough have been found.
pub mod generator;
pub mod hash;
pub mod options;
pub mod pattern;
pub mod search;

pub use generator::{Batch, Generator};
pub use hash::{hash_batch, hash_text, hex, mix};
pub use pattern::{Matcher, Pattern, PatternError};
pub use options::{Arguments, Options, OptionsError};
pub use search::{
    plan, run_single, search_cpu, select_device, ComputeError, DeviceError, Match, Plan, Search,
    SearchError, SearchOutcome, DEFAULT_BATCH_SIZE, DEFAULT_NUM_MATCHES,
};
