//! A vanity-hash search engine for version-control commits: it looks for a
//! nonce such that tagging the committer name with the nonce's hex rendering
//! gives a commit whose content hash satisfies a chosen condition.

pub mod args;
pub mod condition;
pub mod digest;
pub mod encode;
pub mod engine;
pub mod hexfmt;
pub mod sanitize;
pub mod subseq;
