//! Core of a multi-source media aggregator: the rules that govern plugin
//! discovery, URL allow-listing and plugin call policy, the cache keys and
//! payload cache, the identity mapping of external ids, and the conflict rules
//! of the library store.

pub mod aggregate;
pub mod allow;
pub mod api;
pub mod cache;
pub mod caps;
pub mod discovery;
pub mod errors;
pub mod flow;
pub mod keys;
pub mod lang;
pub mod mapping;
pub mod memstore;
pub mod model;
pub mod policy;
pub mod precompile;
pub mod records;
pub mod select;
pub mod stored;
pub mod text;
