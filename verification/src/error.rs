use vstd::prelude::*;
use crate::indexer;

verus! {

/// Top-level error of the crate: either a failure of the indexing core, a
/// poisoned shared-state access reported by the embedding process, or a
/// missing configuration value (named by its environment variable).
#[derive(Debug)]
pub enum Error {
    Mutex(String),
    Indexer(indexer::error::Error),
    ConfigEnvMissing(&'static str),
}

} // verus!
