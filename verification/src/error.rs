use vstd::prelude::*;

verus! {

/// Failures of a core engine episode.
#[derive(Debug, Clone)]
pub enum EngineError {
    /// The last signal is too old.
    StaleSignal { ms_ago: u64 },
    /// Position sizing failed.
    Kelly(String),
}

} // verus!
