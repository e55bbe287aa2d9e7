use vstd::prelude::*;

verus! {

/// Failure taxonomy of the sync core.
///
/// `NotFound` carries the row ids a read or update referred to that are absent
/// from the pad. `Load` marks a corrupt local or fetched history (a checksum
/// mismatch or ids out of ascending order). `Persist` marks a failed durable
/// write. `Compaction` marks a revision run that is not contiguous. `Fetch`
/// marks an unreachable remote authority, kept distinct from an empty remote
/// history.
#[derive(Debug, PartialEq)]
pub enum RevError {
    NotFound { row_ids: Vec<String> },
    Load,
    Persist,
    Compaction,
    Fetch,
}

} // verus!
