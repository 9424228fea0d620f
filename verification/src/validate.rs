//! The validation of a block.

use vstd::prelude::*;

use crate::primitives::B256;

verus! {

/// What a validation hands out of what the execution of the block gave: the block hash, or the
/// failure as it is.
pub open spec fn validated<T, E>(outcome: Result<(B256, T), E>) -> Result<B256, E> {
    match outcome {
        Ok((hash, _)) => Ok(hash),
        Err(error) => Err(error),
    }
}

/// Performs stateless validation of a block: only post-merge blocks are supported, and of what
/// the execution of the block gives, the block hash is handed out. `merge_block` is the first block
/// after the merge, and `outcome` is what the execution gave.
pub fn validate_block<T, E>(
    merge_block: u64,
    block_number: u64,
    outcome: Result<(B256, T), E>,
) -> (r: Result<B256, E>)
    requires
        block_number >= merge_block,
    ensures
        r == validated(outcome),
        match outcome {
            Ok(executed) => r == Ok::<B256, E>(executed.0),
            Err(error) => r == Err::<B256, E>(error),
        },
{
    match outcome {
        Ok((hash, _)) => Ok(hash),
        Err(error) => Err(error),
    }
}

/// A validation succeeds exactly where the execution did, with the hash that the execution gave, and
/// else fails with its failure.
pub proof fn law_validation_follows_execution<T, E>(hash: B256, output: T, error: E)
    ensures
        validated(Ok::<(B256, T), E>((hash, output))) == Ok::<B256, E>(hash),
        validated(Err::<(B256, T), E>(error)) == Err::<B256, E>(error),
{
}

} // verus!
