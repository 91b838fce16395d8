//! The provider's failure taxonomy: every operation either succeeds or
//! fails with exactly one of these kinds.

use vstd::prelude::*;

verus! {

/// A typed failure returned by a provider operation.
///
/// `NotFound` reports that the requested unit (by key, optionally filtered
/// by namespace) is not in the registry. `Unimplemented` reports that the
/// requested capability is permanently unsupported.
#[derive(Clone, Copy, Debug, PartialEq, Eq, Structural)]
pub enum ProviderError {
    NotFound,
    Unimplemented,
}

} // verus!
