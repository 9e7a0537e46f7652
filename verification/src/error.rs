//! Errors of the DID module.
use vstd::prelude::*;

verus! {

/// Why a DID or a network name was refused.
#[derive(Debug, Clone, PartialEq, Eq)]
pub enum DIDError {
    /// The text is not a DID of the accepted shape; the payload describes it.
    InvalidFormat(String),
    /// The name is not one of the known networks; the payload is the name as given.
    UnknownChain(String),
}

} // verus!
