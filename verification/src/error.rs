//! The failure taxonomy of the registry.
//!
//! Every operation fails synchronously during validation, before any
//! mutation, and surfaces exactly one of these variants.

use vstd::prelude::*;

verus! {

/// A typed failure of a registry operation.
#[derive(Clone, Copy, Debug, PartialEq, Eq, Structural)]
pub enum RegistryError {
    /// The positional account list is too short (or has the wrong shape).
    NotEnoughAccounts,
    /// A required signer flag is absent.
    MissingSignature,
    /// The caller fails the owner / delegate / class-authority check,
    /// or the record's frozen lock forbids the mutation.
    Unauthorized,
    /// A cell is malformed: wrong discriminator, wrong storage domain,
    /// a class reference that does not match, or a buffer too short for a
    /// fixed field.
    MalformedData,
    /// The instruction payload is too short (or otherwise invalid) for its
    /// operation.
    InvalidArgument,
}

impl RegistryError {
    /// A short human-readable name for the failure.
    pub fn describe(&self) -> (r: &'static str)
        ensures
            r@ == self.spec_describe(),
    {
        proof {
            reveal_strlit("not enough accounts");
            reveal_strlit("missing required signature");
            reveal_strlit("unauthorized");
            reveal_strlit("malformed data");
            reveal_strlit("invalid argument");
        }
        match self {
            RegistryError::NotEnoughAccounts => "not enough accounts",
            RegistryError::MissingSignature => "missing required signature",
            RegistryError::Unauthorized => "unauthorized",
            RegistryError::MalformedData => "malformed data",
            RegistryError::InvalidArgument => "invalid argument",
        }
    }

    /// The name that `describe` returns for each variant.
    pub open spec fn spec_describe(self) -> Seq<char> {
        match self {
            RegistryError::NotEnoughAccounts => "not enough accounts"@,
            RegistryError::MissingSignature => "missing required signature"@,
            RegistryError::Unauthorized => "unauthorized"@,
            RegistryError::MalformedData => "malformed data"@,
            RegistryError::InvalidArgument => "invalid argument"@,
        }
    }
}

} // verus!
