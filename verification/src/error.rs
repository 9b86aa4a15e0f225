//! The ways in which introspection of the guest can fail.

use vstd::prelude::*;

verus! {

/// Why a step of a refresh did not complete.
#[derive(Clone, Copy, Debug, PartialEq, Eq, Structural)]
pub enum OsInfoError {
    /// A guest virtual address has no mapping.
    TranslationError,
    /// The physical memory behind an address could not be read.
    ReadError,
    /// The guest is not a 64-bit Windows of the supported family.
    UnsupportedGuest,
    /// No structure layout is registered for the guest's build.
    UnsupportedVersion,
    /// The root of a kernel list could not be read.
    EnumerationError,
}

impl OsInfoError {
    /// Whether introspection must stop for the rest of the session.
    pub open spec fn spec_is_session_fatal(self) -> bool {
        self == OsInfoError::UnsupportedGuest || self == OsInfoError::UnsupportedVersion
    }

    /// Whether introspection must stop for the rest of the session, as opposed
    /// to giving up the current refresh only.
    #[verifier::when_used_as_spec(spec_is_session_fatal)]
    pub fn is_session_fatal(self) -> (fatal: bool)
        ensures
            fatal == self.spec_is_session_fatal(),
    {
        match self {
            OsInfoError::UnsupportedGuest | OsInfoError::UnsupportedVersion => true,
            _ => false,
        }
    }
}

} // verus!
