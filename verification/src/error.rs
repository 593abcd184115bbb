//! The ways in which a registry operation can fail.

use vstd::prelude::*;

verus! {

/// Why an operation was refused.
#[derive(Clone, Copy, Debug, PartialEq, Eq, Structural)]
pub enum RegistryError {
    /// The caller is anonymous.
    AnonymousCaller,
    /// The caller has a profile already.
    AlreadyRegistered,
    /// The caller has no profile to update.
    NotRegistered,
    /// The caller has no profile to show.
    NotFound,
    /// The caller's account is deactivated.
    AccountDisabled,
    /// No active profile is stored for the identity. Which of the two holds,
    /// no profile or an inactive one, is not told.
    InvalidOrInactive,
}

impl RegistryError {
    /// The message of this error.
    pub open spec fn text(self) -> Seq<char> {
        match self {
            RegistryError::AnonymousCaller => "Anonymous principal not allowed"@,
            RegistryError::AlreadyRegistered => "User already registered"@,
            RegistryError::NotRegistered => "User not found. Please register first."@,
            RegistryError::NotFound => "User not found"@,
            RegistryError::AccountDisabled => "User account is deactivated"@,
            RegistryError::InvalidOrInactive => "Invalid or inactive user"@,
        }
    }

    /// The message that a caller is given for this error.
    pub fn message(&self) -> (message: String)
        ensures
            message@ == self.text(),
    {
        match self {
            RegistryError::AnonymousCaller => "Anonymous principal not allowed".to_owned(),
            RegistryError::AlreadyRegistered => "User already registered".to_owned(),
            RegistryError::NotRegistered => "User not found. Please register first.".to_owned(),
            RegistryError::NotFound => "User not found".to_owned(),
            RegistryError::AccountDisabled => "User account is deactivated".to_owned(),
            RegistryError::InvalidOrInactive => "Invalid or inactive user".to_owned(),
        }
    }
}

} // verus!
