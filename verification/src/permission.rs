//! Permission errors.
use vstd::prelude::*;

verus! {

/// Error type for permission operations.
pub enum PermissionError {
    OperationNotPermitted(String),
}

impl PermissionError {
    /// The error's text: the message it carries.
    pub fn message(&self) -> (s: String)
        ensures
            match self {
                PermissionError::OperationNotPermitted(m) => s@ == m@,
            },
    {
        match self {
            PermissionError::OperationNotPermitted(m) => m.clone(),
        }
    }
}

impl From<String> for PermissionError {
    fn from(m: String) -> (e: PermissionError) {
        PermissionError::OperationNotPermitted(m)
    }
}

impl vstd::std_specs::convert::FromSpecImpl<String> for PermissionError {
    open spec fn obeys_from_spec() -> bool {
        true
    }

    open spec fn from_spec(m: String) -> PermissionError {
        PermissionError::OperationNotPermitted(m)
    }
}

} // verus!
