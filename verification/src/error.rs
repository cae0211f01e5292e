use vstd::prelude::*;

verus! {

/// A typed failure of the judge core. Every fallible step names exactly
/// what failed in the carried message; nothing is retried internally.
#[derive(Debug)]
pub enum InstanceError {
    /// A required external dependency (a backend path, a storage path)
    /// is missing from the environment.
    EnvironmentError(String),
    /// A privilege check or a filesystem/process step failed; the
    /// message names the failing step.
    PermissionError(String),
    /// The manifest or the supplied run results violate an invariant.
    ConfigurationError(String),
}

impl PartialEq for InstanceError {
    fn eq(&self, other: &InstanceError) -> (r: bool) {
        match (self, other) {
            (InstanceError::EnvironmentError(a), InstanceError::EnvironmentError(b)) => a.eq(b),
            (InstanceError::PermissionError(a), InstanceError::PermissionError(b)) => a.eq(b),
            (InstanceError::ConfigurationError(a), InstanceError::ConfigurationError(b)) => a.eq(
                b,
            ),
            _ => false,
        }
    }
}

impl vstd::std_specs::cmp::PartialEqSpecImpl for InstanceError {
    open spec fn obeys_eq_spec() -> bool {
        true
    }

    open spec fn eq_spec(&self, other: &InstanceError) -> bool {
        match (self, other) {
            (InstanceError::EnvironmentError(a), InstanceError::EnvironmentError(b)) => a@ == b@,
            (InstanceError::PermissionError(a), InstanceError::PermissionError(b)) => a@ == b@,
            (InstanceError::ConfigurationError(a), InstanceError::ConfigurationError(b)) => a@
                == b@,
            _ => false,
        }
    }
}

impl InstanceError {
    /// The carried message, for operator-facing reporting.
    pub fn message(&self) -> (r: &String)
        ensures
            r@ == self.message_spec(),
    {
        match self {
            InstanceError::EnvironmentError(m) => m,
            InstanceError::PermissionError(m) => m,
            InstanceError::ConfigurationError(m) => m,
        }
    }

    pub open spec fn message_spec(&self) -> Seq<char> {
        match self {
            InstanceError::EnvironmentError(m) => m@,
            InstanceError::PermissionError(m) => m@,
            InstanceError::ConfigurationError(m) => m@,
        }
    }
}

} // verus!
