use vstd::prelude::*;

verus! {

/// Failure taxonomy of the manager's core operations.
///
/// Every operation reports its failure through one of these variants;
/// rendering and exit codes are left to the caller.
#[derive(Debug)]
pub enum Error {
    /// No installed release, environment or asset matches the request.
    NotFound,
    /// The request would collide with existing state: a duplicate alias,
    /// an already-installed release, a release pinned by an environment,
    /// or deleting the active environment.
    Conflict,
    /// A downloaded archive's SHA-256 digest differed from the published one.
    ChecksumMismatch,
    /// The remote release index or an asset could not be fetched.
    RemoteFailure,
    /// A managed binary's subprocess exited with a failure; carries its
    /// captured standard-error text.
    SubprocessFailure(String),
    /// Persisted or sidecar data could not be decoded.
    SerializationFailure,
    /// The operation is not defined for this kind of environment.
    UnsupportedOperation,
    /// The given text is not a valid version requirement.
    InvalidRequirement,
}

impl Error {
    /// A short description of the failure, for the caller to render.
    pub fn describe(&self) -> (r: String)
        ensures
            self is SubprocessFailure ==> r@ == self->SubprocessFailure_0@,
    {
        match self {
            Error::NotFound => "no matching item found".to_owned(),
            Error::Conflict => "request conflicts with existing state".to_owned(),
            Error::ChecksumMismatch => "checksum mismatch".to_owned(),
            Error::RemoteFailure => "remote request failed".to_owned(),
            Error::SubprocessFailure(stderr) => stderr.clone(),
            Error::SerializationFailure => "could not decode data".to_owned(),
            Error::UnsupportedOperation => "operation not supported for this environment".to_owned(),
            Error::InvalidRequirement => "invalid version requirement".to_owned(),
        }
    }
}

} // verus!
