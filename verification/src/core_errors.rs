//! The errors of the first version of the engine API.

use vstd::prelude::*;

verus! {

#[verifier::external_type_specification]
#[verifier::external_body]
pub struct ExAnyhowError(anyhow::Error);

/// What can go wrong in a call to the engine.
pub enum DockerAPIError {
    /// The engine answered with an unexpected status.
    InvalidApiResponse { status_code: String, message: String },
    /// Any other failure.
    OtherError(anyhow::Error),
}

} // verus!
