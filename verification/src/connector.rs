//! The Docker engine connector's own part: the paths it asks for, the
//! models it reads the answers into, and how it judges an answer's status.

use vstd::prelude::*;
use vstd::string::*;
use crate::text::{decimal, has_prefix};

verus! {

/// The path of the engine's system information.
pub const INFO_PATH: &'static str = "/info";

/// The path of the list of containers.
pub const LIST_CONTAINERS_PATH: &'static str = "/containers/json";

#[verifier::external_type_specification]
#[verifier::external_body]
pub struct ExHyperError(hyper::Error);

#[verifier::external_type_specification]
#[verifier::external_body]
pub struct ExSerdeJsonError(serde_json::Error);

/// What can go wrong in a call to the engine.
pub enum DockerAPIError {
    /// The engine answered with a status outside 200..=299.
    InvalidApiResponse { status_code: String, message: String },
    /// The request could not be sent, or the answer not received.
    HyperError(hyper::Error),
    /// The answer did not read as the expected model.
    SerializeError(serde_json::Error),
}

/// A container as the list of containers shows it.
pub struct Container {
    pub id: String,
    pub names: Vec<String>,
    pub state: String,
    pub status: String,
}

/// A container as inspecting it shows it.
pub struct ContainerDetail {
    pub id: String,
    pub state: ContainerState,
}

/// The run state of a container.
pub struct ContainerState {
    pub pid: u64,
}

impl Default for ContainerState {
    fn default() -> (s: Self)
        ensures
            s.pid == 0,
    {
        ContainerState { pid: 0 }
    }
}

/// Whether an HTTP status code reports success: `200..=299`.
pub open spec fn is_success_code(code: u16) -> bool {
    200 <= code < 300
}

/// An answer passes exactly when its status lies in 200 to 299; every other
/// status, 500 among them, is reported as an invalid answer.
pub proof fn law_success_is_2xx(code: u16)
    ensures
        is_success_code(code) <==> (200 <= code && code <= 299),
        100 <= code < 1000 && !(200 <= code && code <= 299) ==> !is_success_code(code),
{
}

/// How `hyper::StatusCode` displays the code `code`: the number, a space,
/// and the reason phrase (or `<unknown status code>`).
pub uninterp spec fn status_display(code: u16) -> Seq<char>;

/// The text of the status `code` as `hyper::StatusCode` displays it
/// (`StatusCode::from_u16` then `to_string`). What it holds is named by
/// `status_display`; of it, only that it starts with the code in decimal and
/// a space is stated. The code must be one that `from_u16` accepts.
#[verifier::external_body]
fn status_text(code: u16) -> (s: String)
    requires
        100 <= code < 1000,
    ensures
        s@ == status_display(code),
        has_prefix(s@, decimal(code as nat).push(' ')),
{
    match hyper::StatusCode::from_u16(code) {
        Ok(status) => status.to_string(),
        Err(_) => String::new(),
    }
}

/// Whether the engine's answer with status `code` is a success.
pub fn is_success_status(code: u16) -> (b: bool)
    ensures
        b == is_success_code(code),
{
    200 <= code && code < 300
}

/// The error that reports an unexpected status, given its displayed text.
pub fn invalid_response(message: &str, status_text: String) -> (e: DockerAPIError)
    ensures
        e matches DockerAPIError::InvalidApiResponse { status_code, message: m }
            && status_code@ == status_text@ && m@ == message@,
{
    DockerAPIError::InvalidApiResponse { status_code: status_text, message: message.to_owned() }
}

/// Judges the status of an answer: a success passes, any other status gives
/// `InvalidApiResponse` with `message` and the status as it displays.
pub fn check_status(code: u16, message: &str) -> (r: Result<(), DockerAPIError>)
    requires
        100 <= code < 1000,
    ensures
        r is Ok <==> is_success_code(code),
        !is_success_code(code) ==> (r matches Err(DockerAPIError::InvalidApiResponse { status_code, message: m })
            && status_code@ == status_display(code) && m@ == message@
            && has_prefix(status_code@, decimal(code as nat).push(' '))),
{
    if is_success_status(code) {
        Ok(())
    } else {
        Err(invalid_response(message, status_text(code)))
    }
}

/// The path that inspects the container `id`: `/containers/<id>/json`.
pub fn inspect_path(id: &str) -> (p: String)
    ensures
        p@ == "/containers/"@ + id@ + "/json"@,
{
    let mut p = String::from_str("/containers/");
    p.append(id);
    p.append("/json");
    p
}

/// A source of containers.
pub trait ContainerProvider {
    fn list_containers();
}

} // verus!
