//! Answers to requests.
use vstd::prelude::*;

verus! {

/// The status of an answer to a request that was refused.
pub const BAD_REQUEST: u16 = 400;

/// An answer: data, or the reason why there is none.
#[derive(Debug)]
pub struct ApiResponse<T> {
    pub success: bool,
    pub data: Option<T>,
    pub error: Option<String>,
}

/// Answers with data.
pub fn ok_response<T>(data: T) -> (r: ApiResponse<T>)
    ensures
        r == (ApiResponse { success: true, data: Some(data), error: None }),
{
    ApiResponse { success: true, data: Some(data), error: None }
}

/// Refuses a request, with the status of the answer.
pub fn err_response<T>(msg: &str) -> (r: (u16, ApiResponse<T>))
    ensures
        r.0 == 400,
        !r.1.success,
        r.1.data is None,
        r.1.error matches Some(e) && e@ == msg@,
{
    (BAD_REQUEST, ApiResponse { success: false, data: None, error: Some(msg.to_owned()) })
}

/// The message for a login that failed.
pub open spec fn login_failure_text(reason: Seq<char>) -> Seq<char> {
    "Login fehlgeschlagen: "@ + reason
}

/// Writes the message for a login that failed.
pub fn login_failure(reason: &str) -> (r: String)
    ensures
        r@ == login_failure_text(reason@),
{
    "Login fehlgeschlagen: ".to_owned().concat(reason)
}

/// The message for an update that failed.
pub open spec fn update_failure_text(reason: Seq<char>) -> Seq<char> {
    "Update fehlgeschlagen: "@ + reason
}

/// Writes the message for an update that failed.
pub fn update_failure(reason: &str) -> (r: String)
    ensures
        r@ == update_failure_text(reason@),
{
    "Update fehlgeschlagen: ".to_owned().concat(reason)
}

/// The message for an error of the server.
pub open spec fn failure_text(reason: Seq<char>) -> Seq<char> {
    "Fehler: "@ + reason
}

/// Writes the message for an error of the server.
pub fn failure_message(reason: &str) -> (r: String)
    ensures
        r@ == failure_text(reason@),
{
    "Fehler: ".to_owned().concat(reason)
}

} // verus!
