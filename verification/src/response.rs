//! The uniform response envelope that every endpoint returns.

use vstd::prelude::*;

verus! {

/// A response envelope: exactly one of `data` and `error` is set, and
/// `success` says which.
#[derive(Debug)]
pub struct ApiResponse<T> {
    pub success: bool,
    pub message: Option<String>,
    pub data: Option<T>,
    pub error: Option<String>,
}

impl<T> ApiResponse<T> {
    /// A successful envelope around `data`, with no message.
    pub fn success(data: T) -> (r: Self)
        ensures
            r.success,
            r.message is None,
            r.data == Some(data),
            r.error is None,
    {
        Self { success: true, message: None, data: Some(data), error: None }
    }

    /// A successful envelope around `data`, with a human-readable message.
    pub fn success_with_message(data: T, message: String) -> (r: Self)
        ensures
            r.success,
            r.message == Some(message),
            r.data == Some(data),
            r.error is None,
    {
        Self { success: true, message: Some(message), data: Some(data), error: None }
    }

    /// A failure envelope carrying only the error message.
    pub fn error(message: String) -> (r: ApiResponse<()>)
        ensures
            !r.success,
            r.message is None,
            r.data is None,
            r.error == Some(message),
    {
        ApiResponse { success: false, message: None, data: None, error: Some(message) }
    }
}

} // verus!
