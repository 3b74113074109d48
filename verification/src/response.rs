//! The envelope of the worker's read-only API answers.

use vstd::prelude::*;

verus! {

/// A uniform API answer: either data with a message, or an error with a
/// message.
pub struct ApiResponse<T> {
    pub success: bool,
    pub data: Option<T>,
    pub error: Option<String>,
    pub message: String,
    pub meta: Option<PaginationMeta>,
}

/// Paging of a listing answer.
#[derive(Clone, Copy, PartialEq, Eq, Structural, Debug)]
pub struct PaginationMeta {
    pub total: u64,
    pub limit: u64,
    pub page: u64,
    pub total_pages: u64,
    pub has_next: bool,
    pub has_previous: bool,
}

impl<T> ApiResponse<T> {
    /// A successful answer carrying `data`.
    pub fn success(data: T, message: String) -> (r: ApiResponse<T>)
        ensures
            r.success,
            r.data == Some(data),
            r.error.is_none(),
            r.message == message,
            r.meta.is_none(),
    {
        ApiResponse { success: true, data: Some(data), error: None, message, meta: None }
    }

    /// A failed answer carrying `error`.
    pub fn error(error: String, message: String) -> (r: ApiResponse<T>)
        ensures
            !r.success,
            r.data.is_none(),
            r.error == Some(error),
            r.message == message,
            r.meta.is_none(),
    {
        ApiResponse { success: false, data: None, error: Some(error), message, meta: None }
    }
}

} // verus!
