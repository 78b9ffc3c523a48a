//! The envelope in which the transport layer answers.

use vstd::prelude::*;
use vstd::string::*;
use crate::error::{message_of, Error};

verus! {

/// What an answer says beside its data: the text of a failure, or the number
/// of what is listed and the time of the answer.
#[derive(Debug)]
pub struct Meta {
    pub error: Option<String>,
    pub count: Option<usize>,
    pub timestamp: Option<String>,
}

/// An answer: whether the request succeeded, the data where it did, and
/// what is said beside.
#[derive(Debug)]
pub struct ApiResponse<T> {
    pub success: bool,
    pub data: Option<T>,
    pub meta: Option<Meta>,
}

impl<T> ApiResponse<T> {
    /// The answer to a request that succeeded.
    pub fn ok(data: T, meta: Option<Meta>) -> (response: Self)
        ensures
            response.success,
            response.data == Some(data),
            response.meta == meta,
    {
        ApiResponse { success: true, data: Some(data), meta }
    }

    /// The answer to a request that failed, with the text of the failure.
    pub fn fail(msg: String) -> (response: Self)
        ensures
            !response.success,
            response.data is None,
            response.meta matches Some(meta) && meta.error == Some(msg) && meta.count is None
                && meta.timestamp is None,
    {
        ApiResponse {
            success: false,
            data: None,
            meta: Some(Meta { error: Some(msg), count: None, timestamp: None }),
        }
    }

    /// The answer to a request, by its result.
    pub fn respond(result: Result<T, Error>) -> (response: Self)
        ensures
            match result {
                Ok(data) => response.success && response.data == Some(data) && response.meta
                    is None,
                Err(e) => !response.success && response.data is None && (response.meta matches Some(
                    meta,
                ) && meta.error is Some && meta.error->0@ == message_of(e@)),
            },
    {
        match result {
            Ok(data) => ApiResponse::ok(data, None),
            Err(e) => ApiResponse::fail(e.message()),
        }
    }
}

/// What is said beside a listing: how many there are, and when.
pub fn listing_meta(count: usize, timestamp: String) -> (meta: Meta)
    ensures
        meta.error is None,
        meta.count == Some(count),
        meta.timestamp == Some(timestamp),
{
    Meta { error: None, count: Some(count), timestamp: Some(timestamp) }
}

} // verus!
