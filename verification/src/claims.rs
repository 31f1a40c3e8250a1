//! The identity that a request carries.

use crate::api_error::ApiError;
use vstd::prelude::*;
use vstd::string::*;

verus! {

/// Who a request comes from: the user, the language in which the user's audios are
/// transcribed, and the time (seconds since the epoch) at which the identity expires.
#[derive(Debug)]
pub struct Claims {
    pub user_id: i32,
    pub email: String,
    pub language: String,
    pub exp: i64,
}

impl Claims {
    /// The identity of a request, or why it has none: without a bearer token, or with
    /// one that does not decode to claims, the request is unauthorized; without the
    /// application state the server itself has failed.
    pub fn from_request_parts(
        has_bearer_token: bool,
        has_state: bool,
        decoded: Option<Claims>,
    ) -> (result: Result<Claims, ApiError>)
        ensures
            result == if !has_bearer_token {
                Err::<Claims, ApiError>(ApiError::Unauthorized)
            } else if !has_state {
                Err::<Claims, ApiError>(ApiError::InternalServerError)
            } else {
                match decoded {
                    Some(claims) => Ok::<Claims, ApiError>(claims),
                    None => Err::<Claims, ApiError>(ApiError::Unauthorized),
                }
            },
    {
        if !has_bearer_token {
            Err(ApiError::Unauthorized)
        } else if !has_state {
            Err(ApiError::InternalServerError)
        } else {
            match decoded {
                Some(claims) => Ok(claims),
                None => Err(ApiError::Unauthorized),
            }
        }
    }
}

} // verus!
