//! The `ApiError` trait, its default status code and message, and the JSON
//! response that an error is answered with.

use std::borrow::Cow;
use std::convert::Infallible;
use vstd::prelude::*;
use vstd::string::StringSliceAdditionalSpecFns;

verus! {

/// The JSON value type of `serde_json`, carried through as an extension of a
/// response.
#[verifier::external_type_specification]
#[verifier::external_body]
pub struct ExJsonValue(serde_json::Value);

/// The status code that an error has when nothing else is said.
pub const INTERNAL_SERVER_ERROR: u16 = 500;

/// A value that `http::StatusCode` accepts (`100..=999`).
pub open spec fn is_valid_status(code: u16) -> bool {
    100 <= code <= 999
}

/// The reason phrase that `http` gives a status code, if it knows one.
pub uninterp spec fn canonical_reason_of(code: u16) -> Option<Seq<char>>;

/// `http::StatusCode::from_u16(code)` then `canonical_reason`: the reason
/// phrase of a known status code (`404` gives "Not Found").
#[verifier::external_body]
pub(crate) fn canonical_reason(code: u16) -> (r: Option<&'static str>)
    requires
        is_valid_status(code),
    ensures
        match r {
            Some(s) => canonical_reason_of(code) == Some(s@),
            None => canonical_reason_of(code) is None,
        },
{
    match http::StatusCode::from_u16(code) {
        Ok(status) => status.canonical_reason(),
        Err(_) => None,
    }
}

/// The message of an error that says none: the reason phrase of its status
/// code, or "Unknown error".
pub open spec fn default_message_spec(code: u16) -> Seq<char> {
    match canonical_reason_of(code) {
        Some(r) => r,
        None => "Unknown error"@,
    }
}

/// The message of an error that says none.
pub fn default_message(code: u16) -> (r: &'static str)
    requires
        is_valid_status(code),
    ensures
        r@ == default_message_spec(code),
{
    match canonical_reason(code) {
        Some(s) => s,
        None => "Unknown error",
    }
}

/// An error that can be returned by a service API: an HTTP status code, a
/// message that can be shown to the user, and optional structured details.
pub trait ApiError {
    /// The HTTP status code of the error; `500` unless said otherwise.
    fn status_code(&self) -> (r: u16)
        ensures
            is_valid_status(r),
        default_ensures
            r == INTERNAL_SERVER_ERROR,
    {
        INTERNAL_SERVER_ERROR
    }

    /// A message that can be shown to the user; the reason phrase of the
    /// status code unless said otherwise.
    fn message(&self) -> (r: Cow<'_, str>)
        default_ensures
            exists|code: u16|
                call_ensures(Self::status_code, (self,), code) && r@ == default_message_spec(code),
    {
        let code = self.status_code();
        Cow::Borrowed(default_message(code))
    }

    /// Structured details to send along with the message; none unless said
    /// otherwise.
    fn extended(&self) -> (r: Option<serde_json::Value>)
        default_ensures
            r is None,
    {
        None
    }
}

impl ApiError for Infallible {

}

impl<T: ApiError> ApiError for &T {
    fn status_code(&self) -> (r: u16)
        ensures
            call_ensures(T::status_code, (*self,), r),
    {
        (**self).status_code()
    }

    fn message(&self) -> (r: Cow<'_, str>)
        ensures
            call_ensures(T::message, (*self,), r),
    {
        (**self).message()
    }

    fn extended(&self) -> (r: Option<serde_json::Value>)
        ensures
            call_ensures(T::extended, (*self,), r),
    {
        (**self).extended()
    }
}

} // verus!
