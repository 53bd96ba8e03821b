use std::borrow::Cow;

use api_error::api::{default_message, ApiError};
use api_error::response::{
    content_type, default_error_responder, error_body, set_error_responder,
    try_set_error_responder, ApiErrorResponse, ErrorResponse, ResponderSlot,
};
use axum_core::body::Body;
use axum_core::response::Response;
use http::header::CONTENT_TYPE;
use http::{HeaderValue, StatusCode};

struct TeapotError;

impl ApiError for TeapotError {
    fn status_code(&self) -> u16 {
        418
    }

    fn message(&self) -> Cow<'_, str> {
        Cow::Borrowed("I'm a teapot")
    }
}

fn email_field() -> serde_json::Value {
    let mut map = serde_json::Map::new();
    map.insert("field".to_string(), serde_json::Value::String("email".to_string()));
    serde_json::Value::Object(map)
}

struct ValidationError;

impl ApiError for ValidationError {
    fn status_code(&self) -> u16 {
        422
    }

    fn message(&self) -> Cow<'_, str> {
        Cow::Borrowed("validation failed")
    }

    fn extended(&self) -> Option<serde_json::Value> {
        Some(email_field())
    }
}

struct Plain;

impl ApiError for Plain {}

/// The library's response as an axum response, as the axum integration
/// builds it.
fn to_axum(parts: ErrorResponse) -> Response {
    let mut resp = Response::new(Body::from(parts.body));
    *resp.status_mut() = StatusCode::from_u16(parts.status).unwrap();
    resp.headers_mut().insert(CONTENT_TYPE, HeaderValue::from_static(content_type()));
    resp
}

fn custom_responder(err: &dyn ApiError) -> Response {
    let mut resp = to_axum(ApiErrorResponse::new(err).into_response());
    resp.headers_mut().insert("x-custom-responder", "1".parse().unwrap());
    resp
}

fn default_responder(err: &dyn ApiError) -> Response {
    to_axum(default_error_responder(err))
}

#[test]
fn custom_responder_is_used_by_derive() {
    let mut slot: ResponderSlot<fn(&dyn ApiError) -> Response> = ResponderSlot::new();
    set_error_responder(&mut slot, custom_responder);

    let resp = (slot.responder_or(default_responder))(&TeapotError);
    assert_eq!(resp.status(), 418);
    assert_eq!(resp.headers().get("x-custom-responder").unwrap(), "1");
}

#[test]
fn without_custom_responder_the_default_one_answers() {
    let slot: ResponderSlot<fn(&dyn ApiError) -> Response> = ResponderSlot::new();
    let resp = (slot.responder_or(default_responder))(&TeapotError);
    assert_eq!(resp.status(), 418);
    assert!(resp.headers().get("x-custom-responder").is_none());
    assert_eq!(resp.headers().get(CONTENT_TYPE).unwrap(), "application/json");
}

#[test]
fn default_responder_serializes_message_as_json() {
    let body = ApiErrorResponse::new(&TeapotError).to_json();
    assert_eq!(String::from_utf8(body).unwrap(), r#"{"message":"I'm a teapot"}"#);
}

#[test]
fn default_responder_forwards_status_code() {
    let resp = default_error_responder(&TeapotError);
    assert_eq!(resp.status, 418);
    assert_eq!(String::from_utf8(resp.body).unwrap(), r#"{"message":"I'm a teapot"}"#);
    let resp = default_error_responder(&ValidationError);
    assert_eq!(resp.status, 422);
    assert_eq!(
        String::from_utf8(resp.body).unwrap(),
        r#"{"message":"validation failed","extended":{"field":"email"}}"#
    );
}

#[test]
fn extended_defaults_to_none_for_derived_errors() {
    assert!(TeapotError.extended().is_none());
}

#[test]
fn extended_appears_in_response_body() {
    let body = ApiErrorResponse::new(&ValidationError).to_json();
    assert_eq!(
        String::from_utf8(body).unwrap(),
        r#"{"message":"validation failed","extended":{"field":"email"}}"#
    );
}

#[test]
fn extended_forwarded_through_reference() {
    let err = ValidationError;
    let by_ref: &ValidationError = &err;
    assert_eq!(by_ref.extended(), Some(email_field()));
}

#[test]
fn reference_forwards_status_and_message() {
    let err = TeapotError;
    let by_ref: &TeapotError = &err;
    assert_eq!(ApiError::status_code(&by_ref), 418);
    assert_eq!(ApiError::message(&by_ref), "I'm a teapot");
}

#[test]
fn defaults_are_internal_server_error() {
    assert_eq!(Plain.status_code(), 500);
    assert_eq!(Plain.message(), "Internal Server Error");
    assert!(Plain.extended().is_none());
    let resp = default_error_responder(&Plain);
    assert_eq!(resp.status, 500);
    assert_eq!(String::from_utf8(resp.body).unwrap(), r#"{"message":"Internal Server Error"}"#);
}

#[test]
fn default_message_is_reason_or_unknown() {
    assert_eq!(default_message(404), "Not Found");
    assert_eq!(default_message(503), "Service Unavailable");
    assert_eq!(default_message(599), "Unknown error");
    assert_eq!(default_message(418), "I'm a teapot");
    assert_eq!(default_message(999), "Unknown error");
}

#[test]
fn control_characters_are_escaped_in_body() {
    let body = error_body("tab\there\u{1}\\ é", None);
    assert_eq!(
        String::from_utf8(body).unwrap(),
        "{\"message\":\"tab\\there\\u0001\\\\ é\"}"
    );
    let body = error_body("\u{8}\u{c}\r\u{1f}", None);
    assert_eq!(String::from_utf8(body).unwrap(), r#"{"message":"\b\f\r\u001f"}"#);
}

#[test]
fn message_is_escaped_in_body() {
    let body = error_body("say \"hi\"\n", None);
    assert_eq!(String::from_utf8(body).unwrap(), r#"{"message":"say \"hi\"\n"}"#);
    let body = error_body("m", Some(b"[1,2]"));
    assert_eq!(String::from_utf8(body).unwrap(), r#"{"message":"m","extended":[1,2]}"#);
    assert_eq!(content_type(), "application/json");
}

#[test]
fn responder_can_be_set_only_once() {
    let mut slot: ResponderSlot<u8> = ResponderSlot::new();
    assert_eq!(slot.get(), None);
    assert_eq!(slot.responder_or(9), 9);
    assert_eq!(try_set_error_responder(&mut slot, 1), Ok(()));
    assert_eq!(try_set_error_responder(&mut slot, 2), Err(2));
    assert_eq!(slot.get(), Some(1));
    assert_eq!(slot.responder_or(9), 1);
}
