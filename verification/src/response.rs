//! The JSON answer to an error (`{"message": ..., "extended": ...}`) and the
//! slot that holds a custom responder.

use std::borrow::Cow;
use vstd::prelude::*;
use vstd::string::StringSliceAdditionalSpecFns;
use vstd::utf8::encode_utf8;
use crate::api::{ApiError, is_valid_status};

verus! {

/// The lower-case hexadecimal digit of `d` (below 16), as an ASCII byte.
pub open spec fn hex_digit(d: u8) -> u8 {
    if d < 10 {
        (0x30 + d) as u8
    } else {
        (0x61 + d - 10) as u8
    }
}

/// How a JSON string writes one byte of its UTF-8 text: the quote, the
/// backslash and the control characters are escaped, every other byte is
/// written as it is.
pub open spec fn json_escape_byte(b: u8) -> Seq<u8> {
    if b == 0x22 {
        seq![0x5cu8, 0x22u8]
    } else if b == 0x5c {
        seq![0x5cu8, 0x5cu8]
    } else if b == 0x08 {
        seq![0x5cu8, 0x62u8]
    } else if b == 0x09 {
        seq![0x5cu8, 0x74u8]
    } else if b == 0x0a {
        seq![0x5cu8, 0x6eu8]
    } else if b == 0x0c {
        seq![0x5cu8, 0x66u8]
    } else if b == 0x0d {
        seq![0x5cu8, 0x72u8]
    } else if b < 0x20 {
        seq![0x5cu8, 0x75u8, 0x30u8, 0x30u8, hex_digit(b / 16), hex_digit(b % 16)]
    } else {
        seq![b]
    }
}

/// Each byte written as a JSON string writes it.
pub open spec fn json_escape(bytes: Seq<u8>) -> Seq<u8>
    decreases bytes.len(),
{
    if bytes.len() == 0 {
        Seq::empty()
    } else {
        json_escape(bytes.drop_last()) + json_escape_byte(bytes.last())
    }
}

/// The JSON text of a string: its UTF-8 text, escaped, between double quotes.
pub open spec fn json_string_bytes(s: Seq<char>) -> Seq<u8> {
    seq![0x22u8] + json_escape(encode_utf8(s)) + seq![0x22u8]
}

/// `serde_json::to_vec` on a string: the string as a JSON string literal,
/// escaped as serde_json's compact formatter escapes it (quote, backslash,
/// `\b \f \n \r \t`, and `\u00xx` with lower-case hex digits for the
/// other control characters). Writing into a `Vec` does not fail.
#[verifier::external_body]
pub(crate) fn json_string(s: &str) -> (r: Vec<u8>)
    ensures
        r@ == json_string_bytes(s@),
{
    match serde_json::to_vec(s) {
        Ok(v) => v,
        Err(_) => Vec::new(),
    }
}

/// The compact JSON text that `serde_json` writes for a JSON value. (With
/// serde_json's default features an object is a `BTreeMap`, so the text is a
/// function of the value alone.)
pub uninterp spec fn json_text(v: serde_json::Value) -> Seq<u8>;

/// The JSON text of the details of an error, if it has any.
pub open spec fn json_details(x: Option<serde_json::Value>) -> Option<Seq<u8>> {
    match x {
        Some(v) => Some(json_text(v)),
        None => None,
    }
}

/// `serde_json::to_vec` on a JSON value: its compact JSON text. Serializing a
/// `Value` into a `Vec` does not fail.
#[verifier::external_body]
pub(crate) fn json_value(v: &serde_json::Value) -> (r: Vec<u8>)
    ensures
        r@ == json_text(*v),
{
    match serde_json::to_vec(v) {
        Ok(b) => b,
        Err(_) => Vec::new(),
    }
}

/// The body of an error response: a JSON object with the message under
/// `"message"` and, when there are details, their JSON text under
/// `"extended"`.
pub open spec fn error_body_spec(message: Seq<char>, extended: Option<Seq<u8>>) -> Seq<u8> {
    encode_utf8("{\"message\":"@) + json_string_bytes(message) + match extended {
        Some(x) => encode_utf8(",\"extended\":"@) + x,
        None => Seq::<u8>::empty(),
    } + encode_utf8("}"@)
}

fn append_bytes(v: &mut Vec<u8>, b: &[u8])
    ensures
        final(v)@ == old(v)@ + b@,
{
    let mut k: usize = 0;
    while k < b.len()
        invariant
            k <= b@.len(),
            v@ == old(v)@ + b@.subrange(0, k as int),
        decreases b.len() - k,
    {
        v.push(b[k]);
        assert(b@.subrange(0, k + 1) =~= b@.subrange(0, k as int).push(b@[k as int]));
        k = k + 1;
    }
    assert(b@.subrange(0, k as int) =~= b@);
}

/// Writes the body of an error response.
pub fn error_body(message: &str, extended: Option<&[u8]>) -> (r: Vec<u8>)
    ensures
        r@ == error_body_spec(
            message@,
            match extended {
                Some(x) => Some(x@),
                None => None,
            },
        ),
{
    let mut r: Vec<u8> = Vec::new();
    append_bytes(&mut r, "{\"message\":".as_bytes());
    append_bytes(&mut r, json_string(message).as_slice());
    match extended {
        Some(x) => {
            append_bytes(&mut r, ",\"extended\":".as_bytes());
            append_bytes(&mut r, x);
        },
        None => {},
    }
    append_bytes(&mut r, "}".as_bytes());
    proof {
        let ghost e = match extended {
            Some(x) => Some(x@),
            None => None,
        };
        assert(r@ =~= error_body_spec(message@, e));
    }
    r
}

/// What an error is answered with: its status code, its message and the JSON
/// text of its details.
pub struct ApiErrorResponse {
    pub status: u16,
    pub message: String,
    pub extended: Option<Vec<u8>>,
}

/// The content type of an error response.
pub fn content_type() -> (r: &'static str)
    ensures
        r@ == "application/json"@,
{
    "application/json"
}

fn cow_to_string(c: Cow<'_, str>) -> (r: String)
    ensures
        r@ == c@,
{
    match c {
        Cow::Borrowed(s) => s.to_owned(),
        Cow::Owned(s) => s,
    }
}

/// A status code and a body, to be sent with the JSON content type.
pub struct ErrorResponse {
    pub status: u16,
    pub body: Vec<u8>,
}

impl ApiErrorResponse {
    /// Reads the status code, message and details of an error.
    pub fn new<E: ApiError + ?Sized>(api_error: &E) -> (r: ApiErrorResponse)
        ensures
            is_valid_status(r.status),
            call_ensures(E::status_code, (api_error,), r.status),
            exists|m: Cow<'_, str>| call_ensures(E::message, (api_error,), m) && r.message@ == m@,
            exists|x: Option<serde_json::Value>|
                call_ensures(E::extended, (api_error,), x) && json_details(x) == match r.extended {
                    Some(b) => Some(b@),
                    None => None,
                },
    {
        let status = api_error.status_code();
        let message = cow_to_string(api_error.message());
        let details = api_error.extended();
        let extended = match &details {
            Some(v) => Some(json_value(v)),
            None => None,
        };
        let r = ApiErrorResponse { status, message, extended };
        assert(json_details(details) == match r.extended {
            Some(b) => Some(b@),
            None => None,
        });
        r
    }

    /// The JSON body of the response.
    pub fn to_json(&self) -> (r: Vec<u8>)
        ensures
            r@ == error_body_spec(
                self.message@,
                match self.extended {
                    Some(x) => Some(x@),
                    None => None,
                },
            ),
    {
        match &self.extended {
            Some(x) => error_body(self.message.as_str(), Some(x.as_slice())),
            None => error_body(self.message.as_str(), None),
        }
    }

    /// The response: the error's status code and the JSON body.
    pub fn into_response(self) -> (r: ErrorResponse)
        ensures
            r.status == self.status,
            r.body@ == error_body_spec(
                self.message@,
                match self.extended {
                    Some(x) => Some(x@),
                    None => None,
                },
            ),
    {
        let body = self.to_json();
        ErrorResponse { status: self.status, body }
    }
}


/// The default way of answering an error: its status code, and a JSON body
/// with its message (and its details, if any).
pub fn default_error_responder<E: ApiError + ?Sized>(api_error: &E) -> (r: ErrorResponse)
    ensures
        is_valid_status(r.status),
        call_ensures(E::status_code, (api_error,), r.status),
        exists|m: Cow<'_, str>, x: Option<serde_json::Value>|
            call_ensures(E::message, (api_error,), m) && call_ensures(E::extended, (api_error,), x)
                && r.body@ == error_body_spec(m@, json_details(x)),
{
    let response = ApiErrorResponse::new(api_error);
    let ghost xb = match &response.extended {
        Some(b) => Some(b@),
        None => None,
    };
    let r = response.into_response();
    proof {
        let m = choose|m: Cow<'_, str>|
            call_ensures(E::message, (api_error,), m) && response.message@ == m@;
        let x = choose|x: Option<serde_json::Value>|
            call_ensures(E::extended, (api_error,), x) && json_details(x) == xb;
        assert(call_ensures(E::message, (api_error,), m) && call_ensures(E::extended, (api_error,), x)
            && r.body@ == error_body_spec(m@, json_details(x)));
    }
    r
}

/// The responder that a slot holding `s` answers with: the one set, else
/// `default`.
pub open spec fn answering_responder<F>(s: Option<F>, default: F) -> F {
    match s {
        Some(f) => f,
        None => default,
    }
}

/// What a slot holding `s` holds after an attempt to set `f`: the first
/// responder set stays.
pub open spec fn after_set<F>(s: Option<F>, f: F) -> Option<F> {
    match s {
        Some(g) => Some(g),
        None => Some(f),
    }
}

/// Holds the responder that errors are answered with, once it is set.
pub struct ResponderSlot<F> {
    responder: Option<F>,
}

impl<F> View for ResponderSlot<F> {
    type V = Option<F>;

    closed spec fn view(&self) -> Option<F> {
        self.responder
    }
}

impl<F: Copy> ResponderSlot<F> {
    /// A slot with no responder.
    pub fn new() -> (r: Self)
        ensures
            r@ is None,
    {
        ResponderSlot { responder: None }
    }

    /// The responder, if one is set.
    pub fn get(&self) -> (r: Option<F>)
        ensures
            r == self@,
    {
        self.responder
    }

    /// The responder if one is set, else `default`.
    pub fn responder_or(&self, default: F) -> (r: F)
        ensures
            r == answering_responder(self@, default),
    {
        match self.responder {
            Some(f) => f,
            None => default,
        }
    }
}

/// Sets the responder, unless one is set already: then `f` is handed back and
/// the slot keeps the first one.
pub fn try_set_error_responder<F>(slot: &mut ResponderSlot<F>, f: F) -> (r: Result<(), F>)
    ensures
        final(slot)@ == after_set(old(slot)@, f),
        old(slot)@ is None ==> r is Ok,
        old(slot)@ is Some ==> r == Err::<(), F>(f),
{
    if slot.responder.is_some() {
        Err(f)
    } else {
        slot.responder = Some(f);
        Ok(())
    }
}

/// Sets the responder of a slot that holds none.
pub fn set_error_responder<F>(slot: &mut ResponderSlot<F>, f: F)
    requires
        old(slot)@ is None,
    ensures
        final(slot)@ == after_set(old(slot)@, f),
        final(slot)@ == Some(f),
{
    slot.responder = Some(f);
}

} // verus!
