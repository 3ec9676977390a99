//! Access the Proxmox VE API via JSON-over-HTTPS: what is sent with a
//! request, and what is made of a response.

use crate::defs::{ApiError, ApiErrorView, Auth, Error, ErrorView};
use crate::json::{json_document, parse_json, JsonValue};
use crate::text::same_text;
use vstd::prelude::*;
use vstd::string::StringExecFns;
use vstd::string::StringSliceAdditionalSpecFns;

verus! {

/// The value of the `Authorization` header for a token: `PVEAPIToken=`,
/// the name of the token, `=`, and its value.
pub open spec fn authorization_text(auth: Auth) -> Seq<char> {
    match auth {
        Auth::Token(id, value) => "PVEAPIToken="@ + id@ + "="@ + value@,
    }
}

/// The value of the `Authorization` header that goes with each request.
pub fn authorization(auth: &Auth) -> (r: String)
    ensures
        r@ == authorization_text(*auth),
{
    match auth {
        Auth::Token(id, value) => {
            let mut text = String::from_str("PVEAPIToken=");
            text.append(id.as_str());
            text.append("=");
            text.append(value.as_str());
            text
        },
    }
}

/// The URL of a query path below the base URL of a cluster.
pub fn request_url(base: &str, path: &str) -> (r: String)
    ensures
        r@ == base@ + "/api2/json/"@ + path@,
{
    let mut text = String::from_str(base);
    text.append("/api2/json/");
    text.append(path);
    text
}

/// The content types that announce JSON.
pub open spec fn announces_json(content_type: Seq<u8>) -> bool {
    content_type == "application/json".spec_bytes() || content_type
        == "application/json;charset=UTF-8".spec_bytes()
}

/// What the head of a response says: an error for a status outside 200 to
/// 299, else an error for a content type that is missing or does not
/// announce JSON.
pub open spec fn head_error(status: u16, content_type: Option<Seq<u8>>) -> Option<ErrorView> {
    if !(200 <= status && status <= 299) {
        Some(ErrorView::Api(ApiErrorView::Status(status)))
    } else {
        match content_type {
            Some(value) => if announces_json(value) {
                None
            } else {
                Some(ErrorView::Api(ApiErrorView::ContentType))
            },
            None => Some(ErrorView::Api(ApiErrorView::ContentType)),
        }
    }
}

fn same_bytes(a: &[u8], b: &[u8]) -> (r: bool)
    ensures
        r == (a@ == b@),
{
    if a.len() != b.len() {
        return false;
    }
    let mut i: usize = 0;
    while i < a.len()
        invariant
            a@.len() == b@.len(),
            i <= a@.len(),
            forall|j: int| 0 <= j < i ==> a@[j] == b@[j],
        decreases a@.len() - i,
    {
        if a[i] != b[i] {
            return false;
        }
        i += 1;
    }
    assert(a@ =~= b@);
    true
}

/// The bytes of a header value that may be missing.
pub open spec fn header_bytes(value: Option<&[u8]>) -> Option<Seq<u8>> {
    match value {
        Some(bytes) => Some(bytes@),
        None => None,
    }
}

/// Checks the head of a response: its status, and the value of its
/// `Content-Type` header.
pub fn check_head(status: u16, content_type: Option<&[u8]>) -> (r: Result<(), Error>)
    ensures
        match r {
            Ok(_) => head_error(status, header_bytes(content_type)) is None,
            Err(e) => head_error(status, header_bytes(content_type)) == Some(e@),
        },
{
    if status < 200 || status > 299 {
        return Err(Error::Api(ApiError::Status(status)));
    }
    match content_type {
        Some(value) => {
            if same_bytes(value, "application/json".as_bytes()) || same_bytes(
                value,
                "application/json;charset=UTF-8".as_bytes(),
            ) {
                Ok(())
            } else {
                Err(Error::Api(ApiError::ContentType))
            }
        },
        None => Err(Error::Api(ApiError::ContentType)),
    }
}

/// What is inside the envelope of a response: the value under `data`, where
/// the document is an object with that key and no other.
pub open spec fn envelope_data(document: Option<JsonValue>) -> Result<JsonValue, ErrorView> {
    match document {
        None => Err(ErrorView::Api(ApiErrorView::Body)),
        Some(JsonValue::Object(members)) => if members@.len() == 1 && members@[0].0@ == "data"@ {
            Ok(members@[0].1)
        } else {
            Err(ErrorView::Api(ApiErrorView::Envelope))
        },
        Some(_) => Err(ErrorView::Api(ApiErrorView::Envelope)),
    }
}

/// Takes the payload out of the envelope of a response.
pub fn unwrap_envelope(document: JsonValue) -> (r: Result<JsonValue, Error>)
    ensures
        match r {
            Ok(data) => envelope_data(Some(document)) == Ok::<JsonValue, ErrorView>(data),
            Err(e) => envelope_data(Some(document)) == Err::<JsonValue, ErrorView>(e@),
        },
{
    match document {
        JsonValue::Object(members) => {
            let mut members = members;
            if members.len() != 1 {
                return Err(Error::Api(ApiError::Envelope));
            }
            match members.pop() {
                Some((key, data)) => {
                    if same_text(key.as_str(), "data") {
                        Ok(data)
                    } else {
                        Err(Error::Api(ApiError::Envelope))
                    }
                },
                None => Err(Error::Api(ApiError::Envelope)),
            }
        },
        _ => Err(Error::Api(ApiError::Envelope)),
    }
}

/// Reads the body of a response: a JSON text that holds the payload in an
/// envelope.
pub fn response_data(body: &[u8]) -> (r: Result<JsonValue, Error>)
    ensures
        match r {
            Ok(data) => envelope_data(json_document(body@)) == Ok::<JsonValue, ErrorView>(data),
            Err(e) => envelope_data(json_document(body@)) == Err::<JsonValue, ErrorView>(e@),
        },
{
    match parse_json(body) {
        Some(document) => unwrap_envelope(document),
        None => Err(Error::Api(ApiError::Body)),
    }
}

} // verus!
