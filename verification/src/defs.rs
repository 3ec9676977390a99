//! Common definitions: how to reach the API, and what can go wrong.

use crate::text::{decimal, decimal_string};
use vstd::prelude::*;
use vstd::string::StringExecFns;

pub use crate::json::JsonValue;

verus! {

/// Why a payload could not be decoded into the record of its endpoint.
#[derive(Debug, Clone, PartialEq, Eq)]
pub enum DecodeError {
    /// The payload does not have the shape of the record: it is of another
    /// JSON kind, or a field is missing or of the wrong kind.
    Schema,
    /// The value under the device key that is named is not a string.
    Value(String),
    /// The index of the device key that is named does not fit in 32 bits.
    Index(String),
    /// The disk definition under the device key that is named does not
    /// follow the grammar; the definition is the second field.
    Disk(String, String),
    /// The value under `digest` is not a string.
    Digest,
}

/// A [`DecodeError`] as plain data, for use in contracts.
pub enum DecodeErrorView {
    Schema,
    Value(Seq<char>),
    Index(Seq<char>),
    Disk(Seq<char>, Seq<char>),
    Digest,
}

impl View for DecodeError {
    type V = DecodeErrorView;

    open spec fn view(&self) -> DecodeErrorView {
        match *self {
            DecodeError::Schema => DecodeErrorView::Schema,
            DecodeError::Value(key) => DecodeErrorView::Value(key@),
            DecodeError::Index(key) => DecodeErrorView::Index(key@),
            DecodeError::Disk(key, definition) => DecodeErrorView::Disk(key@, definition@),
            DecodeError::Digest => DecodeErrorView::Digest,
        }
    }
}

/// What the API did wrong, or what it sent that could not be used.
#[derive(Debug, Clone, PartialEq, Eq)]
pub enum ApiError {
    /// The response came with an HTTP status outside 200 to 299.
    Status(u16),
    /// The response has no `Content-Type` header, or one that does not
    /// announce JSON.
    ContentType,
    /// The body of the response is not a JSON text.
    Body,
    /// The body is not an object with the single key `data`.
    Envelope,
    /// A disk definition that does not follow the grammar.
    DiskDefinition(String),
    /// A word that names no disk type.
    DiskType(String),
    /// The payload of the endpoint that is described could not be decoded.
    Decode(String, DecodeError),
}

/// An [`ApiError`] as plain data, for use in contracts.
pub enum ApiErrorView {
    Status(u16),
    ContentType,
    Body,
    Envelope,
    DiskDefinition(Seq<char>),
    DiskType(Seq<char>),
    Decode(Seq<char>, DecodeErrorView),
}

impl View for ApiError {
    type V = ApiErrorView;

    open spec fn view(&self) -> ApiErrorView {
        match *self {
            ApiError::Status(code) => ApiErrorView::Status(code),
            ApiError::ContentType => ApiErrorView::ContentType,
            ApiError::Body => ApiErrorView::Body,
            ApiError::Envelope => ApiErrorView::Envelope,
            ApiError::DiskDefinition(text) => ApiErrorView::DiskDefinition(text@),
            ApiError::DiskType(word) => ApiErrorView::DiskType(word@),
            ApiError::Decode(endpoint, cause) => ApiErrorView::Decode(endpoint@, cause@),
        }
    }
}

/// An error that occurred while accessing the Proxmox VE API.
#[derive(Debug, Clone, PartialEq, Eq)]
#[non_exhaustive]
pub enum Error {
    /// The Proxmox VE API returned an error.
    Api(ApiError),
    /// Something went really, really wrong...
    Internal(String),
    /// Could not send an HTTPS request.
    Reqwest(String),
}

/// An [`Error`] as plain data, for use in contracts.
pub enum ErrorView {
    Api(ApiErrorView),
    Internal(Seq<char>),
    Reqwest(Seq<char>),
}

impl View for Error {
    type V = ErrorView;

    open spec fn view(&self) -> ErrorView {
        match *self {
            Error::Api(cause) => ErrorView::Api(cause@),
            Error::Internal(text) => ErrorView::Internal(text@),
            Error::Reqwest(text) => ErrorView::Reqwest(text@),
        }
    }
}

impl DecodeErrorView {
    /// The words that tell an operator of the error.
    pub open spec fn message(self) -> Seq<char> {
        match self {
            DecodeErrorView::Schema => "the payload does not have the expected shape"@,
            DecodeErrorView::Value(key) => "The "@ + key + " element is not a string"@,
            DecodeErrorView::Index(key) => "The index of the "@ + key + " element is too large"@,
            DecodeErrorView::Disk(key, definition) => "Could not parse "@ + key
                + ": could not parse the disk definition "@ + definition,
            DecodeErrorView::Digest => "unexpected 'digest' value"@,
        }
    }
}

impl DecodeError {
    /// The words that tell an operator of the error.
    pub fn message(&self) -> (r: String)
        ensures
            r@ == self@.message(),
    {
        match self {
            DecodeError::Schema => String::from_str("the payload does not have the expected shape"),
            DecodeError::Value(key) => {
                let mut text = String::from_str("The ");
                text.append(key.as_str());
                text.append(" element is not a string");
                text
            },
            DecodeError::Index(key) => {
                let mut text = String::from_str("The index of the ");
                text.append(key.as_str());
                text.append(" element is too large");
                text
            },
            DecodeError::Disk(key, definition) => {
                let mut text = String::from_str("Could not parse ");
                text.append(key.as_str());
                text.append(": could not parse the disk definition ");
                text.append(definition.as_str());
                text
            },
            DecodeError::Digest => String::from_str("unexpected 'digest' value"),
        }
    }
}

impl ApiErrorView {
    /// The words that tell an operator of the error.
    pub open spec fn message(self) -> Seq<char> {
        match self {
            ApiErrorView::Status(code) => "The GET request returned the HTTP status "@ + decimal(
                code as nat,
            ),
            ApiErrorView::ContentType => "The GET request did not return a JSON Content-Type header"@,
            ApiErrorView::Body => "Could not decode the response to the GET request as valid JSON"@,
            ApiErrorView::Envelope => "The GET request returned a weird object"@,
            ApiErrorView::DiskDefinition(text) => "Could not parse the disk definition "@ + text,
            ApiErrorView::DiskType(word) => "Invalid disk type '"@ + word + "'"@,
            ApiErrorView::Decode(endpoint, cause) => "Could not parse deserialize the "@ + endpoint
                + ": "@ + cause.message(),
        }
    }
}

impl ApiError {
    /// The words that tell an operator of the error.
    pub fn message(&self) -> (r: String)
        ensures
            r@ == self@.message(),
    {
        match self {
            ApiError::Status(code) => {
                let mut text = String::from_str("The GET request returned the HTTP status ");
                text.append(decimal_string(*code as u32).as_str());
                text
            },
            ApiError::ContentType => String::from_str(
                "The GET request did not return a JSON Content-Type header",
            ),
            ApiError::Body => String::from_str(
                "Could not decode the response to the GET request as valid JSON",
            ),
            ApiError::Envelope => String::from_str("The GET request returned a weird object"),
            ApiError::DiskDefinition(definition) => {
                let mut text = String::from_str("Could not parse the disk definition ");
                text.append(definition.as_str());
                text
            },
            ApiError::DiskType(word) => {
                let mut text = String::from_str("Invalid disk type '");
                text.append(word.as_str());
                text.append("'");
                text
            },
            ApiError::Decode(endpoint, cause) => {
                let mut text = String::from_str("Could not parse deserialize the ");
                text.append(endpoint.as_str());
                text.append(": ");
                text.append(cause.message().as_str());
                text
            },
        }
    }
}

impl ErrorView {
    /// The words that tell an operator of the error.
    pub open spec fn message(self) -> Seq<char> {
        match self {
            ErrorView::Api(_) => "The Proxmox VE API returned an error"@,
            ErrorView::Internal(text) => "proxmoxy internal error: "@ + text,
            ErrorView::Reqwest(_) => "Could not send an HTTPS request to the Proxmox VE API"@,
        }
    }
}

impl Error {
    /// The words that tell an operator of the error. What went wrong with
    /// the API is told by the message of the cause.
    pub fn message(&self) -> (r: String)
        ensures
            r@ == self@.message(),
    {
        match self {
            Error::Api(_) => String::from_str("The Proxmox VE API returned an error"),
            Error::Internal(detail) => {
                let mut text = String::from_str("proxmoxy internal error: ");
                text.append(detail.as_str());
                text
            },
            Error::Reqwest(_) => String::from_str(
                "Could not send an HTTPS request to the Proxmox VE API",
            ),
        }
    }
}

/// A helper type for functions that may return an [`enum@Error`] value.
pub type Result<T> = core::result::Result<T, Error>;

/// How do we authenticate to the Proxmox VE API?
#[derive(Debug, Clone, PartialEq, Eq)]
#[non_exhaustive]
pub enum Auth {
    /// Token authentication: name (id), value.
    Token(String, String),
}

/// Configuration for the specified backend.
#[derive(Debug, Clone, PartialEq, Eq)]
pub struct BackendConfig {
    /// The authentication information for the Proxmox VE API.
    pub auth: Auth,
    /// The URL specifying where to send API requests.
    pub url: String,
}

} // verus!
