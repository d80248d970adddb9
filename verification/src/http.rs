//! The data of the built-in HTTP dependency: requests, responses and errors.
use std::collections::BTreeMap;
use vstd::prelude::*;

verus! {

/// The HTTP method of a request.
#[derive(Clone, Copy, Debug, PartialEq, Eq, Structural)]
pub enum HttpMethod {
    /// `GET`
    Get,
    /// `POST`
    Post,
    /// `PUT`
    Put,
    /// `PATCH`
    Patch,
    /// `DELETE`
    Delete,
    /// `HEAD`
    Head,
    /// `OPTIONS`
    Options,
}

/// A single HTTP request.
#[derive(Clone, Debug, PartialEq, Eq)]
pub struct HttpRequest {
    /// The HTTP method to issue.
    pub method: HttpMethod,
    /// The absolute URL to request.
    pub url: String,
    /// Request headers keyed by header name.
    pub headers: BTreeMap<String, String>,
    /// Raw request body bytes.
    pub body: Vec<u8>,
}

/// Trusted: std's `From<&str>` for `String` creates a `String` holding the
/// same text as the given slice.
pub assume_specification<'a>[ <String as From<&'a str>>::from ](s: &str) -> (text: String)
    ensures
        text@ == s@,
;

/// Trusted: core's reflexive `From<T> for T`, which its documentation says
/// returns the argument unchanged.
pub assume_specification<T>[ <T as From<T>>::from ](t: T) -> (same: T)
    ensures
        same == t,
;

impl HttpRequest {
    /// Builds a `GET` request with an empty body and no headers.
    pub fn get<U: Into<String>>(url: U) -> (request: Self)
        ensures
            request.method == HttpMethod::Get,
            call_ensures(<U as Into<String>>::into, (url,), request.url),
            request.headers@ == Map::<String, String>::empty(),
            request.body@ == Seq::<u8>::empty(),
    {
        HttpRequest {
            method: HttpMethod::Get,
            url: url.into(),
            headers: BTreeMap::new(),
            body: Vec::new(),
        }
    }

    /// Builds a `POST` request with the supplied raw body and no headers.
    pub fn post<U: Into<String>>(url: U, body: Vec<u8>) -> (request: Self)
        ensures
            request.method == HttpMethod::Post,
            call_ensures(<U as Into<String>>::into, (url,), request.url),
            request.headers@ == Map::<String, String>::empty(),
            request.body == body,
    {
        HttpRequest { method: HttpMethod::Post, url: url.into(), headers: BTreeMap::new(), body }
    }
}

/// A fully materialized HTTP response.
#[derive(Clone, Debug, PartialEq, Eq)]
pub struct HttpResponse {
    /// The numeric HTTP status code.
    pub status: u16,
    /// Response headers keyed by header name.
    pub headers: BTreeMap<String, String>,
    /// Raw response body bytes.
    pub body: Vec<u8>,
}

/// Errors of the built-in HTTP client.
#[derive(Clone, Debug, PartialEq, Eq)]
pub enum HttpClientError {
    /// Request construction failed before the request could be sent.
    BuildRequest(String),
    /// The underlying transport failed while sending or receiving.
    Transport(String),
}

/// The text an HTTP client error displays as.
pub open spec fn http_error_text(error: HttpClientError) -> Seq<char> {
    match error {
        HttpClientError::BuildRequest(detail) => "failed to build HTTP request: "@ + detail@,
        HttpClientError::Transport(detail) => "HTTP transport error: "@ + detail@,
    }
}

impl HttpClientError {
    /// The human-readable description of this error.
    pub fn display_text(&self) -> (text: String)
        ensures
            text@ == http_error_text(*self),
    {
        match self {
            HttpClientError::BuildRequest(detail) => {
                let mut text = String::from_str("failed to build HTTP request: ");
                text.append(detail.as_str());
                text
            },
            HttpClientError::Transport(detail) => {
                let mut text = String::from_str("HTTP transport error: ");
                text.append(detail.as_str());
                text
            },
        }
    }
}

} // verus!

