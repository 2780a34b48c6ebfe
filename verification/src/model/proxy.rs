//! Forwarding requests to remote model endpoints: which endpoint and URL a request
//! goes to, which HTTP method it uses, and when a failed attempt is retried.
use vstd::prelude::*;
use crate::error::FuseError;
use crate::model::remote::RemoteEndpoint;
use crate::text::{self, trim_end_char, uppercase};

verus! {

/// HTTP methods a forwarded request may use.
#[derive(Debug, Clone, Copy, PartialEq, Eq, Structural)]
pub enum HttpMethod {
    Get,
    Post,
    Put,
    Delete,
    Patch,
    Head,
}

/// The method an (uppercase) method name denotes.
pub open spec fn method_named(m: Seq<char>) -> Option<HttpMethod> {
    if m == "GET"@ {
        Some(HttpMethod::Get)
    } else if m == "POST"@ {
        Some(HttpMethod::Post)
    } else if m == "PUT"@ {
        Some(HttpMethod::Put)
    } else if m == "DELETE"@ {
        Some(HttpMethod::Delete)
    } else if m == "PATCH"@ {
        Some(HttpMethod::Patch)
    } else if m == "HEAD"@ {
        Some(HttpMethod::Head)
    } else {
        None
    }
}

/// The method of a request, in any case; another method is a validation error.
pub fn parse_method(method: &str) -> (r: Result<HttpMethod, FuseError>)
    ensures
        match method_named(uppercase(method@)) {
            Some(m) => r == Ok::<HttpMethod, FuseError>(m),
            None => r matches Err(FuseError::ValidationError(e)) && e@ == "Unsupported HTTP method: "@
                + uppercase(method@),
        },
{
    let u = text::to_uppercase(method);
    let m = u.as_str();
    if text::str_eq(m, "GET") {
        Ok(HttpMethod::Get)
    } else if text::str_eq(m, "POST") {
        Ok(HttpMethod::Post)
    } else if text::str_eq(m, "PUT") {
        Ok(HttpMethod::Put)
    } else if text::str_eq(m, "DELETE") {
        Ok(HttpMethod::Delete)
    } else if text::str_eq(m, "PATCH") {
        Ok(HttpMethod::Patch)
    } else if text::str_eq(m, "HEAD") {
        Ok(HttpMethod::Head)
    } else {
        Err(FuseError::ValidationError(text::concat2("Unsupported HTTP method: ", m)))
    }
}

/// Where a request to an endpoint goes: the endpoint's URL without trailing `/`,
/// then the request's path.
pub fn forward_url(endpoint_url: &str, path: &str) -> (r: String)
    ensures
        r@ == trim_end_char(endpoint_url@, '/') + path@,
{
    let base = text::trim_end_char_exec(endpoint_url, '/');
    let mut r = text::string_from_chars(&base);
    r.append(path);
    r
}

/// A disabled endpoint takes no requests.
pub fn check_enabled(endpoint: &RemoteEndpoint) -> (r: Result<(), FuseError>)
    ensures
        endpoint.enabled ==> r is Ok,
        !endpoint.enabled ==> (r matches Err(FuseError::ValidationError(m)) && m@
            == "Remote endpoint '"@ + endpoint.name@ + "' is disabled"@),
{
    if !endpoint.enabled {
        Err(
            FuseError::ValidationError(
                text::concat3("Remote endpoint '", endpoint.name.as_str(), "' is disabled"),
            ),
        )
    } else {
        Ok(())
    }
}

/// Whether a failed attempt is tried again: only a retryable failure, and only
/// while fewer than `max_retries` attempts were made.
pub fn should_retry(retryable: bool, attempt: u32, max_retries: u32) -> (r: bool)
    ensures
        r == (retryable && attempt < max_retries),
{
    retryable && attempt < max_retries
}

} // verus!
