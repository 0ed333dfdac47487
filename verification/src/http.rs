//! The HTTP client types of `reqwest` that the library hands requests to.
//! They are opaque here: the library decides what goes into a request and
//! leaves sending it to the caller.

use vstd::prelude::*;

verus! {

/// `reqwest::Client`, carried through opaque.
#[verifier::external_type_specification]
#[verifier::external_body]
pub struct ExClient(reqwest::Client);

/// `reqwest::RequestBuilder`, carried through opaque.
#[verifier::external_type_specification]
#[verifier::external_body]
pub struct ExRequestBuilder(reqwest::RequestBuilder);

/// `reqwest::cookie::Jar`, carried through opaque.
#[verifier::external_type_specification]
#[verifier::external_body]
pub struct ExJar(reqwest::cookie::Jar);

/// `reqwest::Url`, carried through opaque.
#[verifier::external_type_specification]
#[verifier::external_body]
pub struct ExUrl(reqwest::Url);

/// `reqwest::cookie::Jar::default()`: an empty cookie jar.
#[verifier::external_body]
pub(crate) fn new_jar() -> (jar: reqwest::cookie::Jar) {
    reqwest::cookie::Jar::default()
}

/// `str::parse::<reqwest::Url>()`, `None` where the text is no URL.
#[verifier::external_body]
pub(crate) fn parse_url(s: &str) -> (u: Option<reqwest::Url>) {
    s.parse::<reqwest::Url>().ok()
}

/// `reqwest::cookie::Jar::add_cookie_str`: stores a `Set-Cookie` line for `url`.
/// What the jar holds afterwards is not observable here.
#[verifier::external_body]
pub(crate) fn jar_add_cookie_str(jar: &reqwest::cookie::Jar, line: &str, url: &reqwest::Url) {
    jar.add_cookie_str(line, url)
}

/// `reqwest::Client::get`: a GET request builder for `url`.
#[verifier::external_body]
pub(crate) fn client_get(client: &reqwest::Client, url: &str) -> (b: reqwest::RequestBuilder) {
    client.get(url)
}

/// `reqwest::Client::post`: a POST request builder for `url`.
#[verifier::external_body]
pub(crate) fn client_post(client: &reqwest::Client, url: &str) -> (b: reqwest::RequestBuilder) {
    client.post(url)
}

/// `reqwest::RequestBuilder::header`: appends one header to the request.
#[verifier::external_body]
pub(crate) fn builder_header(builder: reqwest::RequestBuilder, name: &str, value: &str) -> (b: reqwest::RequestBuilder) {
    builder.header(name, value)
}

} // verus!
