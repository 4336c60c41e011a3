//! The addresses at which Submarine answers over HTTP.

use vstd::prelude::*;

verus! {

/// The reason why `url` refuses a text.
#[verifier::external_type_specification]
#[verifier::external_body]
pub struct ExParseError(url::ParseError);

/// The text of the URL that `base` denotes once its path is `path`, or the reason why `base` is not
/// an absolute URL.
pub uninterp spec fn url_with_path(base: Seq<char>, path: Seq<char>) -> Result<Seq<char>, url::ParseError>;

/// Calls `Url::set_path` on the URL that `Url::parse` reads from `base`.
///
/// Claimed of it: the serialization of the URL with its new path, or the error of `Url::parse`, is
/// the same for the same two texts. The bounds keep the serialization, in which a character takes
/// twelve bytes at most where it is percent-encoded, below the length of four gigabytes, from
/// which on `Url::set_path` panics.
#[verifier::external_body]
fn set_url_path(base: &str, path: &str) -> (r: Result<String, url::ParseError>)
    requires
        base@.len() <= 0x1000_0000,
        path@.len() <= 0x400,
    ensures
        match url_with_path(base@, path@) {
            Ok(text) => r is Ok && r->Ok_0@ == text,
            Err(e) => r == Err::<String, url::ParseError>(e),
        },
{
    let mut u = reqwest::Url::parse(base)?;
    u.set_path(path);
    Ok(String::from(u))
}

/// Why the address of a Submarine endpoint could not be formed.
#[derive(Debug)]
pub enum EndpointError {
    /// The base address is not an absolute URL.
    InvalidBase(url::ParseError),
}

/// The address of an endpoint, given what setting its path on the base address came to.
pub fn endpoint(url: Result<String, url::ParseError>) -> (r: Result<String, EndpointError>)
    ensures
        match url {
            Ok(text) => r == Ok::<String, EndpointError>(text),
            Err(e) => r == Err::<String, EndpointError>(EndpointError::InvalidBase(e)),
        },
{
    match url {
        Ok(text) => Ok(text),
        Err(e) => Err(EndpointError::InvalidBase(e)),
    }
}

/// The address from which the configuration of the universe is read.
pub fn universe_config_url(submarine_http_base_addr: &str) -> (r: Result<String, EndpointError>)
    requires
        submarine_http_base_addr@.len() <= 0x1000_0000,
    ensures
        match url_with_path(submarine_http_base_addr@, "api/v1/universe/config"@) {
            Ok(text) => r is Ok && r->Ok_0@ == text,
            Err(e) => r == Err::<String, EndpointError>(EndpointError::InvalidBase(e)),
        },
{
    proof {
        reveal_strlit("api/v1/universe/config");
    }
    endpoint(set_url_path(submarine_http_base_addr, "api/v1/universe/config"))
}

/// The address from which the last known values of all inputs are read.
pub fn last_values_url(submarine_http_base_addr: &str) -> (r: Result<String, EndpointError>)
    requires
        submarine_http_base_addr@.len() <= 0x1000_0000,
    ensures
        match url_with_path(submarine_http_base_addr@, "api/v1/universe/last_values"@) {
            Ok(text) => r is Ok && r->Ok_0@ == text,
            Err(e) => r == Err::<String, EndpointError>(EndpointError::InvalidBase(e)),
        },
{
    proof {
        reveal_strlit("api/v1/universe/last_values");
    }
    endpoint(set_url_path(submarine_http_base_addr, "api/v1/universe/last_values"))
}

} // verus!
