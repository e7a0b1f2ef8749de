//! The address of the ping socket, derived from the server's announced URL
//! with the `url` crate: a `transport=websocket` query pair is appended and
//! the scheme becomes `wss`. A URL is carried here by its serialization.

use vstd::prelude::*;

verus! {

#[verifier::external_type_specification]
#[verifier::external_body]
pub struct ExUrlParseError(url::ParseError);

/// The serialization of the URL that `url::Url::parse` makes of `input`,
/// or nothing where it refuses the input.
pub uninterp spec fn url_parsed(input: Seq<char>) -> Option<Seq<char>>;

/// The serialization of the URL `url` after
/// `query_pairs_mut().append_pair(key, value)`.
pub uninterp spec fn url_pair_appended(url: Seq<char>, key: Seq<char>, value: Seq<char>) -> Seq<
    char,
>;

/// The serialization of the URL `url` after `set_scheme(scheme)`, or
/// nothing where `set_scheme` refuses the change.
pub uninterp spec fn url_scheme_set(url: Seq<char>, scheme: Seq<char>) -> Option<Seq<char>>;

/// Calls `url::Url::parse` and returns the serialization of the result.
/// Trusted: the result is `url_parsed` of the input, and a serialization
/// parses back to itself (the invariant that `Url::check_invariants`
/// asserts of every `Url`). Which `ParseError` comes is not stated.
#[verifier::external_body]
fn parse_url(input: &str) -> (r: Result<String, url::ParseError>)
    ensures
        r is Ok <==> url_parsed(input@) is Some,
        r matches Ok(s) ==> Some(s@) == url_parsed(input@) && url_parsed(s@) == Some(s@),
{
    match url::Url::parse(input) {
        Ok(u) => Ok(u.into()),
        Err(e) => Err(e),
    }
}

/// Calls `query_pairs_mut().append_pair(key, value)` on the URL whose
/// serialization is `url` (rebuilt from it with `Url::parse`, which gives it
/// back as it was), and returns the new serialization. Trusted: the result
/// is `url_pair_appended` of the arguments and parses back to itself.
#[verifier::external_body]
fn append_query_pair(url: &str, key: &str, value: &str) -> (r: String)
    requires
        url_parsed(url@) == Some(url@),
    ensures
        r@ == url_pair_appended(url@, key@, value@),
        url_parsed(r@) == Some(r@),
{
    let mut u = url::Url::parse(url).unwrap();
    u.query_pairs_mut().append_pair(key, value);
    u.into()
}

/// Calls `set_scheme(scheme)` on the URL whose serialization is `url`
/// (rebuilt from it with `Url::parse`), and returns the new serialization,
/// or `None` where `set_scheme` returns `Err(())`. Trusted: the result is
/// `url_scheme_set` of the arguments and parses back to itself.
#[verifier::external_body]
fn set_url_scheme(url: &str, scheme: &str) -> (r: Option<String>)
    requires
        url_parsed(url@) == Some(url@),
    ensures
        r is Some <==> url_scheme_set(url@, scheme@) is Some,
        r matches Some(s) ==> Some(s@) == url_scheme_set(url@, scheme@) && url_parsed(s@) == Some(
            s@,
        ),
{
    let mut u = url::Url::parse(url).unwrap();
    match u.set_scheme(scheme) {
        Ok(()) => Some(u.into()),
        Err(()) => None,
    }
}

/// Why no socket address can be derived from a ping URL.
#[derive(Debug, Clone, Copy, PartialEq, Eq)]
pub enum SocketUrlError {
    /// The ping URL does not parse.
    InvalidUrl,
    /// The URL refuses the `wss` scheme.
    SchemeRefused,
}

/// The socket address derived from a ping URL, as the `url` crate computes
/// it, or the step that fails.
pub open spec fn socket_url_spec(ping_url: Seq<char>) -> Result<Seq<char>, SocketUrlError> {
    match url_parsed(ping_url) {
        None => Err(SocketUrlError::InvalidUrl),
        Some(u) => match url_scheme_set(
            url_pair_appended(u, "transport"@, "websocket"@),
            "wss"@,
        ) {
            None => Err(SocketUrlError::SchemeRefused),
            Some(w) => Ok(w),
        },
    }
}

/// Derives the address of the ping socket from the server's ping URL: the
/// URL is parsed, `transport=websocket` is appended to its query, and its
/// scheme is set to `wss`.
pub fn socket_url(ping_url: &str) -> (r: Result<String, SocketUrlError>)
    ensures
        match socket_url_spec(ping_url@) {
            Ok(w) => r matches Ok(s) && s@ == w,
            Err(e) => r == Err::<String, SocketUrlError>(e),
        },
        r matches Ok(s) ==> url_parsed(ping_url@) matches Some(u) && url_scheme_set(
            url_pair_appended(u, "transport"@, "websocket"@),
            "wss"@,
        ) == Some(s@),
        r == Err::<String, SocketUrlError>(SocketUrlError::InvalidUrl) <==> url_parsed(
            ping_url@,
        ) is None,
{
    proof {
        lemma_socket_url_appends_transport_pair(ping_url@);
    }
    let parsed = match parse_url(ping_url) {
        Ok(s) => s,
        Err(_) => return Err(SocketUrlError::InvalidUrl),
    };
    let with_pair = append_query_pair(parsed.as_str(), "transport", "websocket");
    match set_url_scheme(with_pair.as_str(), "wss") {
        Some(s) => Ok(s),
        None => Err(SocketUrlError::SchemeRefused),
    }
}

/// The socket address always carries the `transport=websocket` pair: an
/// address derived from a ping URL is what `set_scheme("wss")` makes of the
/// parsed URL after the pair has been appended to it, for every URL, also
/// one that is already on `wss`; refusals come only from parsing or from
/// the scheme change.
pub proof fn lemma_socket_url_appends_transport_pair(ping_url: Seq<char>)
    ensures
        socket_url_spec(ping_url) matches Ok(w) ==> url_parsed(ping_url) matches Some(u)
            && url_scheme_set(url_pair_appended(u, "transport"@, "websocket"@), "wss"@) == Some(
            w,
        ),
        socket_url_spec(ping_url) == Err::<Seq<char>, SocketUrlError>(SocketUrlError::InvalidUrl)
            <==> url_parsed(ping_url) is None,
        socket_url_spec(ping_url) == Err::<Seq<char>, SocketUrlError>(
            SocketUrlError::SchemeRefused,
        ) <==> (url_parsed(ping_url) matches Some(u) && url_scheme_set(
            url_pair_appended(u, "transport"@, "websocket"@),
            "wss"@,
        ) is None),
{
}

} // verus!
