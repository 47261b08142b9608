//! The stream preparation entry point: mint a fresh token, register the
//! path under it, and build the URL a client fetches the stream from.

use crate::num::{dec_of, u64_to_string};
use crate::registry::TokenRegistry;
use vstd::prelude::*;
use vstd::string::StringExecFns;

verus! {

/// Why a stream could not be prepared.
#[derive(Clone, Copy, Debug, PartialEq, Eq, Structural)]
pub enum StreamError {
    /// The path does not exist on disk.
    NotFound,
}

impl StreamError {
    /// The error's human-readable description.
    pub fn message(&self) -> (s: String)
        ensures
            s@ == "File not found"@,
    {
        String::from_str("File not found")
    }
}

/// A prepared stream: the minted token and the URL that serves it.
pub struct PreparedStream {
    pub token: String,
    pub url: String,
}

/// The URL a token is served under on the local ephemeral server:
/// `http://127.0.0.1:<port>/pdf/<token>`.
pub open spec fn stream_url(port: u16, token: Seq<char>) -> Seq<char> {
    "http://127.0.0.1:"@ + dec_of(port as nat) + "/pdf/"@ + token
}

/// Relies on `uuid::Uuid::new_v4` and the `Display` of its hyphenated
/// form: a freshly generated random identifier rendered as 36
/// characters. The value is random, so nothing but its length is
/// promised.
#[verifier::external_body]
fn fresh_token() -> (t: String)
    ensures
        t@.len() == 36,
{
    uuid::Uuid::new_v4().to_string()
}

/// Prepares `path` for streaming: whether the path exists on disk is
/// checked by the caller at its I/O boundary and handed in. On success
/// a fresh token is minted, the path is registered under it, and the
/// token and its URL are returned; otherwise the registry is untouched.
pub fn prepare_stream(
    registry: &mut TokenRegistry,
    path: String,
    path_exists: bool,
    port: u16,
) -> (r: Result<PreparedStream, StreamError>)
    ensures
        r is Ok <==> path_exists,
        match r {
            Ok(p) => {
                &&& p.token@.len() == 36
                &&& p.url@ == stream_url(port, p.token@)
                &&& final(registry)@ == old(registry)@.insert(p.token@, path@)
            },
            Err(e) => {
                &&& e == StreamError::NotFound
                &&& final(registry)@ == old(registry)@
            },
        },
{
    if !path_exists {
        return Err(StreamError::NotFound);
    }
    let token = fresh_token();
    registry.register(token.clone(), path);
    let mut url = String::from_str("http://127.0.0.1:");
    let port_str = u64_to_string(port as u64);
    url.append(port_str.as_str());
    url.append("/pdf/");
    url.append(token.as_str());
    Ok(PreparedStream { token, url })
}

} // verus!
