//! A topic-based publish/subscribe broker core with session isolation.
//!
//! Connections subscribe to topics under a session and publish envelopes; an envelope
//! reaches the subscribers of exactly its topic and session. This crate holds the rules:
//! the registry of subscribers, the text protocol, the state of a connection, and the
//! tokens that pin a connection to an identity. It touches no socket: a program around it
//! reads the frames, hands them in, and queues the frames that come back.

use vstd::prelude::*;
use vstd::string::StrSliceExecFns;
use vstd::string::StringSliceAdditionalSpecFns;

pub mod enc_api_route;
pub mod enc_util;
pub mod enc_utils;
pub mod json;
pub mod jwt_api_route;
pub mod jwt_utils;
pub mod pairs;
pub mod protocol;
pub mod registry;
pub mod router;
pub mod session;
pub mod strmap;
pub mod text;
pub mod ws_client;

use crate::jwt_api_route::DEFAULT_SECRET;
use crate::jwt_utils::{validate_token, verified_claims, Claims, TokenError};
use crate::registry::HandleId;
use crate::session::{activated, fresh, Connection};

verus! {

/// A topic: an opaque, case-sensitive name of a channel.
pub type Topic = String;

/// A session: an opaque name of an isolation domain.
pub type SessionId = String;

/// The query parameters of a request to open a connection.
#[derive(Clone, Debug, PartialEq, Eq)]
pub struct WebSocketParams {
    /// The bearer token, where the client sent one.
    pub token: Option<String>,
}

/// The token that a request to open a connection carries, where it carries one.
pub open spec fn presented_token(params: Option<&WebSocketParams>) -> Option<Seq<char>> {
    match params {
        Some(given) => match given.token {
            Some(token) => Some(token@),
            None => None,
        },
        None => None,
    }
}

/// The secret that tokens are verified with: the configured one as bytes, or the default.
pub fn verification_secret(configured: Option<&str>) -> (secret: Vec<u8>)
    ensures
        secret@ == match configured {
            Some(text) => text.spec_bytes(),
            None => DEFAULT_SECRET.spec_bytes(),
        },
{
    match configured {
        Some(text) => text.as_bytes_vec(),
        None => DEFAULT_SECRET.as_bytes_vec(),
    }
}

/// What is left of a presented token once it has been verified: its claims where it was
/// accepted, and nothing where it was not, whatever the reason. A token that does not
/// verify is never a reason to refuse the connection.
pub fn accepted_claims(verdict: Result<Claims, TokenError>) -> (claims: Option<Claims>)
    ensures
        claims == match verdict {
            Ok(accepted) => Some(accepted),
            Err(_) => None::<Claims>,
        },
{
    match verdict {
        Ok(accepted) => Some(accepted),
        Err(_) => None,
    }
}

/// The claims of the token that comes with a request, where it comes with one and the
/// token verifies under `secret`. A token that does not verify counts as no token.
pub fn authenticate(params: Option<&WebSocketParams>, secret: &[u8]) -> (claims: Option<Claims>)
    ensures
        claims matches Some(verified) ==> presented_token(params) matches Some(token)
            && verified_claims(token, secret@) == Some(verified@),
{
    match params {
        Some(given) => match &given.token {
            Some(token) => accepted_claims(validate_token(token.as_str(), secret)),
            None => None,
        },
        None => None,
    }
}

/// Opens the connection for a request whose upgrade has completed. The connection is
/// active. It is pinned to the claims of the token where the request carries one that
/// verifies, and is anonymous otherwise: a bad token never refuses the connection.
pub fn accept(handle: HandleId, params: Option<&WebSocketParams>, secret: &[u8]) -> (connection:
    Connection)
    ensures
        connection@ == activated(fresh(handle), None) || (presented_token(params) matches Some(
            token,
        ) && connection@ == activated(fresh(handle), verified_claims(token, secret@))),
{
    let claims = authenticate(params, secret);
    let mut connection = Connection::new(handle);
    connection.activate(claims.as_ref());
    connection
}

} // verus!
