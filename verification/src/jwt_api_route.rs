//! The token endpoint: its configuration, its request, its answers, and the rule by which
//! a request is granted.

use crate::jwt_utils::{create_token, created_token};
use crate::text::{parse_u64, parsed_u64};
use vstd::prelude::*;
use vstd::string::StringSliceAdditionalSpecFns;

verus! {

/// The secret that is used where none is configured.
pub const DEFAULT_SECRET: &'static str = "rusty_websocket_jwt_secret_key_32b";

/// The number of seconds that a token is valid where nothing else is configured.
pub const DEFAULT_EXPIRATION: u64 = 3600;

/// The status of an answer that grants a token.
pub const STATUS_OK: u16 = 200;

/// The status of an answer to a request without a user name or without a password.
pub const STATUS_UNAUTHORIZED: u16 = 401;

/// The status of an answer to a request for which no token could be made.
pub const STATUS_INTERNAL_ERROR: u16 = 500;

/// The configuration of the token endpoint.
#[derive(Clone, Debug, PartialEq, Eq)]
pub struct JwtState {
    /// The key that tokens are signed with.
    pub secret_key: [u8; 32],
    /// How long a token is valid, in seconds.
    pub token_expiration: u64,
}

/// The body of a request for a token.
#[derive(Clone, Debug, PartialEq, Eq)]
pub struct AuthRequest {
    pub username: String,
    pub password: String,
    pub session_id: Option<String>,
}

/// The answer to a request that was granted.
#[derive(Clone, Debug, PartialEq, Eq)]
pub struct AuthResponse {
    pub token: String,
    /// The number of seconds for which the token is valid.
    pub expires_in: u64,
}

/// The answer to a request that was refused.
#[derive(Clone, Debug, PartialEq, Eq)]
pub struct ErrorResponse {
    pub error: String,
}

/// The answer of the token endpoint: the token, or a status with the reason.
#[derive(Clone, Debug, PartialEq, Eq)]
pub enum ApiResponse {
    Success(AuthResponse),
    Error(u16, ErrorResponse),
}

impl ApiResponse {
    /// The status that the answer goes out with.
    pub fn status(&self) -> (status: u16)
        ensures
            status == match self {
                ApiResponse::Success(_) => STATUS_OK,
                ApiResponse::Error(refused, _) => *refused,
            },
    {
        match self {
            ApiResponse::Success(_) => STATUS_OK,
            ApiResponse::Error(refused, _) => *refused,
        }
    }
}

/// The first 32 of `bytes`, with zeros after them where there are fewer.
pub open spec fn fitted_key(bytes: Seq<u8>) -> Seq<u8> {
    Seq::new(
        32,
        |i: int|
            if i < bytes.len() {
                bytes[i]
            } else {
                0u8
            },
    )
}

/// The key for a configured secret: the first 32 bytes of its UTF-8 form, padded with
/// zeros; for none configured, the same of the default secret.
pub fn secret_key_from(configured: Option<&str>) -> (key: [u8; 32])
    ensures
        key@ == fitted_key(
            match configured {
                Some(secret) => secret.spec_bytes(),
                None => DEFAULT_SECRET.spec_bytes(),
            },
        ),
{
    let bytes = match configured {
        Some(secret) => secret.as_bytes(),
        None => DEFAULT_SECRET.as_bytes(),
    };
    let mut key = [0u8;32];
    let mut i: usize = 0;
    while i < 32 && i < bytes.len()
        invariant
            i <= 32,
            i <= bytes.len(),
            forall|j: int| 0 <= j < i ==> key@[j] == bytes@[j],
            forall|j: int| i <= j < 32 ==> key@[j] == 0u8,
        decreases 32 - i,
    {
        key[i] = bytes[i];
        i += 1;
    }
    key
}

/// The number of seconds that a configured text stands for; the default where none is
/// configured or the text is no decimal numeral that fits in 64 bits.
pub fn expiration_from(configured: Option<&str>) -> (seconds: u64)
    ensures
        seconds == match configured {
            Some(text) => match parsed_u64(text@) {
                Some(number) => number,
                None => DEFAULT_EXPIRATION,
            },
            None => DEFAULT_EXPIRATION,
        },
{
    match configured {
        Some(text) => match parse_u64(text) {
            Some(number) => number,
            None => DEFAULT_EXPIRATION,
        },
        None => DEFAULT_EXPIRATION,
    }
}

/// The configuration that the two settings stand for, each as it was found configured.
pub fn create_jwt_state(secret_key: Option<&str>, expiration_seconds: Option<&str>) -> (state:
    JwtState)
    ensures
        state.secret_key@ == fitted_key(
            match secret_key {
                Some(secret) => secret.spec_bytes(),
                None => DEFAULT_SECRET.spec_bytes(),
            },
        ),
        state.token_expiration == match expiration_seconds {
            Some(text) => match parsed_u64(text@) {
                Some(number) => number,
                None => DEFAULT_EXPIRATION,
            },
            None => DEFAULT_EXPIRATION,
        },
{
    JwtState {
        secret_key: secret_key_from(secret_key),
        token_expiration: expiration_from(expiration_seconds),
    }
}

/// The session that a request names, as characters.
pub open spec fn requested_session(request: AuthRequest) -> Option<Seq<char>> {
    match request.session_id {
        Some(session) => Some(session@),
        None => None,
    }
}

/// Whether a request names a user and a password.
pub open spec fn has_credentials(request: AuthRequest) -> bool {
    request.username@.len() > 0 && request.password@.len() > 0
}

/// Whether `response` is the answer to `request` at the time `now`. A request without a
/// user name or without a password is refused as unauthorized. Any other is granted a
/// token for its user, bound to the session it names, valid for the configured time;
/// where no such token can be made, the answer is an internal error.
pub open spec fn answers_at(
    state: JwtState,
    request: AuthRequest,
    now: u64,
    response: ApiResponse,
) -> bool {
    match response {
        ApiResponse::Success(granted) => {
            &&& has_credentials(request)
            &&& now + state.token_expiration <= u64::MAX
            &&& created_token(
                request.username@,
                requested_session(request),
                state.secret_key@,
                state.token_expiration,
                now,
            ) == Some(granted.token@)
            &&& granted.expires_in == state.token_expiration
        },
        ApiResponse::Error(status, refused) => if !has_credentials(request) {
            status == STATUS_UNAUTHORIZED && refused.error@ == "Invalid credentials"@
        } else {
            &&& status == STATUS_INTERNAL_ERROR
            &&& refused.error@ == "Failed to generate token"@
            &&& now + state.token_expiration > u64::MAX || created_token(
                request.username@,
                requested_session(request),
                state.secret_key@,
                state.token_expiration,
                now,
            ) is None
        },
    }
}

/// Whether `response` is the answer to `request` where the clock could not be read: the
/// credentials are tested all the same, and no token is made.
pub open spec fn answers_without_clock(request: AuthRequest, response: ApiResponse) -> bool {
    match response {
        ApiResponse::Success(_) => false,
        ApiResponse::Error(status, refused) => if !has_credentials(request) {
            status == STATUS_UNAUTHORIZED && refused.error@ == "Invalid credentials"@
        } else {
            status == STATUS_INTERNAL_ERROR && refused.error@ == "Failed to generate token"@
        },
    }
}

/// Answers a request for a token with the clock as it was read: seconds since the epoch,
/// or `None` where it could not be read. The credentials are tested before the clock is
/// looked at.
pub fn answer_token_request(state: &JwtState, request: &AuthRequest, clock: Option<u64>) -> (response:
    ApiResponse)
    ensures
        match clock {
            Some(now) => answers_at(*state, *request, now, response),
            None => answers_without_clock(*request, response),
        },
{
    match clock {
        Some(now) => issue_token(state, request, now),
        None => {
            if request.username.as_str().is_empty() || request.password.as_str().is_empty() {
                ApiResponse::Error(
                    STATUS_UNAUTHORIZED,
                    ErrorResponse { error: "Invalid credentials".to_owned() },
                )
            } else {
                ApiResponse::Error(
                    STATUS_INTERNAL_ERROR,
                    ErrorResponse { error: "Failed to generate token".to_owned() },
                )
            }
        },
    }
}

/// Answers a request for a token at the time `now`, in seconds since the epoch.
pub fn issue_token(state: &JwtState, request: &AuthRequest, now: u64) -> (response: ApiResponse)
    ensures
        answers_at(*state, *request, now, response),
{
    if request.username.as_str().is_empty() || request.password.as_str().is_empty() {
        return ApiResponse::Error(
            STATUS_UNAUTHORIZED,
            ErrorResponse { error: "Invalid credentials".to_owned() },
        );
    }
    let session: Option<&str> = match &request.session_id {
        Some(session) => Some(session.as_str()),
        None => None,
    };
    match create_token(
        request.username.as_str(),
        session,
        state.secret_key.as_slice(),
        state.token_expiration,
        now,
    ) {
        Ok(token) => ApiResponse::Success(
            AuthResponse { token, expires_in: state.token_expiration },
        ),
        Err(_) => ApiResponse::Error(
            STATUS_INTERNAL_ERROR,
            ErrorResponse { error: "Failed to generate token".to_owned() },
        ),
    }
}

} // verus!
