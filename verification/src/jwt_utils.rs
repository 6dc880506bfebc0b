//! Bearer tokens: the claims they carry, how they are signed and verified through
//! `jsonwebtoken`, and how they are read from a header.

use crate::json::{
    json_members, lemma_writable_names, member, members_of, names_of, writable_names, JsonField,
    JsonItem,
};
use crate::text::{match_prefix, to_chars};
use vstd::prelude::*;
use vstd::string::StrSliceExecFns;

verus! {

/// The error of `jsonwebtoken`, carried through as it is.
#[verifier::external_type_specification]
#[verifier::external_body]
pub struct ExTokenLibraryError(jsonwebtoken::errors::Error);

/// What a verified token says of its bearer.
#[derive(Clone, Debug, PartialEq, Eq)]
pub struct Claims {
    /// Subject: the identifier of the user.
    pub sub: String,
    /// The session that the token binds its bearer to, if any.
    pub sid: Option<String>,
    /// Issued at, in seconds since the epoch.
    pub iat: u64,
    /// Expires at, in seconds since the epoch.
    pub exp: u64,
}

/// The mathematical form of [`Claims`].
pub ghost struct ClaimsView {
    pub sub: Seq<char>,
    pub sid: Option<Seq<char>>,
    pub iat: u64,
    pub exp: u64,
}

impl View for Claims {
    type V = ClaimsView;

    open spec fn view(&self) -> ClaimsView {
        ClaimsView {
            sub: self.sub@,
            sid: match self.sid {
                Some(sid) => Some(sid@),
                None => None,
            },
            iat: self.iat,
            exp: self.exp,
        }
    }
}

/// Why a token could not be made or was not accepted.
#[derive(Clone, Copy, Debug, PartialEq, Eq, Structural)]
pub enum TokenError {
    /// The time of expiry does not fit in 64 bits.
    ExpiryOutOfRange,
    /// The token could not be signed.
    Signing,
    /// The token has not the shape of a token, is not signed with the secret, or has
    /// expired.
    Rejected,
    /// The token verified, but its claims are not those of this library.
    UnexpectedClaims,
}

/// The mathematical form of optional claims.
pub open spec fn optional_claims_view(claims: Option<Claims>) -> Option<ClaimsView> {
    match claims {
        Some(c) => Some(c@),
        None => None,
    }
}

/// The mathematical form of an optional JSON member.
pub open spec fn optional_item(field: Option<JsonField>) -> Option<JsonItem> {
    match field {
        Some(f) => Some(f@),
        None => None,
    }
}

/// The claims that four JSON members stand for: `sub` must be a string, `iat` and `exp`
/// unsigned integers, and `sid` a string, `null` or absent.
pub open spec fn claims_from(
    sub: Option<JsonItem>,
    sid: Option<JsonItem>,
    iat: Option<JsonItem>,
    exp: Option<JsonItem>,
) -> Option<ClaimsView> {
    match (sub, iat, exp) {
        (
            Some(JsonItem::Text(subject)),
            Some(JsonItem::Unsigned(issued)),
            Some(JsonItem::Unsigned(expires)),
        ) => match sid {
            None => Some(ClaimsView { sub: subject, sid: None, iat: issued, exp: expires }),
            Some(JsonItem::Null) => Some(
                ClaimsView { sub: subject, sid: None, iat: issued, exp: expires },
            ),
            Some(JsonItem::Text(session)) => Some(
                ClaimsView { sub: subject, sid: Some(session), iat: issued, exp: expires },
            ),
            _ => None,
        },
        _ => None,
    }
}

/// The member of `members` under `key`, where there is one.
pub open spec fn item_at(members: Map<Seq<char>, JsonItem>, key: Seq<char>) -> Option<JsonItem> {
    if members.contains_key(key) {
        Some(members[key])
    } else {
        None
    }
}

/// The claims that the members of a JSON value stand for.
pub open spec fn claims_of(members: Map<Seq<char>, JsonItem>) -> Option<ClaimsView> {
    claims_from(
        item_at(members, "sub"@),
        item_at(members, "sid"@),
        item_at(members, "iat"@),
        item_at(members, "exp"@),
    )
}

/// The string members of the JSON object that a token carries for `claims`.
pub open spec fn claim_texts(claims: ClaimsView) -> Seq<(Seq<char>, Seq<char>)> {
    match claims.sid {
        Some(session) => seq![("sub"@, claims.sub), ("sid"@, session)],
        None => seq![("sub"@, claims.sub)],
    }
}

/// The number members of the JSON object that a token carries for `claims`.
pub open spec fn claim_numbers(claims: ClaimsView) -> Seq<(Seq<char>, u64)> {
    seq![("iat"@, claims.iat), ("exp"@, claims.exp)]
}

/// The token with the default header, signed with HMAC-SHA256 under `secret`, whose claims
/// are the JSON object with the given string members and number members; `None` where
/// signing fails.
pub uninterp spec fn hs256_token(
    texts: Seq<(Seq<char>, Seq<char>)>,
    numbers: Seq<(Seq<char>, u64)>,
    secret: Seq<u8>,
) -> Option<Seq<char>>;

/// The claims of a token as the members of a JSON value, where the token has the shape of
/// one, names HMAC-SHA256 in its header, and carries the signature that fits `secret`;
/// `None` for any other text. When the token expires plays no part in this.
pub uninterp spec fn token_claims(token: Seq<char>, secret: Seq<u8>) -> Option<
    Map<Seq<char>, JsonItem>,
>;

/// The members that string members and number members make up together.
pub open spec fn claim_members(
    texts: Seq<(Seq<char>, Seq<char>)>,
    numbers: Seq<(Seq<char>, u64)>,
) -> Map<Seq<char>, JsonItem>
    decreases numbers.len(),
{
    if numbers.len() == 0 {
        members_of(texts)
    } else {
        claim_members(texts, numbers.drop_last()).insert(
            numbers.last().0,
            JsonItem::Unsigned(numbers.last().1),
        )
    }
}

/// The names and values of string members as character sequences.
pub open spec fn texts_view(members: Seq<(String, String)>) -> Seq<(Seq<char>, Seq<char>)> {
    members.map_values(|member: (String, String)| (member.0@, member.1@))
}

/// The names of number members as character sequences, with their values.
pub open spec fn numbers_view(members: Seq<(String, u64)>) -> Seq<(Seq<char>, u64)> {
    members.map_values(|member: (String, u64)| (member.0@, member.1))
}

/// `jsonwebtoken::encode` with the default header and a key made by
/// `EncodingKey::from_secret`: the token for the JSON object of the given members. The
/// token depends on the members and the secret alone, and its claims, read under the same
/// secret, are those members. The names must differ from each other, and none may be one
/// that `serde_json` reads as something else than a member.
#[verifier::external_body]
fn sign_hs256(texts: &Vec<(String, String)>, numbers: &Vec<(String, u64)>, secret: &[u8]) -> (token:
    Result<String, jsonwebtoken::errors::Error>)
    requires
        writable_names(names_of(texts_view(texts@)) + names_of(numbers_view(numbers@))),
    ensures
        match token {
            Ok(signed) => {
                &&& hs256_token(texts_view(texts@), numbers_view(numbers@), secret@) == Some(
                    signed@,
                )
                &&& token_claims(signed@, secret@) == Some(
                    claim_members(texts_view(texts@), numbers_view(numbers@)),
                )
            },
            Err(_) => hs256_token(texts_view(texts@), numbers_view(numbers@), secret@) is None,
        },
{
    let mut object: serde_json::Map<String, serde_json::Value> = texts.iter().map(
        |member| (member.0.clone(), serde_json::Value::String(member.1.clone())),
    ).collect();
    object.extend(numbers.iter().map(|member| (member.0.clone(), serde_json::Value::from(member.1))));
    jsonwebtoken::encode(
        &jsonwebtoken::Header::default(),
        &object,
        &jsonwebtoken::EncodingKey::from_secret(secret),
    )
}

/// `jsonwebtoken::decode` with a key made by `DecodingKey::from_secret` and the validation
/// `Validation::new(Algorithm::HS256)`: the claims of the token as a JSON value, where the
/// token has the shape of one, is signed with the secret and has not expired. Whether a
/// token has expired depends on the clock, so success is not promised; claims that are
/// handed out are those that the token carries.
#[verifier::external_body]
fn decode_hs256(token: &str, secret: &[u8]) -> (claims: Result<
    serde_json::Value,
    jsonwebtoken::errors::Error,
>)
    ensures
        claims matches Ok(value) ==> token_claims(token@, secret@) == Some(json_members(value)),
{
    jsonwebtoken::decode::<serde_json::Value>(
        token,
        &jsonwebtoken::DecodingKey::from_secret(secret),
        &jsonwebtoken::Validation::new(jsonwebtoken::Algorithm::HS256),
    ).map(|data| data.claims)
}

impl Claims {
    /// The claims for `user_id`, issued at `now` and valid for `expiration` seconds; `None`
    /// where the time of expiry does not fit in 64 bits.
    pub fn issue(user_id: &str, session_id: Option<&str>, now: u64, expiration: u64) -> (claims:
        Option<Claims>)
        ensures
            match claims {
                Some(issued) => now + expiration <= u64::MAX && issued@ == (ClaimsView {
                    sub: user_id@,
                    sid: match session_id {
                        Some(session) => Some(session@),
                        None => None,
                    },
                    iat: now,
                    exp: (now + expiration) as u64,
                }),
                None => now + expiration > u64::MAX,
            },
    {
        match now.checked_add(expiration) {
            Some(expires) => Some(
                Claims {
                    sub: user_id.to_owned(),
                    sid: match session_id {
                        Some(session) => Some(session.to_owned()),
                        None => None,
                    },
                    iat: now,
                    exp: expires,
                },
            ),
            None => None,
        }
    }

    /// Reads claims from four JSON members.
    pub fn from_fields(
        sub: Option<JsonField>,
        sid: Option<JsonField>,
        iat: Option<JsonField>,
        exp: Option<JsonField>,
    ) -> (claims: Option<Claims>)
        ensures
            optional_claims_view(claims) == claims_from(
                optional_item(sub),
                optional_item(sid),
                optional_item(iat),
                optional_item(exp),
            ),
    {
        let subject = match sub {
            Some(JsonField::Text(subject)) => subject,
            _ => {
                return None;
            },
        };
        let issued = match iat {
            Some(JsonField::Unsigned(issued)) => issued,
            _ => {
                return None;
            },
        };
        let expires = match exp {
            Some(JsonField::Unsigned(expires)) => expires,
            _ => {
                return None;
            },
        };
        let session = match sid {
            None => None,
            Some(JsonField::Null) => None,
            Some(JsonField::Text(session)) => Some(session),
            _ => {
                return None;
            },
        };
        Some(Claims { sub: subject, sid: session, iat: issued, exp: expires })
    }

    /// Reads claims from a JSON value.
    pub(crate) fn from_json(value: &serde_json::Value) -> (claims: Option<Claims>)
        ensures
            optional_claims_view(claims) == claims_of(json_members(*value)),
    {
        Claims::from_fields(
            member(value, "sub"),
            member(value, "sid"),
            member(value, "iat"),
            member(value, "exp"),
        )
    }

    /// Signs the claims under `secret`. The claims of the token, read under the same
    /// secret, are these.
    pub fn sign(&self, secret: &[u8]) -> (token: Result<String, TokenError>)
        ensures
            match token {
                Ok(signed) => {
                    &&& hs256_token(claim_texts(self@), claim_numbers(self@), secret@) == Some(
                        signed@,
                    )
                    &&& token_claims(signed@, secret@) == Some(
                        claim_members(claim_texts(self@), claim_numbers(self@)),
                    )
                },
                Err(error) => error == TokenError::Signing && hs256_token(
                    claim_texts(self@),
                    claim_numbers(self@),
                    secret@,
                ) is None,
            },
    {
        let mut texts: Vec<(String, String)> = Vec::new();
        texts.push(("sub".to_owned(), self.sub.clone()));
        match &self.sid {
            Some(session) => {
                texts.push(("sid".to_owned(), session.clone()));
            },
            None => {},
        }
        let mut numbers: Vec<(String, u64)> = Vec::new();
        numbers.push(("iat".to_owned(), self.iat));
        numbers.push(("exp".to_owned(), self.exp));
        assert(texts_view(texts@) =~= claim_texts(self@));
        assert(numbers_view(numbers@) =~= claim_numbers(self@));
        proof {
            lemma_claim_names(self@);
        }
        match sign_hs256(&texts, &numbers, secret) {
            Ok(signed) => Ok(signed),
            Err(_) => Err(TokenError::Signing),
        }
    }
}

/// The names of the members that a token carries for claims can be written: they differ
/// from each other and none is reserved.
pub proof fn lemma_claim_names(claims: ClaimsView)
    ensures
        writable_names(names_of(claim_texts(claims)) + names_of(claim_numbers(claims))),
{
    reveal_strlit("sub");
    reveal_strlit("sid");
    reveal_strlit("iat");
    reveal_strlit("exp");
    assert("sub"@[1] != "sid"@[1]);
    assert("sub"@[0] != "iat"@[0]);
    assert("sub"@[0] != "exp"@[0]);
    assert("sid"@[0] != "iat"@[0]);
    assert("sid"@[0] != "exp"@[0]);
    assert("iat"@[0] != "exp"@[0]);
    let names = names_of(claim_texts(claims)) + names_of(claim_numbers(claims));
    match claims.sid {
        Some(_) => {
            assert(names =~= seq!["sub"@, "sid"@, "iat"@, "exp"@]);
        },
        None => {
            assert(names =~= seq!["sub"@, "iat"@, "exp"@]);
        },
    }
    lemma_writable_names(names);
}

/// The four names of the members of claims are distinct, so the claims that a token is
/// made for are the claims that are read from it.
pub proof fn lemma_claims_read_back(claims: ClaimsView)
    ensures
        claims_of(claim_members(claim_texts(claims), claim_numbers(claims))) == Some(claims),
{
    reveal_strlit("sub");
    reveal_strlit("sid");
    reveal_strlit("iat");
    reveal_strlit("exp");
    assert("sub"@ != "sid"@) by {
        assert("sub"@[1] != "sid"@[1]);
    }
    assert("sub"@ != "iat"@) by {
        assert("sub"@[0] != "iat"@[0]);
    }
    assert("sub"@ != "exp"@) by {
        assert("sub"@[0] != "exp"@[0]);
    }
    assert("sid"@ != "iat"@) by {
        assert("sid"@[0] != "iat"@[0]);
    }
    assert("sid"@ != "exp"@);
    assert("iat"@ != "exp"@);
    let texts = claim_texts(claims);
    let numbers = claim_numbers(claims);
    let one = numbers.drop_last();
    assert(claim_members(texts, one.drop_last()) == members_of(texts));
    assert(claim_members(texts, one) == members_of(texts).insert(
        "iat"@,
        JsonItem::Unsigned(claims.iat),
    ));
    assert(claim_members(texts, numbers) == claim_members(texts, one).insert(
        "exp"@,
        JsonItem::Unsigned(claims.exp),
    ));
    match claims.sid {
        Some(session) => {
            let first = texts.drop_last();
            assert(first.drop_last().len() == 0);
            assert(members_of(first.drop_last()) == Map::<Seq<char>, JsonItem>::empty());
            assert(members_of(first) == Map::<Seq<char>, JsonItem>::empty().insert(
                "sub"@,
                JsonItem::Text(claims.sub),
            ));
        },
        None => {
            assert(members_of(texts.drop_last()) == Map::<Seq<char>, JsonItem>::empty());
            assert(members_of(texts) == Map::<Seq<char>, JsonItem>::empty().insert(
                "sub"@,
                JsonItem::Text(claims.sub),
            ));
        },
    }
}

/// A token that was made for claims and is accepted under the secret it was signed with
/// is accepted with those claims: where the claims that `token` carries under `secret`
/// are the members written for `claims`, nothing else can come of verifying it.
pub proof fn lemma_accepted_token_carries_its_claims(
    claims: ClaimsView,
    token: Seq<char>,
    secret: Seq<u8>,
)
    ensures
        token_claims(token, secret) == Some(
            claim_members(claim_texts(claims), claim_numbers(claims)),
        ) ==> verified_claims(token, secret) == Some(claims),
{
    lemma_claims_read_back(claims);
}

/// The token that `create_token` makes, where it makes one.
pub open spec fn created_token(
    user_id: Seq<char>,
    session_id: Option<Seq<char>>,
    secret: Seq<u8>,
    expiration: u64,
    now: u64,
) -> Option<Seq<char>> {
    let claims = ClaimsView {
        sub: user_id,
        sid: session_id,
        iat: now,
        exp: (now + expiration) as u64,
    };
    hs256_token(claim_texts(claims), claim_numbers(claims), secret)
}

/// Creates a token for `user_id`, bound to `session_id` where one is given, issued at
/// `now` and valid for `expiration` seconds, both in seconds since the epoch, and signed
/// under `secret`.
pub fn create_token(
    user_id: &str,
    session_id: Option<&str>,
    secret: &[u8],
    expiration: u64,
    now: u64,
) -> (token: Result<String, TokenError>)
    ensures
        match token {
            Ok(signed) => {
                &&& now + expiration <= u64::MAX
                &&& created_token(
                    user_id@,
                    match session_id {
                        Some(session) => Some(session@),
                        None => None,
                    },
                    secret@,
                    expiration,
                    now,
                ) == Some(signed@)
                &&& verified_claims(signed@, secret@) == Some(
                    ClaimsView {
                        sub: user_id@,
                        sid: match session_id {
                            Some(session) => Some(session@),
                            None => None,
                        },
                        iat: now,
                        exp: (now + expiration) as u64,
                    },
                )
            },
            Err(error) => if now + expiration > u64::MAX {
                error == TokenError::ExpiryOutOfRange
            } else {
                error == TokenError::Signing && created_token(
                    user_id@,
                    match session_id {
                        Some(session) => Some(session@),
                        None => None,
                    },
                    secret@,
                    expiration,
                    now,
                ) is None
            },
        },
{
    match Claims::issue(user_id, session_id, now, expiration) {
        Some(claims) => {
            proof {
                lemma_claims_read_back(claims@);
            }
            claims.sign(secret)
        },
        None => Err(TokenError::ExpiryOutOfRange),
    }
}

/// What claims can come of verifying `token` under `secret`: those that the token carries,
/// where it is signed with the secret and its claims are those of this library.
pub open spec fn verified_claims(token: Seq<char>, secret: Seq<u8>) -> Option<ClaimsView> {
    match token_claims(token, secret) {
        Some(members) => claims_of(members),
        None => None,
    }
}

/// Verifies a token under `secret` and reads its claims. The token is rejected where it
/// has not the shape of a token, is not signed with the secret or has expired; the claims
/// of a token that is not rejected are read as [`Claims::from_json`] reads them.
pub fn validate_token(token: &str, secret: &[u8]) -> (claims: Result<Claims, TokenError>)
    ensures
        match claims {
            Ok(accepted) => verified_claims(token@, secret@) == Some(accepted@),
            Err(error) => {
                &&& error == TokenError::Rejected || error == TokenError::UnexpectedClaims
                &&& error == TokenError::UnexpectedClaims ==> token_claims(token@, secret@) is Some
                    && verified_claims(token@, secret@) is None
            },
        },
{
    match decode_hs256(token, secret) {
        Ok(value) => match Claims::from_json(&value) {
            Some(claims) => Ok(claims),
            None => Err(TokenError::UnexpectedClaims),
        },
        Err(_) => Err(TokenError::Rejected),
    }
}

/// The scheme that an authorization header names before a bearer token.
pub open spec fn bearer_scheme() -> Seq<char> {
    "Bearer "@
}

/// The token of an authorization header: what follows the scheme `Bearer` and one space.
pub open spec fn bearer_token(auth_header: Seq<char>) -> Option<Seq<char>> {
    if bearer_scheme().is_prefix_of(auth_header) {
        Some(auth_header.skip(bearer_scheme().len() as int))
    } else {
        None
    }
}

/// Extracts the token from an authorization header of the form `Bearer <token>`.
pub fn extract_token(auth_header: &str) -> (token: Option<&str>)
    ensures
        match token {
            Some(found) => bearer_token(auth_header@) == Some(found@),
            None => bearer_token(auth_header@) is None,
        },
{
    let chars = to_chars(auth_header);
    match match_prefix(&chars, "Bearer ") {
        Some(len) => Some(auth_header.substring_char(len, chars.len())),
        None => None,
    }
}

} // verus!
