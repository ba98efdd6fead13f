//! Room tokens: signed claims that let a client connect to its room and
//! come back to it as the same player, and the errors of the room API.
use vstd::prelude::*;
use vstd::string::StringExecFns;
use crate::ids::{ClientId, RoomId};
use crate::messages::Claims;
use crate::room::opt_view;
use crate::text::owned;

verus! {

/// The secret that signs room tokens.
pub const TOKEN_SECRET: &'static str = "secret";

/// Name of the cookie that carries the room token.
pub const ROOM_TOKEN_COOKIE: &'static str = "room_token";

/// The error of jsonwebtoken.
#[verifier::external_type_specification]
#[verifier::external_body]
pub struct ExJwtError(jsonwebtoken::errors::Error);

/// The HS256 token that jsonwebtoken writes, with the default header, for
/// the claims `{"sub": sub, "room_id": room_id}` signed with `secret`.
pub uninterp spec fn jwt_hs256(secret: Seq<char>, sub: Seq<char>, room_id: Seq<char>) -> Seq<char>;

/// Signs the claims `{"sub": sub, "room_id": room_id}` into a token.
/// Trusted: `jsonwebtoken::encode` (9.3) with `Header::default()` (HS256)
/// and `EncodingKey::from_secret(secret)`; the claims are handed over as a
/// JSON object whose keys keep this order. The contract says that a token
/// comes back, and that it is the one named by `jwt_hs256` for these
/// arguments: `encode` fails only when the key's family differs from the
/// header's algorithm (both HMAC here), serialising a map of strings cannot
/// fail, and HS256 signing always succeeds.
#[verifier::external_body]
fn jwt_encode(secret: &str, sub: &str, room_id: &str) -> (r: Result<String, jsonwebtoken::errors::Error>)
    ensures
        r is Ok,
        r matches Ok(t) ==> t@ == jwt_hs256(secret@, sub@, room_id@),
{
    let mut claims = serde_json::Map::new();
    claims.insert("sub".to_string(), serde_json::Value::String(sub.to_string()));
    claims.insert("room_id".to_string(), serde_json::Value::String(room_id.to_string()));
    jsonwebtoken::encode(
        &jsonwebtoken::Header::default(),
        &claims,
        &jsonwebtoken::EncodingKey::from_secret(secret.as_bytes()),
    )
}

/// What jsonwebtoken makes of `token` under `secret` (HS256, expiry
/// checking off, no claim required): `None` when it refuses the token,
/// else its `sub` and `room_id` claims, each `None` when absent or not a
/// string.
pub uninterp spec fn jwt_claims(secret: Seq<char>, token: Seq<char>) -> Option<(Option<Seq<char>>, Option<Seq<char>>)>;

/// Checks the signature of `token` and reads its `sub` and `room_id` claims
/// (each `None` when absent or not a string).
/// Trusted: `jsonwebtoken::decode` (9.3) with
/// `DecodingKey::from_secret(secret)` and `Validation::default()` (HS256)
/// with expiry checking off and no claim required. The contract says that a
/// token that `jwt_encode` wrote with the same secret is accepted and gives
/// back the claims it was written with: the signature matches, the header
/// names HS256, and with expiry and not-before checking off and no audience
/// or issuer asked for, no other check applies. For any token, the result
/// is the one named by `jwt_claims` for these arguments: with expiry and
/// not-before checking off, decoding reads no clock, so it depends on the
/// secret and the token alone.
#[verifier::external_body]
fn jwt_decode(secret: &str, token: &str) -> (r: Result<(Option<String>, Option<String>), jsonwebtoken::errors::Error>)
    ensures
        r is Ok <==> jwt_claims(secret@, token@) is Some,
        r matches Ok(c) ==> jwt_claims(secret@, token@) == Some((opt_view(c.0), opt_view(c.1))),
        forall|sub: Seq<char>, room_id: Seq<char>| token@ == #[trigger] jwt_hs256(secret@, sub, room_id) ==> r is Ok && opt_view(r->Ok_0.0) == Some(sub) && opt_view(r->Ok_0.1) == Some(room_id),
{
    let mut validation = jsonwebtoken::Validation::default();
    validation.validate_exp = false;
    validation.required_spec_claims.remove("exp");
    let data = jsonwebtoken::decode::<serde_json::Map<String, serde_json::Value>>(
        token,
        &jsonwebtoken::DecodingKey::from_secret(secret.as_bytes()),
        &validation,
    )?;
    let sub = data.claims.get("sub").and_then(|v| v.as_str()).map(|s| s.to_string());
    let room_id = data.claims.get("room_id").and_then(|v| v.as_str()).map(|s| s.to_string());
    Ok((sub, room_id))
}

/// Errors of the room API.
#[derive(Debug)]
pub enum AuthError {
    TokenCreation,
    InvalidToken,
    MissingToken,
    NotFound(String),
}

/// The HTTP status and message an error is answered with.
pub open spec fn error_answer(e: AuthError) -> (u16, Seq<char>) {
    match e {
        AuthError::TokenCreation => (500, "Token creation error"@),
        AuthError::InvalidToken => (400, "Invalid token"@),
        AuthError::MissingToken => (401, "Missing token"@),
        AuthError::NotFound(msg) => (404, msg@),
    }
}

impl AuthError {
    /// The HTTP status and the message of the answer to this error; the
    /// answer's body is `{"error": message}`.
    pub fn status_and_message(self) -> (r: (u16, String))
        ensures
            (r.0, r.1@) == error_answer(self),
    {
        match self {
            AuthError::TokenCreation => (500, owned("Token creation error")),
            AuthError::InvalidToken => (400, owned("Invalid token")),
            AuthError::MissingToken => (401, owned("Missing token")),
            AuthError::NotFound(msg) => (404, msg),
        }
    }
}

/// The result of signing claims, with a signing failure turned into
/// `TokenCreation`.
pub fn token_or_error(r: Result<String, jsonwebtoken::errors::Error>) -> (t: Result<String, AuthError>)
    ensures
        r matches Ok(s) ==> (t matches Ok(u) && u@ == s@),
        r is Err ==> (t matches Err(e) && e is TokenCreation),
{
    match r {
        Ok(s) => Ok(s),
        Err(_) => Err(AuthError::TokenCreation),
    }
}

/// Signs `claims` into a room token.
pub fn create_token(claims: &Claims) -> (r: Result<String, AuthError>)
    ensures
        r matches Ok(t) && t@ == jwt_hs256(TOKEN_SECRET@, claims.sub@, claims.room_id@),
{
    let encoded = jwt_encode(TOKEN_SECRET, claims.sub.as_str(), claims.room_id.0.as_str());
    token_or_error(encoded)
}

/// The claims of a request whose room token checked out.
#[derive(Debug)]
pub struct RoomToken(pub Claims);

/// Whether what jsonwebtoken made of a token holds both claims.
pub open spec fn claims_complete(c: Option<(Option<Seq<char>>, Option<Seq<char>>)>) -> bool {
    c matches Some((Some(_), Some(_)))
}

impl RoomToken {
    /// The room token made of what decoding a token gave: its claims when
    /// the token checked out and holds both, else `InvalidToken`.
    pub fn from_decoded(decoded: Result<(Option<String>, Option<String>), jsonwebtoken::errors::Error>) -> (r: Result<RoomToken, AuthError>)
        ensures
            match decoded {
                Ok((Some(sub), Some(room_id))) => r matches Ok(t) && t.0.sub@ == sub@ && t.0.room_id@ == room_id@,
                _ => r matches Err(e) && e is InvalidToken,
            },
    {
        match decoded {
            Ok((Some(sub), Some(room_id))) => Ok(
                RoomToken(Claims { sub: ClientId::from_string(sub), room_id: RoomId(room_id) }),
            ),
            _ => Err(AuthError::InvalidToken),
        }
    }

    /// Reads the room token of a request from the value of its `room_token`
    /// cookie: `MissingToken` without the cookie, `InvalidToken` when the
    /// token does not check out or lacks a claim, else its claims.
    pub fn from_cookie(cookie: Option<&str>) -> (r: Result<RoomToken, AuthError>)
        ensures
            cookie is None ==> (r matches Err(e) && e is MissingToken),
            cookie matches Some(token) ==> {
                &&& r is Ok <==> claims_complete(jwt_claims(TOKEN_SECRET@, token@))
                &&& r matches Err(e) ==> e is InvalidToken
                &&& r matches Ok(t) ==> jwt_claims(TOKEN_SECRET@, token@) == Some(
                    (Some(t.0.sub@), Some(t.0.room_id@)),
                )
            },
            cookie matches Some(token) ==> forall|sub: Seq<char>, room_id: Seq<char>|
                token@ == #[trigger] jwt_hs256(TOKEN_SECRET@, sub, room_id) ==> (r matches Ok(t)
                    && t.0.sub@ == sub && t.0.room_id@ == room_id),
    {
        match cookie {
            None => Err(AuthError::MissingToken),
            Some(token) => RoomToken::from_decoded(jwt_decode(TOKEN_SECRET, token)),
        }
    }
}

/// Name of the header that could carry a room token instead of the cookie.
pub const ROOM_TOKEN_HEADER: &'static str = "room-token";

/// A room token read from the `room-token` header.
#[derive(Debug, Clone, PartialEq)]
pub struct RoomTokenHeader(pub String);

impl RoomTokenHeader {
    /// Reads the header from its first value: `first` is `None` when the
    /// header is absent and `Some(None)` when its value is not visible
    /// ASCII; both are invalid.
    pub fn decode(first: Option<Option<&str>>) -> (r: Option<RoomTokenHeader>)
        ensures
            match first {
                Some(Some(v)) => r matches Some(h) && h.0@ == v@,
                _ => r is None,
            },
    {
        match first {
            Some(Some(v)) => Some(RoomTokenHeader(owned(v))),
            _ => None,
        }
    }
}

/// The message of the answer to a join request for a room that does not
/// exist.
pub open spec fn room_not_found_message(room_id: Seq<char>) -> Seq<char> {
    "Room "@ + room_id + " not found"@
}

/// Builds that message.
pub fn room_not_found(room_id: &RoomId) -> (m: String)
    ensures
        m@ == room_not_found_message(room_id@),
{
    let mut m = owned("Room ");
    m.append(room_id.0.as_str());
    m.append(" not found");
    m
}

} // verus!
