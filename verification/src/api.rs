//! The decisions of the HTTP and WebSocket front ends: routing, required parameters, and
//! the errors they answer with.

use vstd::prelude::*;
use crate::keyed::str_eq;
use crate::text::{chars_of, split_chars, split_spec, string_of, parse_u64, parse_u64_spec};

verus! {

/// A user as the API shows it.
#[derive(Debug)]
pub struct User {
    pub id: u64,
    pub email: Option<String>,
    pub xpub: Option<String>,
}

/// An error answer: an HTTP status and a message.
#[derive(Debug)]
pub struct ApiError {
    pub status: u16,
    pub message: String,
}

/// Whether `e` has the status `status` and the message `message`.
pub open spec fn error_is(e: ApiError, status: u16, message: Seq<char>) -> bool {
    e.status == status && e.message@ == message
}

/// A "400 Bad Request" answer with `message`.
pub fn bad_request(message: &str) -> (e: ApiError)
    ensures
        error_is(e, 400, message@),
{
    ApiError { status: 400, message: String::from_str(message) }
}

/// A "500 Internal Server Error" answer with `message`.
pub fn internal_error(message: String) -> (e: ApiError)
    ensures
        e.status == 500,
        e.message == message,
{
    ApiError { status: 500, message }
}

/// The methods the API offers.
#[derive(Debug, Clone, Copy, PartialEq, Eq, Structural)]
pub enum Api {
    UserQuery,
    WalletQueryById,
}

/// The method that a request names: `user.query` or `wallet.queryById`; a request that
/// names none is refused with "method is required", one that names another with
/// "api not found".
pub fn route(method: Option<&str>) -> (r: Result<Api, ApiError>)
    ensures
        match method {
            None => r matches Err(e) && error_is(e, 400, "method is required"@),
            Some(m) => if m@ == "user.query"@ {
                r == Ok::<Api, ApiError>(Api::UserQuery)
            } else if m@ == "wallet.queryById"@ {
                r == Ok::<Api, ApiError>(Api::WalletQueryById)
            } else {
                r matches Err(e) && error_is(e, 400, "api not found"@)
            },
        },
{
    match method {
        None => Err(bad_request("method is required")),
        Some(m) => {
            if str_eq(m, "user.query") {
                Ok(Api::UserQuery)
            } else if str_eq(m, "wallet.queryById") {
                Ok(Api::WalletQueryById)
            } else {
                Err(bad_request("api not found"))
            }
        },
    }
}

/// The parameters of a request, or an answer with `missing` when there are none.
pub fn require_params(params: Option<String>, missing: &str) -> (r: Result<String, ApiError>)
    ensures
        match params {
            Some(p) => r == Ok::<String, ApiError>(p),
            None => r matches Err(e) && error_is(e, 400, missing@),
        },
{
    match params {
        Some(p) => Ok(p),
        None => Err(bad_request(missing)),
    }
}

/// The parameters of `user.query`.
pub fn user_query_params(params: Option<String>) -> (r: Result<String, ApiError>)
    ensures
        match params {
            Some(p) => r == Ok::<String, ApiError>(p),
            None => r matches Err(e) && error_is(e, 400, "params is required"@),
        },
{
    require_params(params, "params is required")
}

/// The parameters of `wallet.queryById`.
pub fn wallet_query_params(params: Option<String>) -> (r: Result<String, ApiError>)
    ensures
        match params {
            Some(p) => r == Ok::<String, ApiError>(p),
            None => r matches Err(e) && error_is(e, 400, "method is required"@),
        },
{
    require_params(params, "method is required")
}

/// The user id that `user.query` asks for, or "id is required".
pub fn user_query_id(id: Option<u64>) -> (r: Result<u64, ApiError>)
    ensures
        match id {
            Some(i) => r == Ok::<u64, ApiError>(i),
            None => r matches Err(e) && error_is(e, 400, "id is required"@),
        },
{
    match id {
        Some(i) => Ok(i),
        None => Err(bad_request("id is required")),
    }
}

/// The wallet id that `wallet.queryById` asks for, or "wid is required".
pub fn wallet_query_id(wid: Option<u64>) -> (r: Result<u64, ApiError>)
    ensures
        match wid {
            Some(i) => r == Ok::<u64, ApiError>(i),
            None => r matches Err(e) && error_is(e, 400, "wid is required"@),
        },
{
    match wid {
        Some(i) => Ok(i),
        None => Err(bad_request("wid is required")),
    }
}

/// The two parts of a session token `uid:rest`, or "Invalid token" when the token does
/// not have exactly two parts.
pub fn split_token(token: &str) -> (r: Result<(String, String), ApiError>)
    ensures
        split_spec(token@, ':').len() == 2 ==> (r matches Ok(p) && p.0@ == split_spec(
            token@,
            ':',
        )[0] && p.1@ == split_spec(token@, ':')[1]),
        split_spec(token@, ':').len() != 2 ==> (r matches Err(e) && error_is(
            e,
            400,
            "Invalid token"@,
        )),
{
    let v = chars_of(token);
    let parts = split_chars(v.as_slice(), ':');
    if parts.len() != 2 {
        return Err(bad_request("Invalid token"));
    }
    Ok((string_of(parts[0].as_slice()), string_of(parts[1].as_slice())))
}

/// Whether the user id of a well-formed session token reads as a number.
pub open spec fn token_uid_reads(token: Seq<char>) -> bool {
    split_spec(token, ':').len() == 2 ==> parse_u64_spec(split_spec(token, ':')[0]) is Some
}

/// Whether the user id of a well-formed session token reads as a number.
pub fn token_uid_parses(token: &str) -> (b: bool)
    ensures
        b == token_uid_reads(token@),
{
    match split_token(token) {
        Ok((uid, _)) => parse_u64(uid.as_str()).is_some(),
        Err(_) => true,
    }
}

/// The user id of a session token: "Invalid token" when the token does not have exactly
/// two parts, the number its first part spells otherwise.
pub fn session_uid(token: &str) -> (r: Result<u64, ApiError>)
    requires
        token_uid_reads(token@),
    ensures
        split_spec(token@, ':').len() == 2 ==> r == Ok::<u64, ApiError>(
            parse_u64_spec(split_spec(token@, ':')[0])->Some_0,
        ),
        split_spec(token@, ':').len() != 2 ==> (r matches Err(e) && error_is(
            e,
            400,
            "Invalid token"@,
        )),
{
    match split_token(token) {
        Ok((uid, _)) => match parse_u64(uid.as_str()) {
            Some(n) => Ok(n),
            None => {
                assert(false);
                Err(bad_request("Invalid token"))
            },
        },
        Err(e) => Err(e),
    }
}

/// The kinds of WebSocket messages.
#[derive(Debug, Clone, Copy, PartialEq, Eq, Structural)]
pub enum MessageKind {
    Text,
    Binary,
    Ping,
    Pong,
    Close,
    Frame,
}

/// Whether the echo server sends a message of kind `kind` back: text and binary
/// messages are echoed, control messages are not.
pub fn echoes(kind: MessageKind) -> (b: bool)
    ensures
        b <==> (kind == MessageKind::Text || kind == MessageKind::Binary),
{
    match kind {
        MessageKind::Text => true,
        MessageKind::Binary => true,
        _ => false,
    }
}

/// The endpoint of the configuration service: the configured one, `acm.aliyun.com`
/// when none is configured.
pub fn acm_endpoint(configured: Option<String>) -> (r: String)
    ensures
        match configured {
            Some(e) => r == e,
            None => r@ == "acm.aliyun.com"@,
        },
{
    match configured {
        Some(e) => e,
        None => String::from_str("acm.aliyun.com"),
    }
}

} // verus!
