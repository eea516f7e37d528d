//! Every way a call to the API can fail, from the client's point of view, and how a
//! failure is put to a person.
use vstd::prelude::*;
use vstd::string::*;

use crate::text::{concat, decimal, render_u128};

verus! {

broadcast use vstd::string::group_string_axioms;

/// The category of a [`ClientError`], without its message.
#[derive(Debug, Clone, Copy, PartialEq, Eq, Structural)]
pub enum ErrorKind {
    BadRequest,
    Unauthenticated,
    Forbidden,
    NotFound,
    Conflict,
    Server,
    Network,
    Decode,
}

/// The `{"status","message"}` body the server attaches to a failure.
///
/// The server's first version typed `status` as a string, so it is kept as text; only the
/// HTTP status of the response decides the category.
#[derive(Debug, Clone, PartialEq, Eq)]
pub struct ErrorResponse {
    pub status: String,
    pub message: String,
}

impl ErrorResponse {
    /// A body for `status` carrying `message`.
    pub fn new(status: u16, message: &str) -> (r: ErrorResponse)
        ensures
            r.status@ == decimal(status as nat),
            r.message@ == message@,
    {
        ErrorResponse { status: render_u128(status as u128), message: message.to_owned() }
    }
}

/// Every way a call to the API can fail.
///
/// The first six variants mirror the server's own error categories one-for-one. The last
/// two have no server-side counterpart: they are the failure modes of the wire itself.
#[derive(Debug, Clone, PartialEq, Eq)]
pub enum ClientError {
    BadRequest(String),
    Unauthenticated(String),
    Forbidden(String),
    NotFound(String),
    Conflict(String),
    Server(String),
    /// The request never produced a response: offline, DNS, CORS, TLS.
    Network(String),
    /// A response arrived but did not match the contract.
    Decode(String),
}

impl View for ClientError {
    type V = (ErrorKind, Seq<char>);

    open spec fn view(&self) -> (ErrorKind, Seq<char>) {
        match self {
            ClientError::BadRequest(m) => (ErrorKind::BadRequest, m@),
            ClientError::Unauthenticated(m) => (ErrorKind::Unauthenticated, m@),
            ClientError::Forbidden(m) => (ErrorKind::Forbidden, m@),
            ClientError::NotFound(m) => (ErrorKind::NotFound, m@),
            ClientError::Conflict(m) => (ErrorKind::Conflict, m@),
            ClientError::Server(m) => (ErrorKind::Server, m@),
            ClientError::Network(m) => (ErrorKind::Network, m@),
            ClientError::Decode(m) => (ErrorKind::Decode, m@),
        }
    }
}

/// The category an HTTP status lands in; anything unrecognised is a server fault.
pub open spec fn status_kind(status: u16) -> ErrorKind {
    if status == 400 {
        ErrorKind::BadRequest
    } else if status == 401 {
        ErrorKind::Unauthenticated
    } else if status == 403 {
        ErrorKind::Forbidden
    } else if status == 404 {
        ErrorKind::NotFound
    } else if status == 409 {
        ErrorKind::Conflict
    } else {
        ErrorKind::Server
    }
}

/// Each category answers exactly its own status: 400 is a bad request, 401 unauthenticated,
/// 403 forbidden, 404 not found and 409 a conflict, and every other status (every 5xx, and
/// anything unrecognised) is a server fault. No status is a network or decode failure.
pub proof fn lemma_each_category_has_its_status(status: u16)
    ensures
        (status_kind(status) == ErrorKind::BadRequest) <==> status == 400,
        (status_kind(status) == ErrorKind::Unauthenticated) <==> status == 401,
        (status_kind(status) == ErrorKind::Forbidden) <==> status == 403,
        (status_kind(status) == ErrorKind::NotFound) <==> status == 404,
        (status_kind(status) == ErrorKind::Conflict) <==> status == 409,
        (status_kind(status) == ErrorKind::Server) <==> (status != 400 && status != 401 && status
            != 403 && status != 404 && status != 409),
        status_kind(status) != ErrorKind::Network,
        status_kind(status) != ErrorKind::Decode,
{
}

/// The message a failure carries when no contract-shaped body came with it.
pub open spec fn fallback_message(status: u16) -> Seq<char> {
    "Request failed with status "@ + decimal(status as nat)
}

/// The error of category `kind` carrying `message`.
pub fn error_of(kind: ErrorKind, message: String) -> (r: ClientError)
    ensures
        r@ == (kind, message@),
{
    match kind {
        ErrorKind::BadRequest => ClientError::BadRequest(message),
        ErrorKind::Unauthenticated => ClientError::Unauthenticated(message),
        ErrorKind::Forbidden => ClientError::Forbidden(message),
        ErrorKind::NotFound => ClientError::NotFound(message),
        ErrorKind::Conflict => ClientError::Conflict(message),
        ErrorKind::Server => ClientError::Server(message),
        ErrorKind::Network => ClientError::Network(message),
        ErrorKind::Decode => ClientError::Decode(message),
    }
}

/// A `BadRequest` carrying `message`.
pub fn bad_request(message: &str) -> (r: ClientError)
    ensures
        r@ == (ErrorKind::BadRequest, message@),
{
    ClientError::BadRequest(message.to_owned())
}

impl ClientError {
    /// Maps an HTTP status and a parsed `{"status","message"}` body onto a category.
    ///
    /// The body is optional because a proxy, a CORS failure or a panicking server can
    /// produce a status with no contract-shaped body at all. Falling back to a generic
    /// message keeps the category correct even then.
    pub fn from_status(status: u16, body: Option<ErrorResponse>) -> (r: ClientError)
        ensures
            r@.0 == status_kind(status),
            (r@.0 == ErrorKind::NotFound) <==> status == 404,
            (r@.0 == ErrorKind::Server) <==> (status != 400 && status != 401 && status != 403
                && status != 404 && status != 409),
            r@.1 == match body {
                Some(b) => b.message@,
                None => fallback_message(status),
            },
    {
        let message = match body {
            Some(b) => b.message,
            None => {
                let digits = render_u128(status as u128);
                concat("Request failed with status ", digits.as_str())
            },
        };
        let kind = if status == 400 {
            ErrorKind::BadRequest
        } else if status == 401 {
            ErrorKind::Unauthenticated
        } else if status == 403 {
            ErrorKind::Forbidden
        } else if status == 404 {
            ErrorKind::NotFound
        } else if status == 409 {
            ErrorKind::Conflict
        } else {
            ErrorKind::Server
        };
        error_of(kind, message)
    }

    /// The message, whatever the category.
    pub fn message(&self) -> (r: &str)
        ensures
            r@ == self@.1,
    {
        match self {
            ClientError::BadRequest(m) => m.as_str(),
            ClientError::Unauthenticated(m) => m.as_str(),
            ClientError::Forbidden(m) => m.as_str(),
            ClientError::NotFound(m) => m.as_str(),
            ClientError::Conflict(m) => m.as_str(),
            ClientError::Server(m) => m.as_str(),
            ClientError::Network(m) => m.as_str(),
            ClientError::Decode(m) => m.as_str(),
        }
    }

    /// Whether this failure should end the session: only an `Unauthenticated` one does.
    pub fn is_unauthenticated(&self) -> (r: bool)
        ensures
            r == (self@.0 == ErrorKind::Unauthenticated),
    {
        match self {
            ClientError::Unauthenticated(_) => true,
            _ => false,
        }
    }
}

/// Shown when an action needs a session and there is none.
pub const NOT_SIGNED_IN: &'static str = "You are not signed in";

/// What a person is shown for `error`.
///
/// Transport failures are the client's problem, not the user's, so they are reworded;
/// a conflict says what to do about it. Everything else is the server's own wording,
/// which is already user-facing, and is passed through untouched.
pub open spec fn description(error: (ErrorKind, Seq<char>)) -> Seq<char> {
    match error.0 {
        ErrorKind::Network => "Could not reach the server. Check your connection."@,
        ErrorKind::Decode => "The server sent an unexpected response."@,
        ErrorKind::Conflict => "That is already in use, or already exists."@,
        _ => error.1,
    }
}

/// Turns a failure into something worth showing a person.
pub fn describe(error: &ClientError) -> (r: String)
    ensures
        r@ == description(error@),
{
    match error {
        ClientError::Network(_) => "Could not reach the server. Check your connection.".to_owned(),
        ClientError::Decode(_) => "The server sent an unexpected response.".to_owned(),
        ClientError::Conflict(_) => "That is already in use, or already exists.".to_owned(),
        other => other.message().to_owned(),
    }
}

/// Whether a failed response ends the session.
///
/// Only a 401 to a request that carried a token does. A 401 from the login route means
/// the password was wrong, not that a session lapsed.
pub fn is_session_expiry(status: u16, token_was_sent: bool) -> (r: bool)
    ensures
        r == (status == 401 && token_was_sent),
{
    status == 401 && token_was_sent
}

} // verus!
