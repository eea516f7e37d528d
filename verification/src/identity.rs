//! Identity decisions: what starting a session, registering and administering an account
//! check before anything is sent.
//!
//! The server's policy is duplicated here so the UI refuses what it would refuse. The
//! duplication is one-directional: the server remains the authority.
use vstd::prelude::*;

use crate::dto::{LoginRequest, RegisterRequest};
use crate::error::{bad_request, ClientError, ErrorKind};
use crate::events::{ClientEvent, EventView};
use crate::session::{may_act, session_started, Session};
use crate::text::{concat, decimal, is_blank, render_u128, trim, trimmed};

verus! {

/// The shortest password the server accepts. Checked here only to save a round trip on an
/// obviously bad one; the server still enforces it.
pub const PASSWORD_MIN_LEN: usize = 8;

/// The two name fields an account exposes for editing.
#[derive(Debug, Clone, Copy, PartialEq, Eq, Structural)]
pub enum NameField {
    First,
    Last,
}

impl NameField {
    /// The query parameter and the JSON body key: the server expects the same spelling for
    /// both.
    pub fn key(self) -> (r: &'static str)
        ensures
            r@ == match self {
                NameField::First => "firstName"@,
                NameField::Last => "lastName"@,
            },
    {
        match self {
            NameField::First => "firstName",
            NameField::Last => "lastName",
        }
    }

    pub fn label(self) -> (r: &'static str)
        ensures
            r@ == field_label(self),
    {
        match self {
            NameField::First => "First name",
            NameField::Last => "Last name",
        }
    }

    /// Both fields.
    pub fn all() -> (r: [NameField; 2])
        ensures
            r@ == seq![NameField::First, NameField::Last],
    {
        let r = [NameField::First, NameField::Last];
        assert(r@ =~= seq![NameField::First, NameField::Last]);
        r
    }
}

/// How a field is named to a person.
pub open spec fn field_label(field: NameField) -> Seq<char> {
    match field {
        NameField::First => "First name"@,
        NameField::Last => "Last name"@,
    }
}

/// What a login sends: the trimmed login and the password exactly as typed. Either left
/// empty (the login counting as empty when it is only white space) never reaches the
/// network.
pub fn login_request(login: &str, password: &str) -> (r: Result<LoginRequest, ClientError>)
    ensures
        is_blank(login@) || password@.len() == 0 ==> (r matches Err(e) && e@ == (
            ErrorKind::BadRequest,
            "Login and password are required"@,
        )),
        !is_blank(login@) && password@.len() > 0 ==> (r matches Ok(q) && q.login@ == trim(login@)
            && q.password@ == password@),
{
    let login = trimmed(login);
    if login.as_str().unicode_len() == 0 || password.unicode_len() == 0 {
        return Err(bad_request("Login and password are required"));
    }
    Ok(LoginRequest { login, password: password.to_owned() })
}

/// The message refusing a short password.
pub open spec fn short_password_message() -> Seq<char> {
    "Password must be at least "@ + decimal(8) + " characters"@
}

/// Refuses a registration the server would refuse: a blank login, or a password shorter than
/// [`PASSWORD_MIN_LEN`] characters.
pub fn check_registration(request: &RegisterRequest) -> (r: Result<(), ClientError>)
    ensures
        is_blank(request.login@) ==> (r matches Err(e) && e@ == (
            ErrorKind::BadRequest,
            "Login is required"@,
        )),
        !is_blank(request.login@) && request.password@.len() < 8 ==> (r matches Err(e) && e@ == (
            ErrorKind::BadRequest,
            short_password_message(),
        )),
        !is_blank(request.login@) && request.password@.len() >= 8 ==> r is Ok,
{
    let login = trimmed(request.login.as_str());
    if login.as_str().unicode_len() == 0 {
        return Err(bad_request("Login is required"));
    }
    if request.password.as_str().unicode_len() < PASSWORD_MIN_LEN {
        let n = render_u128(PASSWORD_MIN_LEN as u128);
        let a = concat("Password must be at least ", n.as_str());
        return Err(ClientError::BadRequest(concat(a.as_str(), " characters")));
    }
    Ok(())
}

/// A refusal worded as the server words it, so a client-side refusal and a server-side one
/// read alike.
pub fn forbidden(reason: &str) -> (r: ClientError)
    ensures
        r@ == (ErrorKind::Forbidden, "Not authorized. "@ + reason@),
{
    ClientError::Forbidden(concat("Not authorized. ", reason))
}

/// Listing accounts is admin-only: the server checks self-or-admin and admin, which only an
/// admin can satisfy.
pub fn authorise_listing(session: &Session) -> (r: Result<(), ClientError>)
    ensures
        r is Ok <==> session.user.admin,
        r matches Err(e) ==> e@ == (
            ErrorKind::Forbidden,
            "Not authorized. "@ + "Admin privileges required"@,
        ),
{
    if !session.is_admin() {
        return Err(forbidden("Admin privileges required"));
    }
    Ok(())
}

/// What renaming the account `login` sends: the trimmed value, once the session may act on
/// that account and the value is not blank.
pub fn plan_name_update(session: &Session, login: &str, field: NameField, value: &str) -> (r:
    Result<String, ClientError>)
    ensures
        !may_act(session.user.login@, session.user.admin, login@) ==> (r matches Err(e) && e@ == (
            ErrorKind::Forbidden,
            "Not authorized. "@ + "You can only edit your own account"@,
        )),
        may_act(session.user.login@, session.user.admin, login@) && is_blank(value@) ==> (
        r matches Err(e) && e@ == (ErrorKind::BadRequest, field_label(field) + " is required"@)),
        may_act(session.user.login@, session.user.admin, login@) && !is_blank(value@) ==> (
        r matches Ok(v) && v@ == trim(value@)),
{
    if !session.may_act_on(login) {
        return Err(forbidden("You can only edit your own account"));
    }
    let value = trimmed(value);
    if value.as_str().unicode_len() == 0 {
        return Err(ClientError::BadRequest(concat(field.label(), " is required")));
    }
    Ok(value)
}

/// Removing the account `login` is for its owner or an admin.
pub fn authorise_account_removal(session: &Session, login: &str) -> (r: Result<(), ClientError>)
    ensures
        r is Ok <==> may_act(session.user.login@, session.user.admin, login@),
        r matches Err(e) ==> e@ == (
            ErrorKind::Forbidden,
            "Not authorized. "@ + "You can only delete your own account"@,
        ),
{
    if !session.may_act_on(login) {
        return Err(forbidden("You can only delete your own account"));
    }
    Ok(())
}

/// What a login the server answered leaves behind.
pub struct LoginFinish {
    /// What the caller is told.
    pub result: Result<Session, ClientError>,
    /// The session to keep in the store, if any.
    pub keep: Option<Session>,
    /// What is announced on the bus.
    pub announce: Vec<ClientEvent>,
}

/// A login the server accepted is kept and announced; a refused one leaves no session
/// behind and announces nothing. A login that [`login_request`] refuses never reaches the
/// server, so nothing is kept or announced for it either.
pub fn finish_login(answer: Result<Session, ClientError>) -> (r: LoginFinish)
    ensures
        match answer {
            Ok(s) => {
                &&& r.result == Ok::<Session, ClientError>(s)
                &&& r.keep == Some(s)
                &&& r.announce@.len() == 1
                &&& r.announce@[0]@ == (EventView::SessionStarted {
                    login: s.user.login@,
                    admin: s.user.admin,
                })
            },
            Err(e) => {
                &&& r.result == Err::<Session, ClientError>(e)
                &&& r.keep is None
                &&& r.announce@.len() == 0
            },
        },
{
    match answer {
        Ok(session) => {
            let mut announce = Vec::new();
            announce.push(session_started(&session));
            LoginFinish { keep: Some(session.duplicate()), result: Ok(session), announce }
        },
        Err(e) => LoginFinish { result: Err(e), keep: None, announce: Vec::new() },
    }
}

/// The first step of signing in: a request to send, or, where [`login_request`] refuses the
/// credentials, a finished login that never reached the server.
pub enum LoginStart {
    /// Send this to the server, then finish with [`finish_login`].
    Send(LoginRequest),
    /// Nothing is sent.
    Done(LoginFinish),
}

/// Starts a login. Credentials that [`login_request`] refuses finish it at once: the caller
/// is told why, no session is kept and nothing is announced; otherwise the request is sent.
pub fn start_login(login: &str, password: &str) -> (r: LoginStart)
    ensures
        is_blank(login@) || password@.len() == 0 ==> (r matches LoginStart::Done(f) && f.result
            matches Err(e) && e@ == (ErrorKind::BadRequest, "Login and password are required"@)
            && f.keep is None && f.announce@.len() == 0),
        !is_blank(login@) && password@.len() > 0 ==> (r matches LoginStart::Send(q) && q.login@
            == trim(login@) && q.password@ == password@),
{
    match login_request(login, password) {
        Ok(q) => LoginStart::Send(q),
        Err(e) => LoginStart::Done(LoginFinish { result: Err(e), keep: None, announce: Vec::new() }),
    }
}

/// Why a session ends here.
#[derive(Debug, Clone, Copy, PartialEq, Eq, Structural)]
pub enum SignOut {
    /// The user signed out.
    ByUser,
    /// The server answered 401 to a request that carried the token.
    Expired,
}

/// What ending a session announces; the stored session is cleared either way. A sign-out
/// the user asked for announces that the session ended. An expiry announces nothing: the
/// transport announced it already, and announcing it again from its own handler would loop.
pub fn sign_out_announcements(reason: SignOut) -> (r: Vec<ClientEvent>)
    ensures
        reason == SignOut::ByUser ==> r@.len() == 1 && r@[0]@ == EventView::SessionEnded,
        reason == SignOut::Expired ==> r@.len() == 0,
{
    let mut r = Vec::new();
    if reason == SignOut::ByUser {
        r.push(ClientEvent::SessionEnded);
    }
    r
}

/// Whether removing the account `removed` signs this client out: only when it is the
/// account signed in here.
pub fn signs_out_after_removal(session: Option<&Session>, removed: &str) -> (r: bool)
    ensures
        r == (session matches Some(s) && s.user.login@ == removed@),
{
    match session {
        Some(s) => crate::text::same_text(s.login(), removed),
        None => false,
    }
}

} // verus!
