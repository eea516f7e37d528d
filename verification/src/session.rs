//! The authenticated identity, as far as the client is concerned.
//!
//! The token is opaque here: claims are never parsed client-side, because a client-parsed
//! claim is a client-controlled claim. Authorisation decisions in the UI are cosmetic; the
//! server re-checks every one of them.
use vstd::prelude::*;

use crate::events::{ClientEvent, EventView};
use crate::error::{ClientError, ErrorKind};
use crate::text::{concat, same_text};

verus! {

/// An account as the server reports it.
#[derive(Debug, Clone, PartialEq, Eq)]
pub struct UserDto {
    pub login: String,
    pub first_name: Option<String>,
    pub last_name: Option<String>,
    pub admin: bool,
}

/// A signed-in session: the opaque token and the account it belongs to.
#[derive(Debug, Clone, PartialEq, Eq)]
pub struct Session {
    pub token: String,
    pub user: UserDto,
}

/// Whether a session for `session_login` (an admin when `admin`) may act on the account
/// `login`: the server's self-or-admin rule.
pub open spec fn may_act(session_login: Seq<char>, admin: bool, login: Seq<char>) -> bool {
    admin || session_login == login
}

impl Session {
    pub fn login(&self) -> (r: &str)
        ensures
            r@ == self.user.login@,
    {
        self.user.login.as_str()
    }

    /// Cosmetic only: hides controls the server would reject anyway.
    pub fn is_admin(&self) -> (r: bool)
        ensures
            r == self.user.admin,
    {
        self.user.admin
    }

    /// A second, equal session, for a caller that keeps one and hands one on.
    pub fn duplicate(&self) -> (r: Session)
        ensures
            r == *self,
    {
        let first_name = match &self.user.first_name {
            Some(n) => Some(n.clone()),
            None => None,
        };
        let last_name = match &self.user.last_name {
            Some(n) => Some(n.clone()),
            None => None,
        };
        Session {
            token: self.token.clone(),
            user: UserDto {
                login: self.user.login.clone(),
                first_name,
                last_name,
                admin: self.user.admin,
            },
        }
    }

    /// Self-or-admin, so the UI hides exactly what the server would refuse.
    pub fn may_act_on(&self, login: &str) -> (r: bool)
        ensures
            r == may_act(self.user.login@, self.user.admin, login@),
    {
        self.is_admin() || same_text(self.login(), login)
    }
}

/// Where the session lives between renders, and across a reload.
pub trait SessionStore {
    fn load(&self) -> Option<Session>;
    fn save(&self, session: &Session);
    fn clear(&self);
}

/// The narrow slice the transport needs: it can read the token but, through this trait,
/// cannot end the session behind a use case's back.
pub trait TokenSource {
    fn token(&self) -> Option<String>;
}

/// The announcement that `session` has begun, whether by login or by restoring it.
pub fn session_started(session: &Session) -> (r: ClientEvent)
    ensures
        r@ == (EventView::SessionStarted { login: session.user.login@, admin: session.user.admin }),
{
    ClientEvent::SessionStarted { login: session.user.login.as_str().to_owned(), admin: session.user.admin }
}

/// The message refusing a session for `session_login` an action on `login`.
pub open spec fn mismatch_refusal(login: Seq<char>, session_login: Seq<char>) -> Seq<char> {
    "Not authorized. Path login '"@ + login + "' does not match authenticated user '"@
        + session_login + "'"@
}

/// The server's self-or-admin rule, refused in the server's own words.
pub fn authorise(session: &Session, login: &str) -> (r: Result<(), ClientError>)
    ensures
        r is Ok <==> may_act(session.user.login@, session.user.admin, login@),
        r matches Err(e) ==> e@ == (
            ErrorKind::Forbidden,
            mismatch_refusal(login@, session.user.login@),
        ),
{
    if session.may_act_on(login) {
        return Ok(());
    }
    let a = concat("Not authorized. Path login '", login);
    let b = concat(a.as_str(), "' does not match authenticated user '");
    let c = concat(b.as_str(), session.login());
    Err(ClientError::Forbidden(concat(c.as_str(), "'")))
}

/// The server's self-or-admin rule: a session may act on its own account, an admin session
/// on every account, and any other session on no other account.
pub proof fn lemma_self_or_admin(session_login: Seq<char>, admin: bool, login: Seq<char>)
    ensures
        may_act(session_login, admin, session_login),
        may_act(session_login, true, login),
        !admin && login != session_login ==> !may_act(session_login, admin, login),
{
}

} // verus!
