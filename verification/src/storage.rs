//! Where a session is kept, and what today is.
//!
//! A phone keeps the session in the platform's secret store, behind a cache that holds the
//! decrypted value for the process lifetime. The store fails closed: a secret store that
//! refuses a write costs the user a sign-in next launch, never a plaintext copy of the token.
//! Reading and writing the stored text as JSON is the caller's work; the decisions around it
//! are here.
use vstd::prelude::*;

use crate::date::{chrono_format_date, Date};
use crate::session::Session;

verus! {

/// Why a secret store refused to keep a value.
#[derive(Debug, Clone, PartialEq, Eq)]
pub enum SecretError {
    /// The device is locked, the key was invalidated, or the OS refused.
    Unavailable(String),
}

impl SecretError {
    /// The sentence a log line shows for this refusal.
    pub fn message(&self) -> (r: String)
        ensures
            r@ == match self {
                SecretError::Unavailable(m) => "secure storage is unavailable: "@ + m@,
            },
    {
        match self {
            SecretError::Unavailable(m) => crate::text::concat(
                "secure storage is unavailable: ",
                m.as_str(),
            ),
        }
    }
}

/// Where the encrypted blob actually lives: one entry, read, written or cleared.
///
/// Implemented by each platform and by test doubles. A store that declares
/// [`SecretStore::tracks_contents`] promises that it reads back what it holds, holds what it
/// last accepted, and holds nothing once cleared; one that declares
/// [`SecretStore::accepts_writes`] never refuses a write. A store that declares neither (the
/// default, as for a platform's store outside this library) is promised nothing, and a write
/// to it may be refused.
pub trait SecretStore {
    /// Whether this store keeps the promises below about [`SecretStore::held`].
    open spec fn tracks_contents() -> bool {
        false
    }

    /// Whether this store accepts every write.
    open spec fn accepts_writes() -> bool {
        false
    }

    /// The entry's text, if there is one.
    open spec fn held(&self) -> Option<Seq<char>> {
        None
    }

    fn read(&self) -> (r: Option<String>)
        ensures
            Self::tracks_contents() ==> match r {
                Some(v) => self.held() == Some(v@),
                None => self.held() is None,
            },
    ;

    fn write(&mut self, value: &str) -> (r: Result<(), SecretError>)
        ensures
            Self::accepts_writes() ==> r is Ok,
            Self::tracks_contents() && r is Ok ==> final(self).held() == Some(value@),
    ;

    fn clear(&mut self)
        ensures
            Self::tracks_contents() ==> final(self).held() is None,
    ;
}

/// What a platform's report of a commit amounts to: `false` is a refusal of `what`.
pub fn committed(ok: bool, what: &str) -> (r: Result<(), SecretError>)
    ensures
        r is Ok <==> ok,
        r matches Err(SecretError::Unavailable(m)) ==> m@ == what@ + " was not committed"@,
{
    if ok {
        Ok(())
    } else {
        Err(SecretError::Unavailable(crate::text::concat(what, " was not committed")))
    }
}

/// Holds nothing across a restart: correct for tests, and the default where the platform
/// offers no secret store.
pub struct InMemorySecretStore {
    value: Option<String>,
}

impl Default for InMemorySecretStore {
    fn default() -> (r: InMemorySecretStore)
        ensures
            r.held() is None,
    {
        InMemorySecretStore { value: None }
    }
}

impl SecretStore for InMemorySecretStore {
    open spec fn tracks_contents() -> bool {
        true
    }

    open spec fn accepts_writes() -> bool {
        true
    }

    /// The text held, if any.
    closed spec fn held(&self) -> Option<Seq<char>> {
        match self.value {
            Some(v) => Some(v@),
            None => None,
        }
    }

    fn read(&self) -> (r: Option<String>) {
        match &self.value {
            Some(v) => Some(v.clone()),
            None => None,
        }
    }

    fn write(&mut self, value: &str) -> (r: Result<(), SecretError>) {
        self.value = Some(value.to_owned());
        Ok(())
    }

    fn clear(&mut self) {
        self.value = None;
    }
}

/// The secret store of a build without a phone's keystore: memory, which loses the session
/// on restart. Never a plaintext file. An Android build reaches the Keystore instead, through
/// JNI, which stays with the platform code around this library.
pub fn platform_secrets() -> (r: InMemorySecretStore)
    ensures
        r.held() is None,
{
    InMemorySecretStore::default()
}

/// The session, kept wherever the platform keeps secrets, with the decrypted value cached
/// for the process lifetime.
pub struct KeystoreSessionStore<S: SecretStore> {
    secrets: S,
    cache: Option<Session>,
}

impl<S: SecretStore> KeystoreSessionStore<S> {
    /// The session this process holds, if any.
    pub closed spec fn cached(&self) -> Option<Session> {
        self.cache
    }

    /// The secret store underneath.
    pub closed spec fn backing(&self) -> S {
        self.secrets
    }

    /// A store over `secrets`, holding no session yet.
    pub fn new(secrets: S) -> (r: Self)
        ensures
            r.cached() is None,
            r.backing() == secrets,
    {
        KeystoreSessionStore { secrets, cache: None }
    }

    /// The secret store underneath.
    pub fn secrets(&self) -> (r: &S)
        ensures
            *r == self.backing(),
    {
        &self.secrets
    }

    /// The session this process already holds, without touching the secret store.
    pub fn cached_session(&self) -> (r: Option<Session>)
        ensures
            r == self.cached(),
    {
        match &self.cache {
            Some(s) => Some(s.duplicate()),
            None => None,
        }
    }

    /// The text the secret store holds, to be read as a session.
    pub fn stored(&self) -> (r: Option<String>)
        ensures
            S::tracks_contents() ==> match r {
                Some(v) => self.backing().held() == Some(v@),
                None => self.backing().held() is None,
            },
    {
        self.secrets.read()
    }

    /// Takes what the stored text read as. A session is cached and handed back; text that
    /// is no session (a shape change, a corrupt entry) is cleared from the secret store, so
    /// it reads as signed out rather than being retried on every load.
    pub fn adopt(&mut self, parsed: Option<Session>) -> (r: Option<Session>)
        ensures
            r == parsed,
            parsed is Some ==> final(self).cached() == parsed && final(self).backing()
                == old(self).backing(),
            parsed is None ==> final(self).cached() == old(self).cached() && (S::tracks_contents()
                ==> final(self).backing().held() is None),
    {
        match parsed {
            Some(session) => {
                self.cache = Some(session.duplicate());
                Some(session)
            },
            None => {
                self.secrets.clear();
                None
            },
        }
    }

    /// Keeps `session` for this process, and hands its stored form, when there is one, to
    /// the secret store, answering what the store said. A refused write is not retried
    /// elsewhere: the session stays usable for this run, and the user signs in again next
    /// launch.
    pub fn save(&mut self, session: Session, stored_form: Option<String>) -> (r: Result<
        (),
        SecretError,
    >)
        ensures
            final(self).cached() == Some(session),
            match stored_form {
                Some(t) => {
                    &&& S::accepts_writes() ==> r is Ok
                    &&& S::tracks_contents() && r is Ok ==> final(self).backing().held() == Some(
                        t@,
                    )
                },
                None => r is Ok && final(self).backing() == old(self).backing(),
            },
    {
        self.cache = Some(session);
        match stored_form {
            Some(text) => self.secrets.write(text.as_str()),
            None => Ok(()),
        }
    }

    /// Forgets the session, here and in the secret store.
    pub fn clear(&mut self)
        ensures
            final(self).cached() is None,
            S::tracks_contents() ==> final(self).backing().held() is None,
    {
        self.cache = None;
        self.secrets.clear();
    }
}

/// No persistence at all: for tests, and for a build that must not touch web storage.
pub struct MemorySessionStore {
    session: Option<Session>,
}

impl MemorySessionStore {
    /// The session held, if any.
    pub closed spec fn held(&self) -> Option<Session> {
        self.session
    }

    pub fn new() -> (r: MemorySessionStore)
        ensures
            r.held() is None,
    {
        MemorySessionStore { session: None }
    }

    pub fn load(&self) -> (r: Option<Session>)
        ensures
            r == self.held(),
    {
        match &self.session {
            Some(s) => Some(s.duplicate()),
            None => None,
        }
    }

    /// Keeps `session` in place of whatever was held.
    pub fn save(&mut self, session: &Session)
        ensures
            final(self).held() == Some(*session),
    {
        self.session = Some(session.duplicate());
    }

    pub fn clear(&mut self)
        ensures
            final(self).held() is None,
    {
        self.session = None;
    }

    /// The token of the session held, if any.
    pub fn token(&self) -> (r: Option<String>)
        ensures
            match self.held() {
                Some(s) => r matches Some(t) && t@ == s.token@,
                None => r is None,
            },
    {
        match &self.session {
            Some(s) => Some(s.token.clone()),
            None => None,
        }
    }
}

/// Today, as the user's device sees it.
pub trait Clock {
    fn today(&self) -> Date;
}

/// Today's local date, through `chrono::Local::now().date_naive()` and its day number
/// (`Datelike::num_days_from_ce`). Which date it is depends on the clock and the time zone,
/// so that is left unsaid; the contract claims only that it is a date of chrono's calendar,
/// whose day number `NaiveDate::from_num_days_from_ce_opt` (and so the ISO writing named
/// [`chrono_format_date`]) accepts, as it does every day number of a `NaiveDate`.
#[verifier::external_body]
fn local_today() -> (r: Date)
    ensures
        chrono_format_date(r.days) is Some,
{
    Date { days: chrono::Datelike::num_days_from_ce(&chrono::Local::now().date_naive()) }
}

/// The phone's local date: a date typed into a form means the user's today.
pub struct DeviceClock;

impl Clock for DeviceClock {
    /// A date of the calendar, so it reads back in ISO form as chrono writes it.
    fn today(&self) -> (r: Date)
        ensures
            chrono_format_date(r.days) is Some,
    {
        local_today()
    }
}

/// The browser's local date, local rather than UTC for the same reason.
pub struct BrowserClock;

impl Clock for BrowserClock {
    /// A date of the calendar, so it reads back in ISO form as chrono writes it.
    fn today(&self) -> (r: Date)
        ensures
            chrono_format_date(r.days) is Some,
    {
        local_today()
    }
}

/// A clock frozen at one date, for tests that must not drift.
pub struct FixedClock(pub Date);

impl Clock for FixedClock {
    fn today(&self) -> (r: Date)
        ensures
            r == self.0,
    {
        self.0
    }
}

} // verus!
