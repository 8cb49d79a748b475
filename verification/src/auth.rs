//! The session authentication service.
//!
//! Users register under a unique username with an argon2-hashed password;
//! a successful login opens a session under a fresh token that expires a
//! day later.  The service holds its users and sessions as explicit state;
//! the surrounding application decides how to share and persist it.

use crate::clock::now_unix;
use crate::ids::{fresh_id, id_text};
use vstd::prelude::*;
use vstd::utf8::encode_utf8;

verus! {

/// What `argon2::hash_encoded` returns for a password and salt under the
/// default configuration: a function of the two alone.
pub uninterp spec fn argon2_hash_of(pwd: Seq<u8>, salt: Seq<u8>) -> Seq<char>;

/// What `argon2::verify_encoded` returns for an encoded hash and a
/// password: a function of the two alone — `None` where the encoded hash
/// does not decode into valid hashing parameters, otherwise whether the
/// password matches.
pub uninterp spec fn argon2_verify_of(encoded: Seq<char>, pwd: Seq<u8>) -> Option<bool>;

/// Hashes a password with a salt under the default argon2 configuration.
///
/// Relies on `argon2::hash_encoded` with `argon2::Config::default`: the
/// result is a function of password and salt alone; with the default
/// configuration the only failures are a salt shorter than 8 bytes and a
/// password or salt longer than `0xFFFF_FFFF` bytes; and
/// `argon2::verify_encoded` decodes every hash this call produces and
/// verifies against it any password within that same length limit.
#[verifier::external_body]
fn hash_password(pwd: &[u8], salt: &[u8]) -> (r: Option<String>)
    ensures
        r matches Some(h) ==> {
            &&& h@ == argon2_hash_of(pwd@, salt@)
            &&& argon2_verify_of(h@, pwd@) == Some(true)
            &&& forall|p: Seq<u8>| p.len() <= 0xFFFF_FFFF ==> argon2_verify_of(h@, p) is Some
        },
        8 <= salt@.len() <= 0xFFFF_FFFF && pwd@.len() <= 0xFFFF_FFFF ==> r is Some,
{
    argon2::hash_encoded(pwd, salt, &argon2::Config::default()).ok()
}

/// Verifies a password against an encoded argon2 hash.
///
/// Relies on `argon2::verify_encoded`: the result is a function of the
/// encoded hash and the password alone, named by [`argon2_verify_of`]; it
/// fails only where the encoded hash cannot be decoded into valid
/// hashing parameters.
#[verifier::external_body]
fn verify_password(encoded: &str, pwd: &[u8]) -> (r: Option<bool>)
    ensures
        r == argon2_verify_of(encoded@, pwd@),
{
    argon2::verify_encoded(encoded, pwd).ok()
}

/// One registered user.
#[derive(Debug)]
pub struct User {
    pub id: String,
    pub username: String,
    pub password_hash: String,
    pub created_at: i64,
    pub last_login: Option<i64>,
}

/// The mathematical value of a [`User`].
pub struct UserView {
    pub id: Seq<char>,
    pub username: Seq<char>,
    pub password_hash: Seq<char>,
    pub created_at: i64,
    pub last_login: Option<i64>,
}

impl View for User {
    type V = UserView;

    open spec fn view(&self) -> UserView {
        UserView {
            id: self.id.view(),
            username: self.username.view(),
            password_hash: self.password_hash.view(),
            created_at: self.created_at,
            last_login: self.last_login,
        }
    }
}

impl DeepView for User {
    type V = UserView;

    open spec fn deep_view(&self) -> UserView {
        self.view()
    }
}

impl Clone for User {
    fn clone(&self) -> (r: Self)
        ensures
            r@ == self@,
    {
        User {
            id: self.id.clone(),
            username: self.username.clone(),
            password_hash: self.password_hash.clone(),
            created_at: self.created_at,
            last_login: self.last_login,
        }
    }
}

/// One open session.
#[derive(Debug)]
pub struct Session {
    pub token: String,
    pub user_id: String,
    pub created_at: i64,
    pub expires_at: i64,
}

/// The mathematical value of a [`Session`].
pub struct SessionView {
    pub token: Seq<char>,
    pub user_id: Seq<char>,
    pub created_at: i64,
    pub expires_at: i64,
}

impl View for Session {
    type V = SessionView;

    open spec fn view(&self) -> SessionView {
        SessionView {
            token: self.token.view(),
            user_id: self.user_id.view(),
            created_at: self.created_at,
            expires_at: self.expires_at,
        }
    }
}

impl DeepView for Session {
    type V = SessionView;

    open spec fn deep_view(&self) -> SessionView {
        self.view()
    }
}

impl Clone for Session {
    fn clone(&self) -> (r: Self)
        ensures
            r@ == self@,
    {
        Session {
            token: self.token.clone(),
            user_id: self.user_id.clone(),
            created_at: self.created_at,
            expires_at: self.expires_at,
        }
    }
}

/// How long a session lasts, in seconds: 24 hours.
pub const SESSION_LIFETIME_SECS: i64 = 24 * 60 * 60;

/// When a session created at `created` expires: a day later, saturated at
/// the largest representable time.
pub open spec fn session_expiry(created: i64) -> i64 {
    if created + SESSION_LIFETIME_SECS <= i64::MAX {
        (created + SESSION_LIFETIME_SECS) as i64
    } else {
        i64::MAX
    }
}

/// True when some user of `users` has the username `name`.
pub open spec fn has_username(users: Seq<UserView>, name: Seq<char>) -> bool {
    exists|i: int| 0 <= i < users.len() && (#[trigger] users[i]).username == name
}

/// True when index `i` is the first user of `users` with username `name`.
pub open spec fn is_first_username(users: Seq<UserView>, name: Seq<char>, i: int) -> bool {
    &&& 0 <= i < users.len()
    &&& users[i].username == name
    &&& forall|j: int| 0 <= j < i ==> (#[trigger] users[j]).username != name
}

/// True when some user of `users` has the identifier `uid`.
pub open spec fn has_user_id(users: Seq<UserView>, uid: Seq<char>) -> bool {
    exists|i: int| 0 <= i < users.len() && (#[trigger] users[i]).id == uid
}

/// True when index `i` is the first user of `users` with identifier `uid`.
pub open spec fn is_first_user_id(users: Seq<UserView>, uid: Seq<char>, i: int) -> bool {
    &&& 0 <= i < users.len()
    &&& users[i].id == uid
    &&& forall|j: int| 0 <= j < i ==> (#[trigger] users[j]).id != uid
}

/// True when some session of `sessions` has the token `token`.
pub open spec fn has_token(sessions: Seq<SessionView>, token: Seq<char>) -> bool {
    exists|i: int| 0 <= i < sessions.len() && (#[trigger] sessions[i]).token == token
}

/// True when index `i` is the first session of `sessions` with token
/// `token`.
pub open spec fn is_first_token(sessions: Seq<SessionView>, token: Seq<char>, i: int) -> bool {
    &&& 0 <= i < sessions.len()
    &&& sessions[i].token == token
    &&& forall|j: int| 0 <= j < i ==> (#[trigger] sessions[j]).token != token
}

/// The sessions of `s` whose token is not `token`, in order.
pub open spec fn sessions_without(s: Seq<SessionView>, token: Seq<char>) -> Seq<SessionView>
    decreases s.len(),
{
    if s.len() == 0 {
        Seq::empty()
    } else {
        let prefix = sessions_without(s.drop_last(), token);
        if s.last().token == token {
            prefix
        } else {
            prefix.push(s.last())
        }
    }
}

/// The mathematical value of an [`AuthService`].
pub struct AuthView {
    pub users: Seq<UserView>,
    pub sessions: Seq<SessionView>,
}

/// The authentication service: its registered users and open sessions.
pub struct AuthService {
    users: Vec<User>,
    sessions: Vec<Session>,
}

impl View for AuthService {
    type V = AuthView;

    closed spec fn view(&self) -> AuthView {
        AuthView { users: self.users.deep_view(), sessions: self.sessions.deep_view() }
    }
}

impl AuthService {
    /// Creates a service with no users and no sessions.
    pub fn new() -> (s: Self)
        ensures
            s@.users == Seq::<UserView>::empty(),
            s@.sessions == Seq::<SessionView>::empty(),
    {
        let s = AuthService { users: Vec::new(), sessions: Vec::new() };
        proof {
            assert(s@.users =~= Seq::<UserView>::empty());
            assert(s@.sessions =~= Seq::<SessionView>::empty());
        }
        s
    }

    /// The first user with username `name`, if any.
    fn find_username(&self, name: &String) -> (r: Option<usize>)
        ensures
            r matches Some(i) ==> is_first_username(self@.users, name@, i as int),
            r is None ==> !has_username(self@.users, name@),
    {
        let n = self.users.len();
        let mut k: usize = 0;
        while k < n
            invariant
                n == self@.users.len(),
                n == self.users@.len(),
                0 <= k <= n,
                forall|j: int| 0 <= j < k ==> (#[trigger] self@.users[j]).username != name@,
            decreases n - k,
        {
            if self.users[k].username == *name {
                return Some(k);
            }
            k = k + 1;
        }
        None
    }

    /// Registers a new user: rejects a username that is already taken —
    /// with the service untouched — and otherwise hashes the password
    /// with a fresh salt, appends the user, and returns it.  Success is
    /// owed for every password whose encoding fits the hash's input
    /// limit; a failed hash leaves the service untouched.
    pub fn register(&mut self, username: String, password: String) -> (r: Result<User, String>)
        ensures
            has_username(old(self)@.users, username@) ==> (r matches Err(e) && e@
                == "Username already exists"@),
            !has_username(old(self)@.users, username@) ==> (r matches Err(e) ==> e@
                == "Failed to hash password"@),
            r is Err ==> final(self)@ == old(self)@,
            !has_username(old(self)@.users, username@) && encode_utf8(password@).len()
                <= 0xFFFF_FFFF ==> r is Ok,
            r matches Ok(u) ==> {
                &&& u@.username == username@
                &&& u@.last_login is None
                &&& id_text(u@.id)
                &&& argon2_verify_of(u@.password_hash, encode_utf8(password@)) == Some(true)
                &&& forall|p: Seq<u8>|
                    p.len() <= 0xFFFF_FFFF ==> argon2_verify_of(u@.password_hash, p) is Some
                &&& final(self)@.users == old(self)@.users.push(u@)
                &&& final(self)@.sessions == old(self)@.sessions
            },
    {
        if self.find_username(&username).is_some() {
            return Err(String::from_str("Username already exists"));
        }
        let salt = fresh_id();
        let hash = match hash_password(password.as_str().as_bytes(), salt.as_str().as_bytes()) {
            Some(h) => h,
            None => {
                return Err(String::from_str("Failed to hash password"));
            },
        };
        let user = User {
            id: fresh_id(),
            username,
            password_hash: hash,
            created_at: now_unix(),
            last_login: None,
        };
        let returned = user.clone();
        let ghost prior = self@.users;
        self.users.push(user);
        proof {
            assert(self@.users =~= prior.push(returned@));
        }
        Ok(returned)
    }

    /// Logs a user in: rejects an unknown username and a password that
    /// does not verify against the stored hash — with the service
    /// untouched, and with the one identical answer for both causes, so
    /// the response does not reveal whether the username exists — and
    /// otherwise opens a session under a fresh token that expires a day
    /// later, notes the login time on the user, and returns the session.
    pub fn login(&mut self, username: String, password: String) -> (r: Result<Session, String>)
        ensures
            !has_username(old(self)@.users, username@) ==> (r matches Err(e) && e@
                == "Invalid username or password"@) && final(self)@ == old(self)@,
            forall|i: int| #[trigger] is_first_username(old(self)@.users, username@, i) ==> {
                let v = argon2_verify_of(
                    old(self)@.users[i].password_hash,
                    encode_utf8(password@),
                );
                &&& (v == Some(false) ==> (r matches Err(e) && e@
                    == "Invalid username or password"@) && final(self)@ == old(self)@)
                &&& (v is None ==> (r matches Err(e) && e@ == "Failed to verify password"@)
                    && final(self)@ == old(self)@)
                &&& (v == Some(true) ==> (r matches Ok(sess) && {
                    &&& sess@.user_id == old(self)@.users[i].id
                    &&& id_text(sess@.token)
                    &&& sess@.expires_at == session_expiry(sess@.created_at)
                    &&& final(self)@.sessions == old(self)@.sessions.push(sess@)
                    &&& final(self)@.users.len() == old(self)@.users.len()
                    &&& forall|k: int|
                        0 <= k < old(self)@.users.len() && k != i ==> final(self)@.users[k] == old(
                            self,
                        )@.users[k]
                    &&& final(self)@.users[i].id == old(self)@.users[i].id
                    &&& final(self)@.users[i].username == old(self)@.users[i].username
                    &&& final(self)@.users[i].password_hash == old(self)@.users[i].password_hash
                    &&& final(self)@.users[i].created_at == old(self)@.users[i].created_at
                    &&& final(self)@.users[i].last_login is Some
                }))
            },
    {
        let idx = match self.find_username(&username) {
            Some(i) => i,
            None => {
                return Err(String::from_str("Invalid username or password"));
            },
        };
        let verified = match verify_password(
            self.users[idx].password_hash.as_str(),
            password.as_str().as_bytes(),
        ) {
            Some(b) => b,
            None => {
                return Err(String::from_str("Failed to verify password"));
            },
        };
        if !verified {
            return Err(String::from_str("Invalid username or password"));
        }
        let created_at = now_unix();
        let expires_at = if created_at <= i64::MAX - SESSION_LIFETIME_SECS {
            created_at + SESSION_LIFETIME_SECS
        } else {
            i64::MAX
        };
        let session = Session {
            token: fresh_id(),
            user_id: self.users[idx].id.clone(),
            created_at,
            expires_at,
        };
        let returned = session.clone();
        let ghost prior_sessions = self@.sessions;
        self.sessions.push(session);
        proof {
            assert(self@.sessions =~= prior_sessions.push(returned@));
        }
        let mut updated = self.users[idx].clone();
        updated.last_login = Some(now_unix());
        let ghost prior_users = self@.users;
        let ghost updated_view = updated@;
        self.users.set(idx, updated);
        proof {
            assert(self@.users =~= prior_users.update(idx as int, updated_view));
        }
        Ok(returned)
    }

    /// The first session with token `token`, if any.
    fn find_token(&self, token: &String) -> (r: Option<usize>)
        ensures
            r matches Some(i) ==> is_first_token(self@.sessions, token@, i as int),
            r is None ==> !has_token(self@.sessions, token@),
    {
        let n = self.sessions.len();
        let mut k: usize = 0;
        while k < n
            invariant
                n == self@.sessions.len(),
                n == self.sessions@.len(),
                0 <= k <= n,
                forall|j: int| 0 <= j < k ==> (#[trigger] self@.sessions[j]).token != token@,
            decreases n - k,
        {
            if self.sessions[k].token == *token {
                return Some(k);
            }
            k = k + 1;
        }
        None
    }

    /// Validates a session token against the clock reading `now`: rejects
    /// an unknown token, an expired session, and a session whose user is
    /// gone, and otherwise returns the session's user.
    pub fn validate_session_at(&self, token: &String, now: i64) -> (r: Result<User, String>)
        ensures
            !has_token(self@.sessions, token@) ==> (r matches Err(e) && e@
                == "Invalid session"@),
            forall|j: int| #[trigger] is_first_token(self@.sessions, token@, j) ==> {
                let sess = self@.sessions[j];
                &&& (sess.expires_at < now ==> (r matches Err(e) && e@ == "Session expired"@))
                &&& (sess.expires_at >= now ==> {
                    &&& (!has_user_id(self@.users, sess.user_id) ==> (r matches Err(e) && e@
                        == "User not found"@))
                    &&& forall|i: int|
                        #[trigger] is_first_user_id(self@.users, sess.user_id, i) ==> (
                        r matches Ok(u) && u@ == self@.users[i])
                })
            },
    {
        let idx = match self.find_token(token) {
            Some(i) => i,
            None => {
                return Err(String::from_str("Invalid session"));
            },
        };
        if self.sessions[idx].expires_at < now {
            return Err(String::from_str("Session expired"));
        }
        let m = self.users.len();
        let mut u: usize = 0;
        while u < m
            invariant
                m == self@.users.len(),
                m == self.users@.len(),
                idx < self@.sessions.len(),
                idx < self.sessions@.len(),
                is_first_token(self@.sessions, token@, idx as int),
                self@.sessions[idx as int].expires_at >= now,
                forall|j: int|
                    0 <= j < u ==> (#[trigger] self@.users[j]).id != self@.sessions[
                        idx as int
                    ].user_id,
            decreases m - u,
        {
            if self.users[u].id == self.sessions[idx].user_id {
                proof {
                    assert(self@.sessions[idx as int].token == token@);
                    assert(has_token(self@.sessions, token@));
                    assert forall|j: int|
                        is_first_token(self@.sessions, token@, j) implies j == idx as int by {
                        if j < idx as int {
                            assert(self@.sessions[j].token != token@);
                        } else if j > idx as int {
                            assert(self@.sessions[idx as int].token != token@);
                        }
                    }
                    assert forall|i: int|
                        is_first_user_id(
                            self@.users,
                            self@.sessions[idx as int].user_id,
                            i,
                        ) implies i == u as int by {
                        if i < u as int {
                            assert(self@.users[i].id != self@.sessions[idx as int].user_id);
                        } else if i > u as int {
                            assert(self@.users[u as int].id != self@.sessions[idx as int].user_id);
                        }
                    }
                }
                return Ok(self.users[u].clone());
            }
            u = u + 1;
        }
        Err(String::from_str("User not found"))
    }

    /// Validates a session token against the clock now: as
    /// [`AuthService::validate_session_at`], with the current time.
    pub fn validate_session(&self, token: String) -> (r: Result<User, String>)
        ensures
            !has_token(self@.sessions, token@) ==> (r matches Err(e) && e@
                == "Invalid session"@),
            r matches Ok(u) ==> forall|j: int|
                is_first_token(self@.sessions, token@, j) ==> forall|i: int|
                    is_first_user_id(self@.users, self@.sessions[j].user_id, i) ==> u@
                        == self@.users[i],
    {
        let now = now_unix();
        self.validate_session_at(&token, now)
    }

    /// Closes every session under the given token; closing a token that
    /// has no session is already done and succeeds as well.
    pub fn logout(&mut self, token: String) -> (r: Result<(), String>)
        ensures
            r is Ok,
            final(self)@.users == old(self)@.users,
            final(self)@.sessions == sessions_without(old(self)@.sessions, token@),
    {
        let n = self.sessions.len();
        let mut kept: Vec<Session> = Vec::new();
        proof {
            assert(self@.sessions.subrange(0, 0) =~= Seq::<SessionView>::empty());
            assert(kept.deep_view() =~= Seq::<SessionView>::empty());
        }
        let mut k: usize = 0;
        while k < n
            invariant
                n == self@.sessions.len(),
                n == self.sessions@.len(),
                0 <= k <= n,
                kept.deep_view() == sessions_without(
                    self@.sessions.subrange(0, k as int),
                    token@,
                ),
            decreases n - k,
        {
            let s = &self.sessions[k];
            let ghost pre = kept.deep_view();
            if !(s.token == token) {
                kept.push(s.clone());
                proof {
                    assert(kept.deep_view() =~= pre.push(s@));
                }
            }
            proof {
                assert(self@.sessions.subrange(0, k + 1).drop_last() =~= self@.sessions.subrange(
                    0,
                    k as int,
                ));
                assert(self@.sessions.subrange(0, k + 1).last() == self@.sessions[k as int]);
            }
            k = k + 1;
        }
        proof {
            assert(self@.sessions.subrange(0, n as int) =~= self@.sessions);
        }
        self.sessions = kept;
        Ok(())
    }
}

} // verus!
