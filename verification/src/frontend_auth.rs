//! Client-side session state. The network round trips and the browser's
//! storage are driven by the runtime; the session's invariants — what
//! counts as authenticated, what the authorization header says — live
//! here.

use vstd::prelude::*;
use vstd::string::StringExecFns;

verus! {

#[derive(Debug, Clone)]
pub struct LoginRequest {
    pub email: String,
    pub password: String,
}

#[derive(Debug, Clone)]
pub struct RegisterRequest {
    pub email: String,
    pub username: String,
    pub password: String,
    pub password_confirm: String,
}

#[derive(Debug, Clone)]
pub struct AuthResponse {
    pub token: String,
    pub user: UserInfo,
}

#[derive(Debug, Clone, PartialEq)]
pub struct UserInfo {
    pub id: String,
    pub email: String,
    pub username: String,
}

/// The client's view of who is signed in.
#[derive(Debug)]
pub struct AuthService {
    token: Option<String>,
    user: Option<UserInfo>,
}

impl AuthService {
    pub closed spec fn spec_token(&self) -> Option<String> {
        self.token
    }

    pub closed spec fn spec_user(&self) -> Option<UserInfo> {
        self.user
    }

    /// Restore a session from whatever the runtime found in storage.
    pub fn from_session(token: Option<String>, user: Option<UserInfo>) -> (r: AuthService)
        ensures
            r.spec_token() == token,
            r.spec_user() == user,
    {
        AuthService { token, user }
    }

    /// Authenticated means both a token and a user are present.
    pub fn is_authenticated(&self) -> (r: bool)
        ensures
            r == (self.spec_token() is Some && self.spec_user() is Some),
    {
        self.token.is_some() && self.user.is_some()
    }

    pub fn get_token(&self) -> (r: Option<&String>)
        ensures
            match r {
                Some(t) => self.spec_token() == Some(*t),
                None => self.spec_token() is None,
            },
    {
        self.token.as_ref()
    }

    pub fn get_user(&self) -> (r: Option<&UserInfo>)
        ensures
            match r {
                Some(u) => self.spec_user() == Some(*u),
                None => self.spec_user() is None,
            },
    {
        self.user.as_ref()
    }

    /// Record a successful login or registration.
    pub fn apply_session(&mut self, token: String, user: UserInfo)
        ensures
            final(self).spec_token() == Some(token),
            final(self).spec_user() == Some(user),
    {
        self.token = Some(token);
        self.user = Some(user);
    }

    /// Clear the session.
    pub fn logout(&mut self)
        ensures
            final(self).spec_token() is None,
            final(self).spec_user() is None,
    {
        self.token = None;
        self.user = None;
    }

    /// The authorization header for the current session: the literal
    /// prefix `Bearer ` followed by the token, or nothing when signed out.
    pub fn get_auth_header(&self) -> (r: Option<String>)
        ensures
            match self.spec_token() {
                Some(t) => r matches Some(h) && h@ == "Bearer "@ + t@,
                None => r is None,
            },
    {
        match &self.token {
            Some(t) => {
                let mut h = "Bearer ".to_owned();
                h.append(t.as_str());
                Some(h)
            },
            None => None,
        }
    }
}

} // verus!
