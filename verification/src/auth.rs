//! The credential manager: one bearer credential per session, set at
//! most once.  The first successful login wins; later permission
//! errors reuse it without prompting again.  Obtaining the credential
//! (the login request and any prompting) is the surrounding program's
//! work; holding it is decided here.

use vstd::prelude::*;

use crate::types::Token;

verus! {

/// Holds the session's bearer credential, if one has been obtained.
pub struct Session {
    token: Option<Token>,
}

pub closed spec fn session_token(s: &Session) -> Option<Token> {
    s.token
}

impl Session {
    /// A fresh session holds no credential.
    pub fn new() -> (r: Session)
        ensures
            session_token(&r) is None,
    {
        Session { token: None }
    }

    /// The held credential, if any, without prompting for one.
    pub fn try_global(&self) -> (r: Option<&Token>)
        ensures
            match r {
                Some(t) => session_token(self) == Some(*t),
                None => session_token(self) is None,
            },
    {
        self.token.as_ref()
    }

    /// Whether a credential is held, and so whether outgoing requests
    /// carry a bearer header proactively.
    pub fn has_token(&self) -> (r: bool)
        ensures
            r == (session_token(self) is Some),
    {
        match &self.token {
            Some(_) => true,
            None => false,
        }
    }

    /// Stores a freshly obtained credential.  The first one wins: a
    /// credential that is already held is never replaced.
    pub fn store_token(&mut self, t: Token)
        ensures
            session_token(old(self)) is Some ==> session_token(final(self)) == session_token(
                old(self),
            ),
            session_token(old(self)) is None ==> session_token(final(self)) == Some(t),
    {
        if self.token.is_none() {
            self.token = Some(t);
        }
    }
}

} // verus!
