//! Account decisions: signed-action policy, registration and login outcomes,
//! key enrolment, and franchise-barred puppet accounts.
use vstd::prelude::*;

use super::errors::{
    AuthenticateError, EnrollPublicKeyError, EnsureBarredAccountError, RegisterAccountError,
    StoreError, VerifyActionError,
};
use super::services::Services;
use super::text::{trim_text, trimmed};

verus! {

/// An acting account's signing key, and how the signature on the action fared
/// against it.
#[derive(Clone, Copy, PartialEq, Eq, Debug)]
pub enum ActorKey {
    /// No key enrolled yet.
    Unenrolled,
    /// A stored key that does not decode.
    Malformed,
    /// An enrolled key; `signature_valid` is whether a signature came with the
    /// action and verifies against the key.
    Enrolled { signature_valid: bool },
}

impl<P> Services<P> {
    /// Whether a user authorised an action: with an enrolled key the action
    /// must carry a signature that verifies against it; without one it passes
    /// unsigned unless this deployment requires signatures; a malformed stored
    /// key is a storage fault.
    pub fn verify_user_action(&self, key: ActorKey) -> (r: Result<(), VerifyActionError>)
        ensures
            match key {
                ActorKey::Unenrolled => if self.require_signatures {
                    r matches Err(VerifyActionError::Rejected(m)) && m@
                        == "this deployment requires a signing key — enrol one to act"@
                } else {
                    r is Ok
                },
                ActorKey::Malformed => r matches Err(VerifyActionError::Store(StoreError::Store(m))) && m@
                    == "account has a malformed signing key"@,
                ActorKey::Enrolled { signature_valid } => if signature_valid {
                    r is Ok
                } else {
                    r matches Err(VerifyActionError::Rejected(m)) && m@
                        == "this action must be signed by the account's key"@
                },
            },
    {
        match key {
            ActorKey::Unenrolled => {
                if self.require_signatures {
                    Err(
                        VerifyActionError::Rejected(
                            "this deployment requires a signing key — enrol one to act".to_string(),
                        ),
                    )
                } else {
                    Ok(())
                }
            },
            ActorKey::Malformed => Err(
                VerifyActionError::Store(StoreError::Store("account has a malformed signing key".to_string())),
            ),
            ActorKey::Enrolled { signature_valid } => {
                if signature_valid {
                    Ok(())
                } else {
                    Err(VerifyActionError::Rejected("this action must be signed by the account's key".to_string()))
                }
            },
        }
    }

    /// The first checks on a sign-up: the trimmed handle must not be empty
    /// ("handle is required"), then the email's and the password's policy
    /// problems (if any, in that order) are reported as given. On success,
    /// the trimmed handle.
    pub fn registration_form_check(&self, handle: &str, email_problem: Option<String>, password_problem: Option<String>) -> (r: Result<String, RegisterAccountError>)
        ensures
            trimmed(handle@).len() == 0 ==> (r matches Err(RegisterAccountError::Rejected(m)) && m@ == "handle is required"@),
            trimmed(handle@).len() > 0 ==> match (email_problem, password_problem) {
                (Some(e), _) => r == Err::<String, RegisterAccountError>(RegisterAccountError::Rejected(e)),
                (None, Some(p)) => r == Err::<String, RegisterAccountError>(RegisterAccountError::Rejected(p)),
                (None, None) => r matches Ok(h) && h@ == trimmed(handle@),
            },
    {
        let h = trim_text(handle);
        if h.is_empty() {
            return Err(RegisterAccountError::Rejected("handle is required".to_string()));
        }
        if let Some(e) = email_problem {
            return Err(RegisterAccountError::Rejected(e));
        }
        if let Some(p) = password_problem {
            return Err(RegisterAccountError::Rejected(p));
        }
        Ok(h.to_string())
    }

    /// The uniqueness checks on a sign-up: a taken handle is refused first
    /// ("that handle is taken"), then a taken email ("an account with that
    /// email already exists").
    pub fn registration_uniqueness_check(&self, handle_taken: bool, email_taken: bool) -> (r: Result<(), RegisterAccountError>)
        ensures
            handle_taken ==> (r matches Err(RegisterAccountError::Rejected(m)) && m@ == "that handle is taken"@),
            !handle_taken && email_taken ==> (r matches Err(RegisterAccountError::Rejected(m)) && m@
                == "an account with that email already exists"@),
            !handle_taken && !email_taken ==> r is Ok,
    {
        if handle_taken {
            return Err(RegisterAccountError::Rejected("that handle is taken".to_string()));
        }
        if email_taken {
            return Err(RegisterAccountError::Rejected("an account with that email already exists".to_string()));
        }
        Ok(())
    }

    /// The outcome of a login attempt: the account, when one was found and the
    /// password verified against its stored hash; the opaque
    /// `InvalidCredentials` otherwise (unknown account, credential-less
    /// account, or wrong password all look identical).
    pub fn login_outcome<U>(&self, account: Option<U>, password_verified: bool) -> (r: Result<U, AuthenticateError>)
        ensures
            match account {
                Some(u) => if password_verified {
                    r == Ok::<U, AuthenticateError>(u)
                } else {
                    r == Err::<U, AuthenticateError>(AuthenticateError::InvalidCredentials)
                },
                None => r == Err::<U, AuthenticateError>(AuthenticateError::InvalidCredentials),
            },
    {
        match account {
            Some(u) => if password_verified {
                Ok(u)
            } else {
                Err(AuthenticateError::InvalidCredentials)
            },
            None => Err(AuthenticateError::InvalidCredentials),
        }
    }

    /// The check on enrolling a signing key: it must be a valid key ("that is
    /// not a valid signing key"), and enrolment is first-key-only ("this
    /// account already has a signing key").
    pub fn enroll_key_check(&self, key_valid: bool, has_key: bool) -> (r: Result<(), EnrollPublicKeyError>)
        ensures
            !key_valid ==> (r matches Err(EnrollPublicKeyError::Rejected(m)) && m@ == "that is not a valid signing key"@),
            key_valid && has_key ==> (r matches Err(EnrollPublicKeyError::Rejected(m)) && m@
                == "this account already has a signing key"@),
            key_valid && !has_key ==> r is Ok,
    {
        if !key_valid {
            return Err(EnrollPublicKeyError::Rejected("that is not a valid signing key".to_string()));
        }
        if has_key {
            return Err(EnrollPublicKeyError::Rejected("this account already has a signing key".to_string()));
        }
        Ok(())
    }

    /// The handle a puppet account is provisioned under: the trimmed handle,
    /// which must not be empty ("handle required").
    pub fn puppet_handle(&self, handle: &str) -> (r: Result<String, EnsureBarredAccountError>)
        ensures
            trimmed(handle@).len() == 0 ==> (r matches Err(EnsureBarredAccountError::Rejected(m)) && m@ == "handle required"@),
            trimmed(handle@).len() > 0 ==> (r matches Ok(h) && h@ == trimmed(handle@)),
    {
        let h = trim_text(handle);
        if h.is_empty() {
            return Err(EnsureBarredAccountError::Rejected("handle required".to_string()));
        }
        Ok(h.to_string())
    }

    /// A credential-less account may be registered under a handle only if the
    /// handle is free.
    pub fn register_user_check(&self, handle_taken: bool) -> (r: Result<(), StoreError>)
        ensures
            r == if handle_taken {
                Err::<(), StoreError>(StoreError::AlreadyExists)
            } else {
                Ok::<(), StoreError>(())
            },
    {
        if handle_taken {
            Err(StoreError::AlreadyExists)
        } else {
            Ok(())
        }
    }
}

} // verus!
