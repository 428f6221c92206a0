//! Invitation-only access: the waitlist request, the approval link, and
//! token redemption.
use vstd::prelude::*;

use super::errors::{AcceptInviteError, ApproveInviteError};
use super::services::Services;
use super::text::{trim_text, trimmed};
use crate::session::text::chars_of;

verus! {

/// `s` without its trailing `/` characters, as `str::trim_end_matches('/')`
/// leaves it.
pub open spec fn without_trailing_slashes(s: Seq<char>) -> Seq<char>
    decreases s.len(),
{
    if s.len() > 0 && s.last() == '/' {
        without_trailing_slashes(s.drop_last())
    } else {
        s
    }
}

/// The origin part of an accept link is the configured origin with its
/// trailing slashes cut, and nothing else cut, so the link never doubles the
/// slash before `invite`.
pub proof fn law_accept_link_has_one_separator(base: Seq<char>)
    ensures
        without_trailing_slashes(base).len() <= base.len(),
        base.take(without_trailing_slashes(base).len() as int) == without_trailing_slashes(base),
        without_trailing_slashes(base).len() == 0 || without_trailing_slashes(base).last() != '/',
        forall|i: int| without_trailing_slashes(base).len() <= i < base.len() ==> #[trigger] base[i] == '/',
    decreases base.len(),
{
    if base.len() > 0 && base.last() == '/' {
        law_accept_link_has_one_separator(base.drop_last());
        let w = without_trailing_slashes(base.drop_last());
        assert(base.take(w.len() as int) =~= base.drop_last().take(w.len() as int));
        assert forall|i: int| w.len() <= i < base.len() implies #[trigger] base[i] == '/' by {
            if i < base.len() - 1 {
                assert(base.drop_last()[i] == base[i]);
            }
        }
    } else {
        assert(base.take(base.len() as int) =~= base);
    }
}

/// The accept link an approval email carries: the public origin without
/// trailing slashes, then `/invite/accept?token=` and the token.
pub open spec fn accept_link(base: Seq<char>, token: Seq<char>) -> Seq<char> {
    without_trailing_slashes(base) + "/invite/accept?token="@ + token
}

/// The note kept with a waitlist request: the trimmed note, dropped when
/// absent or blank.
pub open spec fn kept_note(note: Option<Seq<char>>) -> Option<Seq<char>> {
    match note {
        Some(n) => if trimmed(n).len() > 0 {
            Some(trimmed(n))
        } else {
            None
        },
        None => None,
    }
}

impl<P> Services<P> {
    /// Whether new sign-ups currently require an invite: the persisted
    /// operator toggle, or `default_when_unset` (the node's boot flag) if it
    /// was never set.
    pub fn is_invite_only(&self, stored: Option<bool>, default_when_unset: bool) -> (r: bool)
        ensures
            r == match stored {
                Some(b) => b,
                None => default_when_unset,
            },
    {
        match stored {
            Some(b) => b,
            None => default_when_unset,
        }
    }

    /// Whether a waitlist request must be recorded: an email that already has
    /// an account or a live request is quietly accepted without a second row
    /// (and without revealing which case it was).
    pub fn request_invite_needed(&self, has_account: bool, has_request: bool) -> (r: bool)
        ensures
            r == (!has_account && !has_request),
    {
        !has_account && !has_request
    }

    /// The note to keep with a waitlist request.
    pub fn invite_note(&self, note: Option<&str>) -> (r: Option<String>)
        ensures
            match note {
                Some(n) => match kept_note(Some(n@)) {
                    Some(k) => r matches Some(s) && s@ == k,
                    None => r is None,
                },
                None => r is None,
            },
    {
        match note {
            Some(n) => {
                let t = trim_text(n);
                if t.is_empty() {
                    None
                } else {
                    Some(t.to_string())
                }
            },
            None => None,
        }
    }

    /// Only a request still pending may be approved or rejected.
    pub fn pending_check(&self, found: bool, is_pending: bool) -> (r: Result<(), ApproveInviteError>)
        ensures
            r == if found && is_pending {
                Ok::<(), ApproveInviteError>(())
            } else {
                Err::<(), ApproveInviteError>(ApproveInviteError::NotPending)
            },
    {
        if found && is_pending {
            Ok(())
        } else {
            Err(ApproveInviteError::NotPending)
        }
    }

    /// An invite token is accepted only for a known request that is still
    /// redeemable; unknown, expired and used tokens get the same opaque
    /// `InvalidToken`.
    pub fn token_check(&self, found: bool, redeemable: bool) -> (r: Result<(), AcceptInviteError>)
        ensures
            r == if found && redeemable {
                Ok::<(), AcceptInviteError>(())
            } else {
                Err::<(), AcceptInviteError>(AcceptInviteError::InvalidToken)
            },
    {
        if found && redeemable {
            Ok(())
        } else {
            Err(AcceptInviteError::InvalidToken)
        }
    }

    /// The absolute accept link for `token`, under this node's public origin.
    pub fn accept_url(&self, token: &str) -> (url: String)
        ensures
            url@ == accept_link(self.public_base_url@, token@),
    {
        let base = self.public_base_url.as_str();
        let cs = chars_of(base);
        let mut e = cs.len();
        assert(cs@.take(e as int) =~= cs@);
        while e > 0 && cs[e - 1] == '/'
            invariant
                e <= cs@.len(),
                without_trailing_slashes(cs@) == without_trailing_slashes(cs@.take(e as int)),
            decreases e,
        {
            assert(cs@.take(e as int).drop_last() =~= cs@.take(e - 1));
            e = e - 1;
        }
        let kept = base.substring_char(0, e);
        assert(kept@ =~= cs@.take(e as int));
        let mut url = String::from_str(kept);
        proof {
            reveal_strlit("/invite/accept?token=");
        }
        url.append("/invite/accept?token=");
        url.append(token);
        url
    }
}

} // verus!
