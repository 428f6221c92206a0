//! Personal blocking: a member hiding another member's content from their own
//! feeds and threads.
use vstd::prelude::*;

use super::model::UserId;

verus! {

/// Personal blocking use-cases, over the user port.
pub struct BlockingService<U> {
    users: U,
}

impl<U> BlockingService<U> {
    /// The port this service was built with.
    pub closed spec fn users_port(&self) -> U {
        self.users
    }

    /// Build the service over the user port.
    pub fn new(users: U) -> (s: Self)
        ensures
            s.users_port() == users,
    {
        BlockingService { users }
    }

    /// Whether blocking `target` for `blocker` must be recorded: blocking
    /// yourself is a no-op.
    pub fn block_user(&self, blocker: UserId, target: UserId) -> (record: bool)
        ensures
            record == (blocker != target),
    {
        blocker.0 != target.0
    }

    /// The accounts `viewer` has blocked (`blocked` is the viewer's block list,
    /// `None` if the account is gone): empty if the account is gone.
    pub fn blocked_by(&self, blocked: Option<Vec<UserId>>) -> (r: Vec<UserId>)
        ensures
            r@ == match blocked {
                Some(b) => b@,
                None => Seq::<UserId>::empty(),
            },
    {
        match blocked {
            Some(b) => b,
            None => Vec::new(),
        }
    }

    /// Whether the blocker (whose block list is `blocked`, `None` if the account
    /// is gone) blocks `target`.
    pub fn is_blocking(&self, blocked: Option<&Vec<UserId>>, target: UserId) -> (r: bool)
        ensures
            r == match blocked {
                Some(b) => b@.contains(target),
                None => false,
            },
    {
        match blocked {
            Some(b) => {
                let mut k: usize = 0;
                while k < b.len()
                    invariant
                        blocked == Some(b),
                        k <= b@.len(),
                        forall|j: int| 0 <= j < k ==> b@[j] != target,
                    decreases b@.len() - k,
                {
                    if b[k].0 == target.0 {
                        assert(b@[k as int] == target);
                        assert(b@.contains(target));
                        return true;
                    }
                    k = k + 1;
                }
                assert(!b@.contains(target));
                false
            },
            None => false,
        }
    }
}

} // verus!
