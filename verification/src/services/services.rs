//! The application service container.
use vstd::prelude::*;

verus! {

/// The application service container: the storage and delivery ports the
/// composition root chose (`ports`), and the deployment settings the
/// use-cases consult.
pub struct Services<P> {
    /// The port implementations, as the composition root wired them.
    pub ports: P,
    /// When true, NSFW content is age-gated and unverified viewers cannot
    /// reveal it.
    pub requires_age_verification: bool,
    /// When true, every governance action must carry a valid signature: an
    /// account with no enrolled signing key cannot vote, jury, or vote on
    /// posts until it enrols one.
    pub require_signatures: bool,
    /// Public origin (`scheme://host[:port]`) this node is reached at, used to
    /// build absolute invite-accept links.
    pub public_base_url: String,
    /// How many days an issued invite token stays valid.
    pub invite_token_ttl_days: i64,
}

} // verus!
