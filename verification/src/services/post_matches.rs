//! Whether a query token matches a post or a community.
use vstd::prelude::*;

use super::model::{Demos, Post};
use super::text::{contains_text, lowercase_text, lowercased, occurs_in};
use crate::session::text::chars_of;

verus! {

/// Whether the lower-case query token `token` matches post `p`: it occurs in
/// the lower-cased title or body, or equals one of the post's tags.
pub open spec fn token_hits_post(p: Post, token: Seq<char>) -> bool {
    ||| occurs_in(lowercased(p.title@), token)
    ||| occurs_in(lowercased(p.body@), token)
    ||| exists|k: int| 0 <= k < p.tags@.len() && #[trigger] p.tags@[k]@ == token
}

/// Whether the lower-case query token `token` occurs in community `d`'s
/// lower-cased name or slug.
pub open spec fn token_hits_demos(d: Demos, token: Seq<char>) -> bool {
    occurs_in(lowercased(d.name@), token) || occurs_in(lowercased(d.slug@), token)
}

/// A token matches a post when it occurs in the post's lower-cased title or
/// body or is one of its tags, and only then; it matches a community when it
/// occurs in the lower-cased name or slug, and only then.
pub proof fn law_tokens_match_by_title_body_tag_name_or_slug(p: Post, d: Demos, token: Seq<char>, k: int)
    ensures
        occurs_in(lowercased(p.title@), token) ==> token_hits_post(p, token),
        occurs_in(lowercased(p.body@), token) ==> token_hits_post(p, token),
        0 <= k < p.tags@.len() && p.tags@[k]@ == token ==> token_hits_post(p, token),
        token_hits_post(p, token) ==> occurs_in(lowercased(p.title@), token) || occurs_in(lowercased(p.body@), token)
            || p.tags@.map_values(|t: String| t@).contains(token),
        occurs_in(lowercased(d.name@), token) ==> token_hits_demos(d, token),
        occurs_in(lowercased(d.slug@), token) ==> token_hits_demos(d, token),
        token_hits_demos(d, token) ==> occurs_in(lowercased(d.name@), token) || occurs_in(lowercased(d.slug@), token),
{
    if token_hits_post(p, token) && !occurs_in(lowercased(p.title@), token) && !occurs_in(lowercased(p.body@), token) {
        let j = choose|j: int| 0 <= j < p.tags@.len() && #[trigger] p.tags@[j]@ == token;
        assert(p.tags@.map_values(|t: String| t@)[j] == token);
    }
}

/// Does a single lowercase query token match this post? True if it's a
/// substring of the title or body, or equals one of its tags.
pub fn post_matches(post: &Post, token: &String) -> (r: bool)
    ensures
        r == token_hits_post(*post, token@),
{
    let tok = chars_of(token.as_str());
    let title = lowercase_text(post.title.as_str());
    if contains_text(&chars_of(title.as_str()), &tok) {
        return true;
    }
    let body = lowercase_text(post.body.as_str());
    if contains_text(&chars_of(body.as_str()), &tok) {
        return true;
    }
    let mut k: usize = 0;
    while k < post.tags.len()
        invariant
            k <= post.tags@.len(),
            !occurs_in(lowercased(post.title@), token@),
            !occurs_in(lowercased(post.body@), token@),
            forall|j: int| 0 <= j < k ==> (#[trigger] post.tags@[j])@ != token@,
        decreases post.tags@.len() - k,
    {
        if post.tags[k] == *token {
            return true;
        }
        k = k + 1;
    }
    false
}

/// Does a single lowercase query token occur in this community's name or
/// slug?
pub fn demos_matches(d: &Demos, token: &String) -> (r: bool)
    ensures
        r == token_hits_demos(*d, token@),
{
    let tok = chars_of(token.as_str());
    let name = lowercase_text(d.name.as_str());
    if contains_text(&chars_of(name.as_str()), &tok) {
        return true;
    }
    let slug = lowercase_text(d.slug.as_str());
    contains_text(&chars_of(slug.as_str()), &tok)
}

} // verus!
