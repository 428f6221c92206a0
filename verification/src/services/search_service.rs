//! Search: full-text-ish search over posts and, site-wide, communities.
use vstd::prelude::*;

use super::feed_service::is_listed;
use super::listing::reversed;
use super::model::{Demos, DemosId, Post};
use super::post_matches::{demos_matches, post_matches, token_hits_demos, token_hits_post};
use super::search_results::SearchResults;
use super::search_scope::SearchScope;
use super::text::{
    ascii_folded, law_words_of_joined_text, lemma_fold_words, lowercase_text, lowercased, split_words, words,
};

verus! {

/// Where a search's candidate posts come from: with a tag filter, the store's
/// tag index (site-wide or within one community); without one, every post
/// (site-wide or within one community).
#[derive(Clone, Debug)]
pub enum PostSource {
    TaggedAll(String),
    TaggedIn(DemosId, String),
    All,
    In(DemosId),
}

/// Where a search's candidate communities come from.
#[derive(Clone, Debug)]
pub enum CommunitySource {
    /// No communities are searched.
    Nothing,
    /// The communities carrying the tag (tokens then narrow them, if any).
    Tagged(String),
    /// Every community (tokens narrow them).
    All,
}

/// Whether a post survives the query: it is listable, and either there are no
/// tokens or some token matches it.
pub open spec fn post_found(tokens: Seq<Seq<char>>) -> spec_fn(Post) -> bool {
    |p: Post| is_listed(p) && (tokens.len() == 0 || exists|k: int| 0 <= k < tokens.len() && #[trigger] token_hits_post(p, tokens[k]))
}

/// Whether a community survives the query: there are no tokens, or some token
/// occurs in its name or slug.
pub open spec fn demos_found(tokens: Seq<Seq<char>>) -> spec_fn(Demos) -> bool {
    |d: Demos| tokens.len() == 0 || exists|k: int| 0 <= k < tokens.len() && #[trigger] token_hits_demos(d, tokens[k])
}

/// The views of a list of strings.
pub open spec fn texts(v: Seq<String>) -> Seq<Seq<char>> {
    v.map_values(|s: String| s@)
}

/// A search never turns up a post that is removed or hidden pending review,
/// and every post it turns up matches some token of a non-empty query.
pub proof fn law_search_finds_only_listed_posts(posts: Seq<Post>, tokens: Seq<Seq<char>>, k: int)
    requires
        0 <= k < posts.filter(post_found(tokens)).len(),
    ensures
        is_listed(posts.filter(post_found(tokens))[k]),
        tokens.len() > 0 ==> exists|t: int|
            0 <= t < tokens.len() && #[trigger] token_hits_post(posts.filter(post_found(tokens))[k], tokens[t]),
{
    posts.lemma_filter_pred(post_found(tokens), k);
}

/// A search turns up every listable post that some token matches (every
/// listable post when there are no tokens).
pub proof fn law_search_finds_every_matching_post(posts: Seq<Post>, tokens: Seq<Seq<char>>)
    ensures
        forall|i: int|
            0 <= i < posts.len() && is_listed(#[trigger] posts[i]) && (tokens.len() == 0 || exists|k: int|
                0 <= k < tokens.len() && token_hits_post(posts[i], tokens[k])) ==> posts.filter(
                post_found(tokens),
            ).contains(posts[i]),
{
    assert forall|i: int|
        0 <= i < posts.len() && is_listed(#[trigger] posts[i]) && (tokens.len() == 0 || exists|k: int|
            0 <= k < tokens.len() && token_hits_post(posts[i], tokens[k])) implies posts.filter(
        post_found(tokens),
    ).contains(posts[i]) by {
        if tokens.len() > 0 {
            let k = choose|k: int| 0 <= k < tokens.len() && token_hits_post(posts[i], tokens[k]);
            assert(post_found(tokens)(posts[i]));
        }
        posts.lemma_filter_contains(post_found(tokens), i);
    }
}

/// The tokens a query is searched by: its words, lower-cased.
pub open spec fn query_token_texts(query: Seq<char>) -> Seq<Seq<char>> {
    words(query).map_values(|w: Seq<char>| lowercased(w))
}

/// Extending a query with more words never loses a result: whatever a query
/// with at least one word finds, the query followed by a space and more text
/// finds too.
pub proof fn law_longer_query_finds_more(posts: Seq<Post>, communities: Seq<Demos>, q1: Seq<char>, q2: Seq<char>)
    requires
        words(q1).len() > 0,
    ensures
        forall|p: Post|
            #[trigger] posts.filter(post_found(query_token_texts(q1))).contains(p) ==> posts.filter(
                post_found(query_token_texts(q1 + seq![' '] + q2)),
            ).contains(p),
        forall|d: Demos|
            #[trigger] communities.filter(demos_found(query_token_texts(q1))).contains(d) ==> communities.filter(
                demos_found(query_token_texts(q1 + seq![' '] + q2)),
            ).contains(d),
{
    law_words_of_joined_text(q1, q2);
    let fewer = query_token_texts(q1);
    let more = query_token_texts(q1 + seq![' '] + q2);
    assert forall|k: int| 0 <= k < fewer.len() implies more.contains(#[trigger] fewer[k]) by {
        assert(more[k] == fewer[k]);
    }
    law_more_tokens_find_more(posts, communities, fewer, more);
}

/// A longer query never loses a result: every post and every community that a
/// non-empty token list finds is also found by any token list holding each of
/// its tokens (a match on any one token suffices).
pub proof fn law_more_tokens_find_more(
    posts: Seq<Post>,
    communities: Seq<Demos>,
    fewer: Seq<Seq<char>>,
    more: Seq<Seq<char>>,
)
    requires
        fewer.len() > 0,
        forall|k: int| 0 <= k < fewer.len() ==> more.contains(#[trigger] fewer[k]),
    ensures
        forall|p: Post| #[trigger] posts.filter(post_found(fewer)).contains(p) ==> posts.filter(post_found(more)).contains(p),
        forall|d: Demos|
            #[trigger] communities.filter(demos_found(fewer)).contains(d) ==> communities.filter(demos_found(more)).contains(d),
{
    assert(more.contains(fewer[0]));
    assert forall|p: Post| #[trigger] posts.filter(post_found(fewer)).contains(p) implies posts.filter(
        post_found(more),
    ).contains(p) by {
        let f = posts.filter(post_found(fewer));
        let i = choose|i: int| 0 <= i < f.len() && f[i] == p;
        posts.lemma_filter_pred(post_found(fewer), i);
        posts.lemma_filter_contains_rev(post_found(fewer), p);
        let k = choose|k: int| 0 <= k < fewer.len() && #[trigger] token_hits_post(p, fewer[k]);
        assert(more.contains(fewer[k]));
        let j = choose|j: int| 0 <= j < more.len() && more[j] == fewer[k];
        assert(token_hits_post(p, more[j]));
        assert(post_found(more)(p));
        let n = choose|n: int| 0 <= n < posts.len() && posts[n] == p;
        posts.lemma_filter_contains(post_found(more), n);
    }
    assert forall|d: Demos| #[trigger] communities.filter(demos_found(fewer)).contains(d) implies communities.filter(
        demos_found(more),
    ).contains(d) by {
        let f = communities.filter(demos_found(fewer));
        let i = choose|i: int| 0 <= i < f.len() && f[i] == d;
        communities.lemma_filter_pred(demos_found(fewer), i);
        communities.lemma_filter_contains_rev(demos_found(fewer), d);
        let k = choose|k: int| 0 <= k < fewer.len() && #[trigger] token_hits_demos(d, fewer[k]);
        assert(more.contains(fewer[k]));
        let j = choose|j: int| 0 <= j < more.len() && more[j] == fewer[k];
        assert(token_hits_demos(d, more[j]));
        assert(demos_found(more)(d));
        let n = choose|n: int| 0 <= n < communities.len() && communities[n] == d;
        communities.lemma_filter_contains(demos_found(more), n);
    }
}

/// The order (and repetition) of a query's tokens does not matter: two token
/// lists holding the same tokens find the same posts and the same
/// communities, in the same order.
pub proof fn law_token_order_does_not_matter(
    posts: Seq<Post>,
    communities: Seq<Demos>,
    a: Seq<Seq<char>>,
    b: Seq<Seq<char>>,
)
    requires
        forall|k: int| 0 <= k < a.len() ==> b.contains(#[trigger] a[k]),
        forall|k: int| 0 <= k < b.len() ==> a.contains(#[trigger] b[k]),
    ensures
        posts.filter(post_found(a)) == posts.filter(post_found(b)),
        communities.filter(demos_found(a)) == communities.filter(demos_found(b)),
{
    if a.len() > 0 {
        assert(b.contains(a[0]));
    }
    if b.len() > 0 {
        assert(a.contains(b[0]));
    }
    assert forall|p: Post| #[trigger] post_found(a)(p) == post_found(b)(p) by {
        if exists|k: int| 0 <= k < a.len() && #[trigger] token_hits_post(p, a[k]) {
            let k = choose|k: int| 0 <= k < a.len() && #[trigger] token_hits_post(p, a[k]);
            assert(b.contains(a[k]));
            let j = choose|j: int| 0 <= j < b.len() && b[j] == a[k];
            assert(token_hits_post(p, b[j]));
        }
        if exists|k: int| 0 <= k < b.len() && #[trigger] token_hits_post(p, b[k]) {
            let k = choose|k: int| 0 <= k < b.len() && #[trigger] token_hits_post(p, b[k]);
            assert(a.contains(b[k]));
            let j = choose|j: int| 0 <= j < a.len() && a[j] == b[k];
            assert(token_hits_post(p, a[j]));
        }
    }
    assert forall|d: Demos| #[trigger] demos_found(a)(d) == demos_found(b)(d) by {
        if exists|k: int| 0 <= k < a.len() && #[trigger] token_hits_demos(d, a[k]) {
            let k = choose|k: int| 0 <= k < a.len() && #[trigger] token_hits_demos(d, a[k]);
            assert(b.contains(a[k]));
            let j = choose|j: int| 0 <= j < b.len() && b[j] == a[k];
            assert(token_hits_demos(d, b[j]));
        }
        if exists|k: int| 0 <= k < b.len() && #[trigger] token_hits_demos(d, b[k]) {
            let k = choose|k: int| 0 <= k < b.len() && #[trigger] token_hits_demos(d, b[k]);
            assert(a.contains(b[k]));
            let j = choose|j: int| 0 <= j < a.len() && a[j] == b[k];
            assert(token_hits_demos(d, a[j]));
        }
    }
    assert(post_found(a) =~= post_found(b));
    assert(demos_found(a) =~= demos_found(b));
}

/// Search use-cases, over the post and community ports.
pub struct SearchService<P, D> {
    posts: P,
    demoi: D,
}

impl<P, D> SearchService<P, D> {
    /// The ports this service was built with.
    pub closed spec fn ports(&self) -> (P, D) {
        (self.posts, self.demoi)
    }

    /// Build the service over its ports.
    pub fn new(posts: P, demoi: D) -> (s: Self)
        ensures
            s.ports() == (posts, demoi),
    {
        SearchService { posts, demoi }
    }

    /// The query's tokens: its white-space separated words, lower-cased.
    pub fn query_tokens(&self, query: &str) -> (tokens: Vec<String>)
        ensures
            tokens@.len() == words(query@).len(),
            forall|k: int| 0 <= k < tokens@.len() ==> #[trigger] tokens@[k]@ == lowercased(words(query@)[k]),
            texts(tokens@) == query_token_texts(query@),
            forall|other: Seq<char>|
                ascii_folded(other) == ascii_folded(query@) ==> #[trigger] query_token_texts(other) == texts(tokens@),
    {
        let ws = split_words(query);
        let mut tokens: Vec<String> = Vec::new();
        let mut k: usize = 0;
        while k < ws.len()
            invariant
                k <= ws@.len(),
                ws@.len() == words(query@).len(),
                forall|j: int| 0 <= j < ws@.len() ==> #[trigger] ws@[j]@ == words(query@)[j],
                tokens@.len() == k,
                forall|j: int| 0 <= j < k ==> #[trigger] tokens@[j]@ == lowercased(words(query@)[j]),
                forall|j: int, t: Seq<char>|
                    0 <= j < k && ascii_folded(t) == ascii_folded(words(query@)[j]) ==> #[trigger] lowercased(t)
                        == #[trigger] tokens@[j]@,
            decreases ws@.len() - k,
        {
            let t = lowercase_text(ws[k]);
            tokens.push(t);
            k = k + 1;
        }
        assert(texts(tokens@) =~= query_token_texts(query@));
        assert forall|other: Seq<char>| ascii_folded(other) == ascii_folded(query@) implies #[trigger] query_token_texts(
            other,
        ) == texts(tokens@) by {
            lemma_fold_words(other, query@);
            assert forall|j: int| 0 <= j < tokens@.len() implies query_token_texts(other)[j] == texts(tokens@)[j] by {
                assert(ascii_folded(words(other)[j]) == ascii_folded(words(query@)[j]));
                assert(lowercased(words(other)[j]) == tokens@[j]@);
            }
            assert(query_token_texts(other) =~= texts(tokens@));
        }
        tokens
    }

    /// Where the candidate posts come from, given the scope and the
    /// (normalized) tag filter.
    pub fn post_source(&self, scope: SearchScope, tag: Option<String>) -> (s: PostSource)
        ensures
            match (tag, scope) {
                (Some(t), SearchScope::All) => s matches PostSource::TaggedAll(u) && u == t,
                (Some(t), SearchScope::Demos(id)) => s matches PostSource::TaggedIn(i, u) && i == id && u == t,
                (None, SearchScope::All) => s is All,
                (None, SearchScope::Demos(id)) => s matches PostSource::In(i) && i == id,
            },
    {
        match (tag, scope) {
            (Some(t), SearchScope::All) => PostSource::TaggedAll(t),
            (Some(t), SearchScope::Demos(id)) => PostSource::TaggedIn(id, t),
            (None, SearchScope::All) => PostSource::All,
            (None, SearchScope::Demos(id)) => PostSource::In(id),
        }
    }

    /// Where the candidate communities come from: communities are searched
    /// only site-wide; with a tag filter, by the tag index; without one, all of
    /// them, but only when there are tokens to match.
    pub fn community_source(&self, scope: SearchScope, tag: Option<String>, has_tokens: bool) -> (s: CommunitySource)
        ensures
            match scope {
                SearchScope::Demos(_) => s is Nothing,
                SearchScope::All => match tag {
                    Some(t) => s matches CommunitySource::Tagged(u) && u == t,
                    None => if has_tokens {
                        s is All
                    } else {
                        s is Nothing
                    },
                },
            },
    {
        match scope {
            SearchScope::Demos(_) => CommunitySource::Nothing,
            SearchScope::All => match tag {
                Some(t) => CommunitySource::Tagged(t),
                None => if has_tokens {
                    CommunitySource::All
                } else {
                    CommunitySource::Nothing
                },
            },
        }
    }

    /// The search results from the candidates: the listable candidate posts
    /// that some token matches (all listable ones when there are no tokens),
    /// and the candidate communities that some token matches (all of them when
    /// there are no tokens), each in candidate order.
    pub fn matching(&self, posts: Vec<Post>, communities: Vec<Demos>, tokens: &Vec<String>) -> (r: SearchResults)
        ensures
            r.posts@ == posts@.filter(post_found(texts(tokens@))),
            r.communities@ == communities@.filter(demos_found(texts(tokens@))),
    {
        let ghost tv = texts(tokens@);
        let n = posts.len();
        let ghost orig = posts@;
        let mut queue = reversed(posts);
        let mut kept: Vec<Post> = Vec::new();
        let mut i: usize = 0;
        while i < n
            invariant
                n == orig.len(),
                i <= n,
                tv == texts(tokens@),
                queue@.len() == n - i,
                forall|j: int| 0 <= j < queue@.len() ==> #[trigger] queue@[j] == orig[n - 1 - j],
                kept@ == orig.take(i as int).filter(post_found(tv)),
            decreases n - i,
        {
            proof {
                reveal_with_fuel(Seq::<Post>::filter, 1);
            }
            let p = queue.pop().unwrap();
            assert(p == orig[i as int]);
            assert(orig.take(i + 1).drop_last() =~= orig.take(i as int));
            let keep = !p.removed && !p.pending_review && self.any_token_hits_post(&p, tokens);
            if keep {
                kept.push(p);
            }
            i = i + 1;
        }
        assert(orig.take(n as int) =~= orig);
        let m = communities.len();
        let ghost corig = communities@;
        let mut cqueue = reversed(communities);
        let mut ckept: Vec<Demos> = Vec::new();
        let mut i: usize = 0;
        while i < m
            invariant
                m == corig.len(),
                i <= m,
                tv == texts(tokens@),
                cqueue@.len() == m - i,
                forall|j: int| 0 <= j < cqueue@.len() ==> #[trigger] cqueue@[j] == corig[m - 1 - j],
                ckept@ == corig.take(i as int).filter(demos_found(tv)),
            decreases m - i,
        {
            proof {
                reveal_with_fuel(Seq::<Demos>::filter, 1);
            }
            let d = cqueue.pop().unwrap();
            assert(d == corig[i as int]);
            assert(corig.take(i + 1).drop_last() =~= corig.take(i as int));
            if self.any_token_hits_demos(&d, tokens) {
                ckept.push(d);
            }
            i = i + 1;
        }
        assert(corig.take(m as int) =~= corig);
        SearchResults { posts: kept, communities: ckept }
    }

    /// Whether there are no tokens, or some token matches the post.
    fn any_token_hits_post(&self, p: &Post, tokens: &Vec<String>) -> (r: bool)
        ensures
            r == (tokens@.len() == 0 || exists|k: int|
                0 <= k < texts(tokens@).len() && #[trigger] token_hits_post(*p, texts(tokens@)[k])),
    {
        if tokens.len() == 0 {
            return true;
        }
        let mut k: usize = 0;
        while k < tokens.len()
            invariant
                k <= tokens@.len(),
                forall|j: int| 0 <= j < k ==> !token_hits_post(*p, #[trigger] texts(tokens@)[j]),
            decreases tokens@.len() - k,
        {
            if post_matches(p, &tokens[k]) {
                assert(token_hits_post(*p, texts(tokens@)[k as int]));
                return true;
            }
            k = k + 1;
        }
        false
    }

    /// Whether there are no tokens, or some token matches the community.
    fn any_token_hits_demos(&self, d: &Demos, tokens: &Vec<String>) -> (r: bool)
        ensures
            r == (tokens@.len() == 0 || exists|k: int|
                0 <= k < texts(tokens@).len() && #[trigger] token_hits_demos(*d, texts(tokens@)[k])),
    {
        if tokens.len() == 0 {
            return true;
        }
        let mut k: usize = 0;
        while k < tokens.len()
            invariant
                k <= tokens@.len(),
                forall|j: int| 0 <= j < k ==> !token_hits_demos(*d, #[trigger] texts(tokens@)[j]),
            decreases tokens@.len() - k,
        {
            if demos_matches(d, &tokens[k]) {
                assert(token_hits_demos(*d, texts(tokens@)[k as int]));
                return true;
            }
            k = k + 1;
        }
        false
    }
}

} // verus!
