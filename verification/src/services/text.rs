//! Text helpers from std: trimming, lower-casing and splitting on white
//! space (all Unicode-aware), and a verified substring test.
use vstd::prelude::*;

verus! {

/// Whether `c` has Unicode's `White_Space` property (what
/// `char::is_whitespace` tests): tab through carriage return, space, next
/// line, no-break space, ogham space mark, the en quad through hair space,
/// line and paragraph separators, narrow no-break space, medium mathematical
/// space and ideographic space.
pub open spec fn is_white_space(c: char) -> bool {
    let u = c as u32;
    ||| 0x09 <= u <= 0x0d
    ||| u == 0x20
    ||| u == 0x85
    ||| u == 0xa0
    ||| u == 0x1680
    ||| 0x2000 <= u <= 0x200a
    ||| u == 0x2028
    ||| u == 0x2029
    ||| u == 0x202f
    ||| u == 0x205f
    ||| u == 0x3000
}

/// What `str::trim` leaves of `s`: `s` without its leading and trailing
/// white space.
pub open spec fn trimmed(s: Seq<char>) -> Seq<char>
    decreases s.len(),
{
    if s.len() > 0 && is_white_space(s[0]) {
        trimmed(s.drop_first())
    } else if s.len() > 0 && is_white_space(s.last()) {
        trimmed(s.drop_last())
    } else {
        s
    }
}

/// Trimming cuts white space from both ends and nothing else: what is left is
/// a contiguous part of the text that neither starts nor ends with white
/// space, and everything cut before or after it is white space.
pub proof fn law_trimming_cuts_only_outer_white_space(s: Seq<char>)
    ensures
        trimmed(s).len() == 0 || (!is_white_space(trimmed(s)[0]) && !is_white_space(trimmed(s).last())),
        exists|i: int, j: int|
            #![trigger s.subrange(i, j)]
            0 <= i <= j <= s.len() && trimmed(s) == s.subrange(i, j) && (forall|k: int|
                0 <= k < i ==> is_white_space(#[trigger] s[k])) && (forall|k: int|
                j <= k < s.len() ==> is_white_space(#[trigger] s[k])),
{
    let (i, j) = lemma_trimmed_span(s);
    assert(trimmed(s) == s.subrange(i, j));
}

/// Where the trimmed part of `s` starts and ends.
proof fn lemma_trimmed_span(s: Seq<char>) -> (ij: (int, int))
    ensures
        0 <= ij.0 <= ij.1 <= s.len(),
        trimmed(s) == s.subrange(ij.0, ij.1),
        forall|k: int| 0 <= k < ij.0 ==> is_white_space(#[trigger] s[k]),
        forall|k: int| ij.1 <= k < s.len() ==> is_white_space(#[trigger] s[k]),
        trimmed(s).len() == 0 || (!is_white_space(trimmed(s)[0]) && !is_white_space(trimmed(s).last())),
    decreases s.len(),
{
    if s.len() > 0 && is_white_space(s[0]) {
        let d = s.drop_first();
        let (i, j) = lemma_trimmed_span(d);
        assert(d.subrange(i, j) =~= s.subrange(i + 1, j + 1));
        assert forall|k: int| 0 <= k < i + 1 implies is_white_space(#[trigger] s[k]) by {
            if k > 0 {
                assert(s[k] == d[k - 1]);
            }
        }
        assert forall|k: int| j + 1 <= k < s.len() implies is_white_space(#[trigger] s[k]) by {
            assert(s[k] == d[k - 1]);
        }
        (i + 1, j + 1)
    } else if s.len() > 0 && is_white_space(s.last()) {
        let d = s.drop_last();
        let (i, j) = lemma_trimmed_span(d);
        assert(d.subrange(i, j) =~= s.subrange(i, j));
        assert forall|k: int| 0 <= k < i implies is_white_space(#[trigger] s[k]) by {
            assert(s[k] == d[k]);
        }
        assert forall|k: int| j <= k < s.len() implies is_white_space(#[trigger] s[k]) by {
            if k < s.len() - 1 {
                assert(s[k] == d[k]);
            }
        }
        (i, j)
    } else {
        assert(s.subrange(0, s.len() as int) =~= s);
        (0, s.len() as int)
    }
}

/// What `str::to_lowercase` makes of `s`.
pub uninterp spec fn lowercased(s: Seq<char>) -> Seq<char>;

/// How many characters the word starting `s` has (zero when `s` is empty or
/// starts with white space).
pub open spec fn first_word_len(s: Seq<char>) -> nat
    decreases s.len(),
{
    if s.len() == 0 || is_white_space(s[0]) {
        0
    } else {
        1 + first_word_len(s.drop_first())
    }
}

/// The words `str::split_whitespace` finds in `s`, in order: the maximal runs
/// of characters that are not white space.
pub open spec fn words(s: Seq<char>) -> Seq<Seq<char>>
    decreases s.len(),
{
    if s.len() == 0 {
        Seq::empty()
    } else if is_white_space(s[0]) {
        words(s.drop_first())
    } else {
        let n = first_word_len(s);
        proof {
            lemma_first_word_len_bounds(s);
        }
        seq![s.take(n as int)] + words(s.skip(n as int))
    }
}

/// A word starting a text lies within it, and is not empty when the text
/// starts with a character that is not white space.
pub proof fn lemma_first_word_len_bounds(s: Seq<char>)
    ensures
        first_word_len(s) <= s.len(),
        s.len() > 0 && !is_white_space(s[0]) ==> first_word_len(s) >= 1,
    decreases s.len(),
{
    if s.len() > 0 && !is_white_space(s[0]) {
        lemma_first_word_len_bounds(s.drop_first());
    }
}

/// Joining two texts with a space joins their words: the words of
/// `a + " " + b` are the words of `a` followed by those of `b`.
pub proof fn law_words_of_joined_text(a: Seq<char>, b: Seq<char>)
    ensures
        words(a + seq![' '] + b) == words(a) + words(b),
    decreases a.len(),
{
    let j = a + seq![' '] + b;
    assert(is_white_space(' '));
    if a.len() == 0 {
        assert(j.drop_first() =~= b);
        assert(words(a) =~= Seq::<Seq<char>>::empty());
        assert(words(a) + words(b) =~= words(b));
    } else if is_white_space(a[0]) {
        assert(j.drop_first() =~= a.drop_first() + seq![' '] + b);
        law_words_of_joined_text(a.drop_first(), b);
    } else {
        lemma_first_word_len_bounds(a);
        lemma_first_word_stops_at_space(a, b);
        let n = first_word_len(a) as int;
        assert(j.take(n) =~= a.take(n));
        assert(j.skip(n) =~= a.skip(n) + seq![' '] + b);
        law_words_of_joined_text(a.skip(n), b);
        assert(seq![a.take(n)] + (words(a.skip(n)) + words(b)) =~= (seq![a.take(n)] + words(a.skip(n)))
            + words(b));
    }
}

/// The word starting `a + " " + b` is the word starting `a`.
proof fn lemma_first_word_stops_at_space(a: Seq<char>, b: Seq<char>)
    ensures
        first_word_len(a + seq![' '] + b) == first_word_len(a),
    decreases a.len(),
{
    let j = a + seq![' '] + b;
    assert(is_white_space(' '));
    if a.len() == 0 {
        assert(j[0] == ' ');
    } else if !is_white_space(a[0]) {
        assert(j.drop_first() =~= a.drop_first() + seq![' '] + b);
        lemma_first_word_stops_at_space(a.drop_first(), b);
    }
}

/// Folding ASCII case never turns white space into a letter or back.
proof fn lemma_fold_keeps_white_space(c: char)
    ensures
        is_white_space(ascii_lower_char(c)) == is_white_space(c),
{
}

/// Two texts with the same ASCII fold have the same first-word length.
proof fn lemma_fold_first_word(a: Seq<char>, b: Seq<char>)
    requires
        ascii_folded(a) == ascii_folded(b),
    ensures
        first_word_len(a) == first_word_len(b),
    decreases a.len(),
{
    assert(a.len() == ascii_folded(a).len() && b.len() == ascii_folded(b).len());
    if a.len() > 0 {
        assert(ascii_folded(a)[0] == ascii_lower_char(a[0]));
        assert(ascii_folded(b)[0] == ascii_lower_char(b[0]));
        assert(ascii_lower_char(a[0]) == ascii_lower_char(b[0]));
        lemma_fold_keeps_white_space(a[0]);
        lemma_fold_keeps_white_space(b[0]);
        assert(is_white_space(a[0]) == is_white_space(b[0]));
        assert(ascii_folded(a.drop_first()) =~= ascii_folded(a).drop_first());
        assert(ascii_folded(b.drop_first()) =~= ascii_folded(b).drop_first());
        lemma_fold_first_word(a.drop_first(), b.drop_first());
    }
}

/// Two texts that differ only in ASCII letter case have as many words, and
/// their words pair up word by word with the same ASCII fold.
pub proof fn lemma_fold_words(a: Seq<char>, b: Seq<char>)
    requires
        ascii_folded(a) == ascii_folded(b),
    ensures
        words(a).len() == words(b).len(),
        forall|k: int| 0 <= k < words(a).len() ==> ascii_folded(#[trigger] words(a)[k]) == ascii_folded(words(b)[k]),
    decreases a.len(),
{
    assert(a.len() == ascii_folded(a).len() && b.len() == ascii_folded(b).len());
    if a.len() > 0 {
        assert(ascii_folded(a)[0] == ascii_lower_char(a[0]));
        assert(ascii_folded(b)[0] == ascii_lower_char(b[0]));
        assert(ascii_lower_char(a[0]) == ascii_lower_char(b[0]));
        lemma_fold_keeps_white_space(a[0]);
        lemma_fold_keeps_white_space(b[0]);
        assert(is_white_space(a[0]) == is_white_space(b[0]));
        if is_white_space(a[0]) {
            assert(ascii_folded(a.drop_first()) =~= ascii_folded(a).drop_first());
            assert(ascii_folded(b.drop_first()) =~= ascii_folded(b).drop_first());
            lemma_fold_words(a.drop_first(), b.drop_first());
        } else {
            lemma_fold_first_word(a, b);
            lemma_first_word_len_bounds(a);
            let n = first_word_len(a) as int;
            assert(ascii_folded(a.skip(n)) =~= ascii_folded(a).skip(n));
            assert(ascii_folded(b.skip(n)) =~= ascii_folded(b).skip(n));
            assert(ascii_folded(a.take(n)) =~= ascii_folded(a).take(n));
            assert(ascii_folded(b.take(n)) =~= ascii_folded(b).take(n));
            lemma_fold_words(a.skip(n), b.skip(n));
            let wa = words(a);
            let wb = words(b);
            assert forall|k: int| 0 <= k < wa.len() implies ascii_folded(#[trigger] wa[k]) == ascii_folded(wb[k]) by {
                if k > 0 {
                    assert(wa[k] == words(a.skip(n))[k - 1]);
                    assert(wb[k] == words(b.skip(n))[k - 1]);
                }
            }
        }
    }
}

/// Trusted: `str::trim`. Claims that the result is the argument without its
/// leading and trailing white space, as std documents it (white space as
/// Unicode's `White_Space` property defines it).
#[verifier::external_body]
pub fn trim_text(s: &str) -> (r: &str)
    ensures
        r@ == trimmed(s@),
{
    s.trim()
}

/// `c` with an ASCII capital letter replaced by its small letter; any other
/// character unchanged.
pub open spec fn ascii_lower_char(c: char) -> char {
    if 'A' <= c && c <= 'Z' {
        ((c as u32) + 32) as char
    } else {
        c
    }
}

/// `s` with its ASCII capital letters replaced by their small letters.
pub open spec fn ascii_folded(s: Seq<char>) -> Seq<char> {
    s.map_values(|c: char| ascii_lower_char(c))
}

/// Trusted: `str::to_lowercase`. Claims that the result is the named
/// lower-casing of the argument, and, as std documents it, that the ASCII
/// letter case of the argument does not matter: every text that differs from
/// the argument only in the case of ASCII letters lower-cases to the same
/// result (each ASCII capital maps to its small letter, and the one
/// context-dependent mapping, final sigma, looks only at whether neighbours
/// are cased letters, which ASCII letters are in either case).
#[verifier::external_body]
pub fn lowercase_text(s: &str) -> (r: String)
    ensures
        r@ == lowercased(s@),
        forall|t: Seq<char>| ascii_folded(t) == ascii_folded(s@) ==> #[trigger] lowercased(t) == r@,
{
    s.to_lowercase()
}

/// Trusted: `str::split_whitespace`, its words gathered into a `Vec`.
/// Claims, as std documents it, that the words are the maximal runs of
/// characters that are not white space, in order.
#[verifier::external_body]
pub fn split_words(s: &str) -> (r: Vec<&str>)
    ensures
        r@.len() == words(s@).len(),
        forall|k: int| 0 <= k < r@.len() ==> #[trigger] r@[k]@ == words(s@)[k],
{
    s.split_whitespace().collect()
}

/// Whether `needle` occurs in `hay` as a contiguous run (the empty text occurs
/// everywhere), as `str::contains` tests.
pub open spec fn occurs_in(hay: Seq<char>, needle: Seq<char>) -> bool {
    exists|i: int| 0 <= i <= hay.len() - needle.len() && #[trigger] hay.subrange(i, i + needle.len()) == needle
}

/// A text occurs wherever it stands inside another, at its start, its end or
/// in between, and never in a shorter text.
pub proof fn law_text_occurs_wherever_it_stands(before: Seq<char>, needle: Seq<char>, after: Seq<char>, hay: Seq<char>)
    ensures
        occurs_in(before + needle + after, needle),
        needle.len() > hay.len() ==> !occurs_in(hay, needle),
{
    let whole = before + needle + after;
    assert(whole.subrange(before.len() as int, (before.len() + needle.len()) as int) =~= needle);
}

/// Whether `needle` occurs in `hay`.
pub fn contains_text(hay: &Vec<char>, needle: &Vec<char>) -> (r: bool)
    ensures
        r == occurs_in(hay@, needle@),
{
    let h = hay.len();
    let m = needle.len();
    if m > h {
        return false;
    }
    let mut i: usize = 0;
    while i <= h - m
        invariant
            h == hay@.len(),
            m == needle@.len(),
            m <= h,
            i <= h - m + 1,
            forall|j: int| 0 <= j < i ==> #[trigger] hay@.subrange(j, j + m) != needle@,
        decreases h - m + 1 - i,
    {
        let mut k: usize = 0;
        let mut same = true;
        while k < m
            invariant
                h == hay@.len(),
                m == needle@.len(),
                i + m <= h,
                k <= m,
                same == (forall|t: int| 0 <= t < k ==> hay@[i + t] == needle@[t]),
            decreases m - k,
        {
            if hay[i + k] != needle[k] {
                same = false;
            }
            k = k + 1;
        }
        if same {
            assert(hay@.subrange(i as int, i + m) =~= needle@);
            return true;
        }
        assert(hay@.subrange(i as int, i + m) != needle@) by {
            let t = choose|t: int| 0 <= t < m && hay@[i + t] != needle@[t];
            assert(hay@.subrange(i as int, i + m)[t] == hay@[i + t]);
        }
        i = i + 1;
    }
    false
}

} // verus!
