//! Glob-style patterns where `*` stands for any run of characters, as used by
//! allow lists and permission checks.
use vstd::prelude::*;
use crate::search::{first_index, lemma_first_index, lemma_first_index_at, lemma_first_index_none};
use crate::text::chars_of;

verus! {

/// The position of the first `*` in a pattern.
pub open spec fn first_star(p: Seq<char>) -> Option<int> {
    first_index(p.len(), |i: int| p[i] == '*')
}

/// Whether `candidate` matches `pattern`: an empty pattern matches only the
/// empty text, `*` matches everything, a pattern without `*` matches itself,
/// a pattern that starts with `*` matches when the text after the `*`
/// matches some suffix of the candidate, and otherwise the text before the
/// first `*` must start the candidate while the pattern from the `*` on
/// matches the rest.
pub open spec fn glob_match(pattern: Seq<char>, candidate: Seq<char>) -> bool
    decreases pattern.len(), 0int,
{
    if pattern.len() == 0 {
        candidate.len() == 0
    } else if pattern.len() == 1 && pattern[0] == '*' {
        true
    } else {
        match first_star(pattern) {
            Some(idx) => {
                proof {
                    lemma_first_star_len(pattern);
                }
                if idx == 0 {
                    suffix_from_matches(pattern.skip(1), candidate, 0)
                } else if idx <= candidate.len() && candidate.take(idx) == pattern.take(idx) {
                    glob_match(pattern.skip(idx), candidate.skip(idx))
                } else {
                    false
                }
            },
            None => pattern == candidate,
        }
    }
}

/// Whether `pattern` matches `candidate` with its first `k` characters, or more, dropped.
pub open spec fn suffix_from_matches(pattern: Seq<char>, candidate: Seq<char>, k: int) -> bool
    decreases pattern.len(), candidate.len() + 1 - k,
{
    if k < 0 || k > candidate.len() {
        false
    } else {
        glob_match(pattern, candidate.skip(k)) || suffix_from_matches(pattern, candidate, k + 1)
    }
}

pub proof fn lemma_suffix_from_matches(pattern: Seq<char>, candidate: Seq<char>, k: int)
    requires
        0 <= k <= candidate.len(),
    ensures
        suffix_from_matches(pattern, candidate, k) == exists|j: int|
            k <= j <= candidate.len() && #[trigger] glob_match(pattern, candidate.skip(j)),
    decreases candidate.len() - k,
{
    if k < candidate.len() {
        lemma_suffix_from_matches(pattern, candidate, k + 1);
        if suffix_from_matches(pattern, candidate, k + 1) {
            let j = choose|j: int| k + 1 <= j <= candidate.len() && #[trigger] glob_match(pattern, candidate.skip(j));
            assert(k <= j <= candidate.len() && glob_match(pattern, candidate.skip(j)));
        }
    } else {
        assert(!suffix_from_matches(pattern, candidate, k + 1));
    }
    if glob_match(pattern, candidate.skip(k)) {
        assert(k <= k <= candidate.len() && glob_match(pattern, candidate.skip(k)));
    }
}

pub proof fn lemma_first_star_len(p: Seq<char>)
    ensures
        match first_star(p) {
            Some(i) => 0 <= i < p.len() && p[i] == '*' && forall|j: int| 0 <= j < i ==> p[j] != '*',
            None => forall|j: int| 0 <= j < p.len() ==> p[j] != '*',
        },
{
    let f = |i: int| p[i] == '*';
    lemma_first_index(p.len(), f);
    match first_star(p) {
        Some(i) => {
            assert forall|j: int| 0 <= j < i implies p[j] != '*' by {
                assert(!f(j));
            }
        },
        None => {
            assert forall|j: int| 0 <= j < p.len() implies p[j] != '*' by {
                assert(!f(j));
            }
        },
    }
}

proof fn lemma_first_star_at(p: Seq<char>, i: int)
    requires
        0 <= i < p.len(),
        p[i] == '*',
        forall|j: int| 0 <= j < i ==> p[j] != '*',
    ensures
        first_star(p) == Some(i),
{
    let f = |k: int| p[k] == '*';
    assert forall|j: int| 0 <= j < i implies !#[trigger] f(j) by {}
    lemma_first_index_at(p.len(), f, i);
}

proof fn lemma_first_star_none(p: Seq<char>)
    requires
        forall|j: int| 0 <= j < p.len() ==> p[j] != '*',
    ensures
        first_star(p) is None,
{
    let f = |k: int| p[k] == '*';
    assert forall|j: int| 0 <= j < p.len() implies !#[trigger] f(j) by {}
    lemma_first_index_none(p.len(), f);
}

proof fn lemma_glob_leading_star(p: Seq<char>, c: Seq<char>)
    requires
        p.len() > 1,
        p[0] == '*',
    ensures
        glob_match(p, c) == exists|k: int| 0 <= k <= c.len() && #[trigger] glob_match(p.skip(1), c.skip(k)),
{
    lemma_first_star_at(p, 0);
    lemma_suffix_from_matches(p.skip(1), c, 0);
}

proof fn lemma_glob_prefix(p: Seq<char>, c: Seq<char>, idx: int)
    requires
        0 < idx < p.len(),
        first_star(p) == Some(idx),
    ensures
        glob_match(p, c) == (idx <= c.len() && c.take(idx) == p.take(idx) && glob_match(p.skip(idx), c.skip(idx))),
{
    lemma_first_star_len(p);
}

proof fn lemma_glob_plain(p: Seq<char>, c: Seq<char>)
    requires
        p.len() > 0,
        first_star(p) is None,
    ensures
        glob_match(p, c) == (p == c),
{
    lemma_first_star_len(p);
}

/// Every pattern matches its own text: each `*` can stand for itself.
pub proof fn law_pattern_matches_itself(p: Seq<char>)
    ensures
        glob_match(p, p),
    decreases p.len(),
{
    if p.len() == 0 || (p.len() == 1 && p[0] == '*') {
    } else {
        lemma_first_star_len(p);
        match first_star(p) {
            Some(idx) => {
                if idx == 0 {
                    lemma_glob_leading_star(p, p);
                    law_pattern_matches_itself(p.skip(1));
                    assert(glob_match(p.skip(1), p.skip(1)));
                } else {
                    lemma_glob_prefix(p, p, idx);
                    law_pattern_matches_itself(p.skip(idx));
                }
            },
            None => {
                lemma_glob_plain(p, p);
            },
        }
    }
}

/// A trailing wildcard admits every continuation: a prefix without `*`
/// followed by `*` matches every text that starts with the prefix.
pub proof fn law_trailing_wildcard(prefix: Seq<char>, rest: Seq<char>)
    requires
        prefix.len() > 0,
        forall|k: int| 0 <= k < prefix.len() ==> prefix[k] != '*',
    ensures
        glob_match(prefix.push('*'), prefix + rest),
{
    let p = prefix.push('*');
    let c = prefix + rest;
    lemma_first_star_at(p, prefix.len() as int);
    assert(p.take(prefix.len() as int) =~= prefix);
    assert(c.take(prefix.len() as int) =~= prefix);
    assert(p.skip(prefix.len() as int) =~= seq!['*']);
    assert(glob_match(p.skip(prefix.len() as int), c.skip(prefix.len() as int)));
}

/// Whether `c[ci..]` starts with `p[from..to]`.
fn starts_with_at(p: &Vec<char>, from: usize, to: usize, c: &Vec<char>, ci: usize) -> (r: bool)
    requires
        from <= to <= p@.len(),
        ci <= c@.len(),
    ensures
        r == (to - from <= c@.len() - ci && c@.skip(ci as int).take(to - from) == p@.subrange(from as int, to as int)),
{
    let n = to - from;
    if n > c.len() - ci {
        return false;
    }
    assert(ci + n <= c.len());
    let mut k: usize = 0;
    while k < n
        invariant
            k <= n,
            n == to - from,
            from <= to <= p@.len(),
            ci + n <= c.len(),
            from + n <= p.len(),
            forall|m: int| 0 <= m < k ==> #[trigger] c@.skip(ci as int)[m] == p@.subrange(from as int, to as int)[m],
        decreases n - k,
    {
        if c[ci + k] != p[from + k] {
            assert(c@.skip(ci as int).take(n as int)[k as int] != p@.subrange(from as int, to as int)[k as int]);
            return false;
        }
        k = k + 1;
    }
    assert(c@.skip(ci as int).take(n as int) =~= p@.subrange(from as int, to as int));
    true
}

#[verifier::loop_isolation(false)]
fn glob_at(p: &Vec<char>, pi: usize, c: &Vec<char>, ci: usize) -> (r: bool)
    requires
        pi <= p@.len(),
        ci <= c@.len(),
    ensures
        r == glob_match(p@.skip(pi as int), c@.skip(ci as int)),
    decreases p@.len() - pi,
{
    let ghost ps = p@.skip(pi as int);
    let ghost cs = c@.skip(ci as int);
    if pi == p.len() {
        return ci == c.len();
    }
    if p.len() - pi == 1 && p[pi] == '*' {
        return true;
    }
    let mut s: usize = pi;
    while s < p.len() && p[s] != '*'
        invariant
            pi <= s <= p@.len(),
            forall|j: int| pi <= j < s ==> p@[j] != '*',
        decreases p@.len() - s,
    {
        s = s + 1;
    }
    proof {
        if s < p@.len() {
            lemma_first_star_at(ps, s - pi);
        } else {
            lemma_first_star_none(ps);
        }
    }
    if s == p.len() {
        // no star: the rest of the pattern must equal the rest of the candidate
        let r = p.len() - pi == c.len() - ci && starts_with_at(p, pi, p.len(), c, ci);
        proof {
            lemma_glob_plain(ps, cs);
            if p.len() - pi == c.len() - ci {
                assert(cs.take(cs.len() as int) == cs);
                assert(p@.subrange(pi as int, p@.len() as int) == ps);
            } else {
                assert(ps.len() != cs.len());
            }
        }
        return r;
    }
    proof {
        assert(ps.skip(s - pi + 1) == p@.skip(s + 1));
        assert(ps.skip(s - pi) == p@.skip(s as int));
        assert(ps.take(s - pi) == p@.subrange(pi as int, s as int));
    }
    if s == pi {
        proof {
            lemma_glob_leading_star(ps, cs);
        }
        let mut k: usize = ci;
        loop
            invariant
                ci <= k <= c@.len(),
                s + 1 <= p@.len(),
                forall|m: int| ci <= m < k ==> !glob_match(p@.skip(s + 1), c@.skip(m)),
            decreases c@.len() - k,
        {
            if glob_at(p, s + 1, c, k) {
                proof {
                    assert(cs.skip(k - ci) == c@.skip(k as int));
                    assert(ps.skip(1) == p@.skip(s + 1));
                    assert(glob_match(ps.skip(1), cs.skip(k - ci)));
                }
                return true;
            }
            if k == c.len() {
                break;
            }
            k = k + 1;
        }
        proof {
            assert forall|m: int| 0 <= m <= cs.len() implies !#[trigger] glob_match(ps.skip(1), cs.skip(m)) by {
                assert(cs.skip(m) == c@.skip(ci + m));
                assert(ps.skip(1) == p@.skip(s + 1));
            }
        }
        false
    } else {
        let n = s - pi;
        proof {
            lemma_glob_prefix(ps, cs, n as int);
        }
        if starts_with_at(p, pi, s, c, ci) {
            assert(ci + n <= c.len());
            proof {
                assert(cs.skip(n as int) == c@.skip(ci + n));
            }
            glob_at(p, s, c, ci + n)
        } else {
            false
        }
    }
}

/// Whether `candidate` matches `pattern`, `*` standing for any run of characters.
pub fn pattern_matches(pattern: &str, candidate: &str) -> (r: bool)
    ensures
        r == glob_match(pattern@, candidate@),
{
    let p = chars_of(pattern);
    let c = chars_of(candidate);
    proof {
        assert(p@.skip(0) == p@);
        assert(c@.skip(0) == c@);
    }
    glob_at(&p, 0, &c, 0)
}

}
