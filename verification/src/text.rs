//! Character-level helpers over the text that flows, scopes and envelopes carry.
use vstd::prelude::*;
use vstd::string::*;

verus! {

broadcast use vstd::string::group_string_axioms;

/// The characters that carry Unicode's White_Space property, which is what
/// `char::is_whitespace` (and so `str::trim`) treats as space.
pub open spec fn is_ws(c: char) -> bool {
    ||| ('\u{9}' <= c && c <= '\u{d}')
    ||| c == ' '
    ||| c == '\u{85}'
    ||| c == '\u{a0}'
    ||| c == '\u{1680}'
    ||| ('\u{2000}' <= c && c <= '\u{200a}')
    ||| c == '\u{2028}'
    ||| c == '\u{2029}'
    ||| c == '\u{202f}'
    ||| c == '\u{205f}'
    ||| c == '\u{3000}'
}

/// A text is blank when trimming it leaves nothing: every character is space.
pub open spec fn blank(s: Seq<char>) -> bool {
    forall|i: int| 0 <= i < s.len() ==> is_ws(#[trigger] s[i])
}

pub fn char_is_ws(c: char) -> (b: bool)
    ensures
        b == is_ws(c),
{
    ('\u{9}' <= c && c <= '\u{d}') || c == ' ' || c == '\u{85}' || c == '\u{a0}' || c
        == '\u{1680}' || ('\u{2000}' <= c && c <= '\u{200a}') || c == '\u{2028}' || c
        == '\u{2029}' || c == '\u{202f}' || c == '\u{205f}' || c == '\u{3000}'
}

/// The characters of a text, in order.
pub fn chars_of(s: &str) -> (v: Vec<char>)
    ensures
        v@ == s@,
{
    let mut v: Vec<char> = Vec::new();
    for c in iter: s.chars()
        invariant
            v@ == iter.seq().take(iter.index() as int),
            iter.seq() == s@,
    {
        v.push(c);
    }
    v
}

/// Whether `s.trim().is_empty()`.
pub fn is_blank(s: &str) -> (b: bool)
    ensures
        b == blank(s@),
{
    let cs = chars_of(s);
    let mut i: usize = 0;
    while i < cs.len()
        invariant
            i <= cs@.len(),
            cs@ == s@,
            forall|j: int| 0 <= j < i ==> is_ws(#[trigger] cs@[j]),
        decreases cs@.len() - i,
    {
        if !char_is_ws(cs[i]) {
            return false;
        }
        i = i + 1;
    }
    true
}

/// Collects characters into a `String` (`FromIterator<char>` for `String`).
#[verifier::external_body]
pub(crate) fn string_from_chars(cs: &[char]) -> (s: String)
    ensures
        s@ == cs@,
{
    cs.iter().collect()
}

/// `a` followed by `b`, as a new `String`.
pub fn concat(a: &str, b: &str) -> (s: String)
    ensures
        s@ == a@ + b@,
{
    let mut s = <String as StringExecFns>::from_str(a);
    s.append(b);
    s
}

/// A copy of a text as an owned `String`.
pub fn owned(a: &str) -> (s: String)
    ensures
        s@ == a@,
{
    <String as StringExecFns>::from_str(a)
}

/// The pieces of `s` between occurrences of `sep`, as `str::split(sep)` yields them.
pub open spec fn split_on(s: Seq<char>, sep: char) -> Seq<Seq<char>>
    decreases s.len(),
{
    if s.len() == 0 {
        seq![Seq::<char>::empty()]
    } else {
        let rest = split_on(s.drop_last(), sep);
        if s.last() == sep {
            rest.push(Seq::<char>::empty())
        } else {
            rest.update(rest.len() - 1, rest.last().push(s.last()))
        }
    }
}

pub proof fn lemma_split_nonempty(s: Seq<char>, sep: char)
    ensures
        split_on(s, sep).len() >= 1,
    decreases s.len(),
{
    if s.len() > 0 {
        lemma_split_nonempty(s.drop_last(), sep);
    }
}

/// The last piece of a split is what follows the last separator: for any
/// `head` and a `tail` without `sep`, the last piece of `head + sep + tail` is
/// `tail`, and a text without `sep` is one piece.
pub proof fn law_split_last(head: Seq<char>, sep: char, tail: Seq<char>)
    requires
        forall|i: int| 0 <= i < tail.len() ==> tail[i] != sep,
    ensures
        split_on(head.push(sep) + tail, sep).last() == tail,
        split_on(tail, sep) == seq![tail],
    decreases tail.len(),
{
    let s = head.push(sep) + tail;
    lemma_split_nonempty(s, sep);
    if tail.len() == 0 {
        assert(s =~= head.push(sep));
        assert(s.drop_last() =~= head);
        assert(tail =~= Seq::<char>::empty());
    } else {
        let t = tail.drop_last();
        law_split_last(head, sep, t);
        assert(s.drop_last() =~= head.push(sep) + t);
        assert(s.last() == tail.last());
        lemma_split_nonempty(head.push(sep) + t, sep);
        assert(t.push(tail.last()) =~= tail);
        let rest = split_on(tail.drop_last(), sep);
        assert(rest == seq![t]);
        assert(rest.update(rest.len() - 1, rest.last().push(tail.last())) =~= seq![tail]);
    }
}

pub open spec fn views(v: Seq<String>) -> Seq<Seq<char>> {
    v.map_values(|x: String| x@)
}

/// `s.split(sep)` collected into owned pieces.
pub fn split_text(s: &str, sep: char) -> (parts: Vec<String>)
    ensures
        views(parts@) == split_on(s@, sep),
{
    let cs = chars_of(s);
    let mut parts: Vec<String> = Vec::new();
    let mut cur: Vec<char> = Vec::new();
    let mut i: usize = 0;
    while i < cs.len()
        invariant
            i <= cs@.len(),
            cs@ == s@,
            views(parts@).push(cur@) == split_on(cs@.take(i as int), sep),
        decreases cs@.len() - i,
    {
        let c = cs[i];
        proof {
            assert(cs@.take(i + 1).drop_last() == cs@.take(i as int));
            lemma_split_nonempty(cs@.take(i as int), sep);
        }
        if c == sep {
            let piece = string_from_chars(cur.as_slice());
            parts.push(piece);
            cur = Vec::new();
            assert(views(parts@) == views(parts@).drop_last().push(piece@));
        } else {
            cur.push(c);
        }
        i = i + 1;
        proof {
            assert(views(parts@).push(cur@) == split_on(cs@.take(i as int), sep));
        }
    }
    let piece = string_from_chars(cur.as_slice());
    parts.push(piece);
    assert(cs@.take(cs@.len() as int) == cs@);
    assert(views(parts@) == views(parts@).drop_last().push(piece@));
    parts
}

/// The decimal digit character for `d < 10`.
pub open spec fn digit_char(d: nat) -> char {
    if d == 0 { '0' }
    else if d == 1 { '1' }
    else if d == 2 { '2' }
    else if d == 3 { '3' }
    else if d == 4 { '4' }
    else if d == 5 { '5' }
    else if d == 6 { '6' }
    else if d == 7 { '7' }
    else if d == 8 { '8' }
    else { '9' }
}

/// The decimal text of a natural number, as `to_string` writes it.
pub open spec fn decimal(n: nat) -> Seq<char>
    decreases n,
{
    if n < 10 {
        seq![digit_char(n)]
    } else {
        decimal(n / 10).push(digit_char(n % 10))
    }
}

fn digit(d: u64) -> (c: char)
    requires
        d < 10,
    ensures
        c == digit_char(d as nat),
{
    if d == 0 { '0' }
    else if d == 1 { '1' }
    else if d == 2 { '2' }
    else if d == 3 { '3' }
    else if d == 4 { '4' }
    else if d == 5 { '5' }
    else if d == 6 { '6' }
    else if d == 7 { '7' }
    else if d == 8 { '8' }
    else { '9' }
}

fn push_decimal(n: u64, out: &mut Vec<char>)
    ensures
        final(out)@ == old(out)@ + decimal(n as nat),
    decreases n,
{
    if n >= 10 {
        push_decimal(n / 10, out);
    }
    out.push(digit(n % 10));
    proof {
        if n >= 10 {
            assert(old(out)@ + decimal(n as nat) == (old(out)@ + decimal((n / 10) as nat)).push(
                digit_char((n % 10) as nat),
            ));
        } else {
            assert(old(out)@ + decimal(n as nat) == old(out)@.push(digit_char(n as nat)));
        }
    }
}

/// `n.to_string()` for an unsigned integer.
pub fn u64_text(n: u64) -> (s: String)
    ensures
        s@ == decimal(n as nat),
{
    let mut cs: Vec<char> = Vec::new();
    push_decimal(n, &mut cs);
    assert(cs@ == Seq::<char>::empty() + decimal(n as nat));
    string_from_chars(cs.as_slice())
}

/// The decimal text of a signed integer, with a leading '-' when negative.
pub open spec fn signed_decimal(n: int) -> Seq<char> {
    if n < 0 {
        seq!['-'] + decimal((-n) as nat)
    } else {
        decimal(n as nat)
    }
}

/// `n.to_string()` for a signed integer.
pub fn i64_text(n: i64) -> (s: String)
    ensures
        s@ == signed_decimal(n as int),
{
    let mut cs: Vec<char> = Vec::new();
    if n < 0 {
        cs.push('-');
        let m: u64 = if n == i64::MIN { 9223372036854775808u64 } else { (-n) as u64 };
        push_decimal(m, &mut cs);
    } else {
        push_decimal(n as u64, &mut cs);
        assert(cs@ == Seq::<char>::empty() + decimal(n as nat));
    }
    string_from_chars(cs.as_slice())
}

}

verus! {

/// Whether two texts are the same character sequence.
pub fn same_text(a: &str, b: &str) -> (r: bool)
    ensures
        r == (a@ == b@),
{
    let x = chars_of(a);
    let y = chars_of(b);
    if x.len() != y.len() {
        return false;
    }
    let mut i: usize = 0;
    while i < x.len()
        invariant
            i <= x@.len(),
            x@.len() == y@.len(),
            x@ == a@,
            y@ == b@,
            forall|j: int| 0 <= j < i ==> x@[j] == y@[j],
        decreases x@.len() - i,
    {
        if x[i] != y[i] {
            return false;
        }
        i = i + 1;
    }
    assert(x@ =~= y@);
    true
}


/// A copy of a list of texts.
pub fn clone_texts(v: &Vec<String>) -> (r: Vec<String>)
    ensures
        views(r@) == views(v@),
{
    let mut r: Vec<String> = Vec::new();
    let mut i: usize = 0;
    while i < v.len()
        invariant
            i <= v@.len(),
            r@.len() == i,
            forall|j: int| 0 <= j < i ==> #[trigger] r@[j]@ == v@[j]@,
        decreases v@.len() - i,
    {
        r.push(v[i].clone());
        i = i + 1;
    }
    assert(views(r@) =~= views(v@));
    r
}


/// A text without its leading space.
pub open spec fn trim_start(s: Seq<char>) -> Seq<char>
    decreases s.len(),
{
    if s.len() > 0 && is_ws(s[0]) {
        trim_start(s.drop_first())
    } else {
        s
    }
}

/// A text without its trailing space.
pub open spec fn trim_end(s: Seq<char>) -> Seq<char>
    decreases s.len(),
{
    if s.len() > 0 && is_ws(s.last()) {
        trim_end(s.drop_last())
    } else {
        s
    }
}

/// A text without its leading and trailing space, as `str::trim` leaves it.
pub open spec fn trimmed(s: Seq<char>) -> Seq<char> {
    trim_end(trim_start(s))
}

/// `s[from..to].trim()` as an owned text.
pub fn trim_range(s: &Vec<char>, from: usize, to: usize) -> (t: String)
    requires
        from <= to <= s@.len(),
    ensures
        t@ == trimmed(s@.subrange(from as int, to as int)),
{
    let mut a = from;
    while a < to && char_is_ws(s[a])
        invariant
            from <= a <= to <= s@.len(),
            trim_start(s@.subrange(from as int, to as int)) == trim_start(s@.subrange(a as int, to as int)),
        decreases to - a,
    {
        assert(s@.subrange(a as int, to as int).drop_first() == s@.subrange(a + 1, to as int));
        a = a + 1;
    }
    let mut b = to;
    while b > a && char_is_ws(s[b - 1])
        invariant
            a <= b <= to <= s@.len(),
            trim_end(s@.subrange(a as int, to as int)) == trim_end(s@.subrange(a as int, b as int)),
        decreases b - a,
    {
        assert(s@.subrange(a as int, b as int).drop_last() == s@.subrange(a as int, b - 1));
        b = b - 1;
    }
    let mut out: Vec<char> = Vec::new();
    let mut k = a;
    while k < b
        invariant
            a <= k <= b <= s@.len(),
            out@ == s@.subrange(a as int, k as int),
        decreases b - k,
    {
        out.push(s[k]);
        k = k + 1;
    }
    string_from_chars(out.as_slice())
}

/// Whether `pat` occurs in `s` at position `i`.
pub open spec fn occurs_at(s: Seq<char>, pat: Seq<char>, i: int) -> bool {
    0 <= i && i + pat.len() <= s.len() && s.subrange(i, i + pat.len()) == pat
}

/// The positions at which `pat` occurs in `s`, as a predicate.
pub open spec fn occurs_in(s: Seq<char>, pat: Seq<char>) -> spec_fn(int) -> bool {
    |i: int| occurs_at(s, pat, i)
}

/// The first position at which `pat` occurs in `s`, as `str::find` gives it.
pub open spec fn find_sub(s: Seq<char>, pat: Seq<char>) -> Option<int> {
    crate::search::first_index(s.len() + 1, occurs_in(s, pat))
}

pub proof fn lemma_find_sub(s: Seq<char>, pat: Seq<char>)
    ensures
        match find_sub(s, pat) {
            Some(i) => occurs_at(s, pat, i) && forall|j: int| 0 <= j < i ==> !occurs_at(s, pat, j),
            None => forall|j: int| 0 <= j <= s.len() ==> !occurs_at(s, pat, j),
        },
{
    let p = occurs_in(s, pat);
    crate::search::lemma_first_index(s.len() + 1, p);
    match find_sub(s, pat) {
        Some(i) => {
            assert(p(i));
            assert forall|j: int| 0 <= j < i implies !occurs_at(s, pat, j) by {
                assert(!p(j));
            }
        },
        None => {
            assert forall|j: int| 0 <= j <= s.len() implies !occurs_at(s, pat, j) by {
                assert(!p(j));
            }
        },
    }
}

/// The first position at or after `from` at which `pat` occurs in `s`.
pub fn find_chars(s: &Vec<char>, pat: &Vec<char>, from: usize) -> (r: Option<usize>)
    requires
        from <= s@.len(),
    ensures
        match r {
            Some(i) => from <= i && find_sub(s@.skip(from as int), pat@) == Some(i - from),
            None => find_sub(s@.skip(from as int), pat@) is None,
        },
{
    let ghost t = s@.skip(from as int);
    let ghost p = occurs_in(t, pat@);
    let mut i: usize = from;
    loop
        invariant
            from <= i <= s@.len(),
            t == s@.skip(from as int),
            p == occurs_in(t, pat@),
            forall|j: int| 0 <= j < i - from ==> !#[trigger] p(j),
        ensures
            forall|j: int| 0 <= j < t.len() + 1 ==> !#[trigger] p(j),
        decreases s@.len() - i,
    {
        if pat.len() <= s.len() - i {
            let mut k: usize = 0;
            let mut same = true;
            while k < pat.len()
                invariant
                    i <= s@.len(),
                    i + pat@.len() <= s@.len(),
                    k <= pat@.len(),
                    same == forall|m: int| 0 <= m < k ==> s@[i + m] == pat@[m],
                decreases pat@.len() - k,
            {
                assert(i + k < s.len());
                if s[i + k] != pat[k] {
                    same = false;
                }
                k = k + 1;
            }
            proof {
                if same {
                    assert(t.subrange(i - from, i - from + pat@.len()) =~= pat@);
                } else {
                    let m = choose|m: int| 0 <= m < pat@.len() && s@[i + m] != pat@[m];
                    assert(t.subrange(i - from, i - from + pat@.len())[m] != pat@[m]);
                }
            }
            if same {
                proof {
                    crate::search::lemma_first_index_at(t.len() + 1, p, i - from);
                }
                return Some(i);
            }
        }
        assert(!p(i - from));
        if i == s.len() {
            break;
        }
        i = i + 1;
    }
    proof {
        crate::search::lemma_first_index_none(t.len() + 1, p);
    }
    None
}

/// `s` with every occurrence of `pat` replaced by `val`, left to right, as
/// `str::replace` does it for a pattern that is not empty.
pub open spec fn replace_all(s: Seq<char>, pat: Seq<char>, val: Seq<char>) -> Seq<char>
    decreases s.len(),
{
    if pat.len() == 0 {
        s
    } else {
        match find_sub(s, pat) {
            Some(i) => {
                proof {
                    lemma_find_sub(s, pat);
                }
                s.take(i) + val + replace_all(s.skip(i + pat.len()), pat, val)
            },
            None => s,
        }
    }
}

/// Appends `s[from..to]` to `out`.
pub fn push_range(out: &mut Vec<char>, s: &Vec<char>, from: usize, to: usize)
    requires
        from <= to <= s@.len(),
    ensures
        final(out)@ == old(out)@ + s@.subrange(from as int, to as int),
{
    let ghost start = out@;
    let mut k = from;
    while k < to
        invariant
            from <= k <= to <= s@.len(),
            out@ == start + s@.subrange(from as int, k as int),
        decreases to - k,
    {
        out.push(s[k]);
        k = k + 1;
        assert(out@ =~= start + s@.subrange(from as int, k as int));
    }
}

/// Replaces every occurrence of a pattern that is not empty.
pub fn replace_chars(s: &Vec<char>, pat: &Vec<char>, val: &Vec<char>) -> (r: Vec<char>)
    requires
        pat@.len() > 0,
    ensures
        r@ == replace_all(s@, pat@, val@),
{
    let mut out: Vec<char> = Vec::new();
    let mut pos: usize = 0;
    assert(s@.skip(0) == s@);
    loop
        invariant
            pos <= s@.len(),
            pat@.len() > 0,
            out@ + replace_all(s@.skip(pos as int), pat@, val@) == replace_all(s@, pat@, val@),
        decreases s@.len() - pos,
    {
        let ghost rest = s@.skip(pos as int);
        let ghost before = out@;
        proof {
            lemma_find_sub(rest, pat@);
        }
        match find_chars(s, pat, pos) {
            None => {
                push_range(&mut out, s, pos, s.len());
                assert(s@.subrange(pos as int, s@.len() as int) == rest);
                return out;
            },
            Some(i) => {
                assert(occurs_at(rest, pat@, i - pos));
                push_range(&mut out, s, pos, i);
                push_range(&mut out, val, 0, val.len());
                assert(val@.subrange(0, val@.len() as int) == val@);
                assert(s@.subrange(pos as int, i as int) == rest.take(i - pos));
                assert(rest.skip(i - pos + pat@.len()) == s@.skip(i + pat@.len()));
                assert(out@ == before + rest.take(i - pos) + val@);
                assert(i + pat@.len() <= s.len());
                pos = i + pat.len();
            },
        }
    }
}


/// A text-to-text map as its entries, with texts as characters.
pub open spec fn pairs_view(v: Seq<(String, String)>) -> Seq<(Seq<char>, Seq<char>)> {
    v.map_values(|e: (String, String)| (e.0@, e.1@))
}

/// The position of the first entry with key `key`.
pub open spec fn pair_index(entries: Seq<(Seq<char>, Seq<char>)>, key: Seq<char>) -> Option<int> {
    crate::search::first_index(entries.len(), pair_key_is(entries, key))
}

pub open spec fn pair_key_is(entries: Seq<(Seq<char>, Seq<char>)>, key: Seq<char>) -> spec_fn(int) -> bool {
    |i: int| entries[i].0 == key
}

/// The map after `insert(key, value)`: an entry with the key gets the value in
/// place, else the entry is appended.
pub open spec fn pairs_insert(entries: Seq<(Seq<char>, Seq<char>)>, key: Seq<char>, value: Seq<char>) -> Seq<(Seq<char>, Seq<char>)> {
    match pair_index(entries, key) {
        Some(i) => entries.update(i, (key, value)),
        None => entries.push((key, value)),
    }
}

/// The value a text map holds under `key`: that of its first entry with the key.
pub open spec fn pair_get(entries: Seq<(Seq<char>, Seq<char>)>, key: Seq<char>) -> Option<Seq<char>> {
    match pair_index(entries, key) {
        Some(i) => Some(entries[i].1),
        None => None,
    }
}

/// What an insert into a text map gives back: the key now holds the value,
/// and every other key holds what it held before.
pub proof fn law_pairs_insert_get(entries: Seq<(Seq<char>, Seq<char>)>, key: Seq<char>, value: Seq<char>, other: Seq<char>)
    ensures
        pair_get(pairs_insert(entries, key, value), key) == Some(value),
        other != key ==> pair_get(pairs_insert(entries, key, value), other) == pair_get(entries, other),
{
    let r = pairs_insert(entries, key, value);
    let p = pair_key_is(entries, key);
    crate::search::lemma_first_index(entries.len(), p);
    let pr = pair_key_is(r, key);
    let qo = pair_key_is(entries, other);
    let qr = pair_key_is(r, other);
    match pair_index(entries, key) {
        Some(i) => {
            assert forall|j: int| 0 <= j < i implies !#[trigger] pr(j) by {
                assert(!p(j));
            }
            assert(pr(i));
            crate::search::lemma_first_index_at(r.len(), pr, i);
            if other != key {
                assert forall|j: int| 0 <= j < entries.len() implies #[trigger] qo(j) == qr(j) by {}
                crate::search::lemma_first_index_ext(entries.len(), qo, qr);
                crate::search::lemma_first_index(entries.len(), qo);
            }
        },
        None => {
            assert forall|j: int| 0 <= j < entries.len() implies !#[trigger] pr(j) by {
                assert(!p(j));
            }
            assert(pr(entries.len() as int));
            crate::search::lemma_first_index_at(r.len(), pr, entries.len() as int);
            if other != key {
                assert forall|j: int| 0 <= j < entries.len() implies #[trigger] qo(j) == qr(j) by {}
                crate::search::lemma_first_index_ext(entries.len(), qo, qr);
                crate::search::lemma_first_index(entries.len(), qo);
                assert(!qr(entries.len() as int));
                assert(crate::search::first_index(r.len(), qr) == crate::search::first_index(entries.len(), qr));
            }
        },
    }
}

/// `map.insert(key, value)` on a text map's entries.
pub fn insert_pair(entries: &mut Vec<(String, String)>, key: String, value: String)
    ensures
        pairs_view(final(entries)@) == pairs_insert(pairs_view(old(entries)@), key@, value@),
{
    let ghost e = pairs_view(entries@);
    let ghost p = pair_key_is(e, key@);
    let mut i: usize = 0;
    while i < entries.len()
        invariant
            i <= entries@.len(),
            e == pairs_view(entries@),
            e == pairs_view(old(entries)@),
            p == pair_key_is(e, key@),
            forall|j: int| 0 <= j < i ==> !#[trigger] p(j),
        decreases entries@.len() - i,
    {
        if same_text(entries[i].0.as_str(), key.as_str()) {
            proof {
                assert(p(i as int));
                crate::search::lemma_first_index_at(e.len(), p, i as int);
            }
            entries.set(i, (key, value));
            proof {
                assert(pairs_view(entries@) =~= e.update(i as int, (key@, value@)));
            }
            return;
        }
        assert(!p(i as int));
        i = i + 1;
    }
    proof {
        crate::search::lemma_first_index_none(e.len(), p);
    }
    entries.push((key, value));
    proof {
        assert(pairs_view(entries@) =~= e.push((key@, value@)));
    }
}

/// A copy of a text map.
pub fn clone_pairs(v: &Vec<(String, String)>) -> (r: Vec<(String, String)>)
    ensures
        pairs_view(r@) == pairs_view(v@),
{
    let mut r: Vec<(String, String)> = Vec::new();
    let mut i: usize = 0;
    while i < v.len()
        invariant
            i <= v@.len(),
            r@.len() == i,
            forall|j: int| 0 <= j < i ==> #[trigger] r@[j].0@ == v@[j].0@ && r@[j].1@ == v@[j].1@,
        decreases v@.len() - i,
    {
        r.push((v[i].0.clone(), v[i].1.clone()));
        i = i + 1;
    }
    assert(pairs_view(r@) =~= pairs_view(v@));
    r
}

}
