//! Text utilities shared by the parsers and the renderer: character
//! classification, first-occurrence scans, trimming, tokenisation
//! boundaries, and a substring-containment relation.

use vstd::prelude::*;

verus! {

/// The whitespace characters recognised by the tokenisers: the ASCII
/// blank characters that occur in the system files this library reads.
pub open spec fn is_space_char(c: char) -> bool {
    c == ' ' || c == '\t' || c == '\n' || c == '\r'
}

/// Runtime test for [`is_space_char`].
pub fn is_space(c: char) -> (r: bool)
    ensures
        r == is_space_char(c),
{
    c == ' ' || c == '\t' || c == '\n' || c == '\r'
}

/// Index of the first occurrence of `c` in `s` at or after `from`;
/// `s.len()` if there is none.
pub open spec fn find_char_at(s: Seq<char>, from: int, c: char) -> int
    decreases s.len() - from,
{
    if from < 0 || from >= s.len() {
        s.len() as int
    } else if s[from] == c {
        from
    } else {
        find_char_at(s, from + 1, c)
    }
}

pub proof fn lemma_find_char_at(s: Seq<char>, from: int, c: char)
    requires
        0 <= from <= s.len(),
    ensures
        from <= find_char_at(s, from, c) <= s.len(),
        find_char_at(s, from, c) < s.len() ==> s[find_char_at(s, from, c)] == c,
        forall|j: int| from <= j < find_char_at(s, from, c) ==> s[j] != c,
    decreases s.len() - from,
{
    if from < s.len() && s[from] != c {
        lemma_find_char_at(s, from + 1, c);
    }
}

pub proof fn lemma_find_char_at_is(s: Seq<char>, from: int, c: char, i: int)
    requires
        0 <= from <= i <= s.len(),
        forall|j: int| from <= j < i ==> s[j] != c,
        i == s.len() || s[i] == c,
    ensures
        find_char_at(s, from, c) == i,
    decreases i - from,
{
    if from < i {
        lemma_find_char_at_is(s, from + 1, c, i);
    }
}

/// Scanning a suffix finds the same occurrence, shifted.
pub proof fn lemma_find_char_skip(s: Seq<char>, pos: int, c: char)
    requires
        0 <= pos <= s.len(),
    ensures
        find_char_at(s.skip(pos), 0, c) == find_char_at(s, pos, c) - pos,
{
    let i = find_char_at(s, pos, c);
    lemma_find_char_at(s, pos, c);
    let t = s.skip(pos);
    assert forall|j: int| 0 <= j < i - pos implies t[j] != c by {
        assert(t[j] == s[j + pos]);
    }
    lemma_find_char_at_is(t, 0, c, i - pos);
}

/// Index of the first whitespace character at or after `from`; `s.len()` if none.
pub open spec fn next_space(s: Seq<char>, from: int) -> int
    decreases s.len() - from,
{
    if from < 0 || from >= s.len() {
        s.len() as int
    } else if is_space_char(s[from]) {
        from
    } else {
        next_space(s, from + 1)
    }
}

pub proof fn lemma_next_space(s: Seq<char>, from: int)
    requires
        0 <= from <= s.len(),
    ensures
        from <= next_space(s, from) <= s.len(),
        next_space(s, from) < s.len() ==> is_space_char(s[next_space(s, from)]),
        forall|j: int| from <= j < next_space(s, from) ==> !is_space_char(s[j]),
    decreases s.len() - from,
{
    if from < s.len() && !is_space_char(s[from]) {
        lemma_next_space(s, from + 1);
    }
}

pub proof fn lemma_next_space_is(s: Seq<char>, from: int, i: int)
    requires
        0 <= from <= i <= s.len(),
        forall|j: int| from <= j < i ==> !is_space_char(s[j]),
        i == s.len() || is_space_char(s[i]),
    ensures
        next_space(s, from) == i,
    decreases i - from,
{
    if from < i {
        lemma_next_space_is(s, from + 1, i);
    }
}

/// Index of the first non-whitespace character at or after `from`; `s.len()` if none.
pub open spec fn next_non_space(s: Seq<char>, from: int) -> int
    decreases s.len() - from,
{
    if from < 0 || from >= s.len() {
        s.len() as int
    } else if !is_space_char(s[from]) {
        from
    } else {
        next_non_space(s, from + 1)
    }
}

pub proof fn lemma_next_non_space(s: Seq<char>, from: int)
    requires
        0 <= from <= s.len(),
    ensures
        from <= next_non_space(s, from) <= s.len(),
        next_non_space(s, from) < s.len() ==> !is_space_char(s[next_non_space(s, from)]),
        forall|j: int| from <= j < next_non_space(s, from) ==> is_space_char(s[j]),
    decreases s.len() - from,
{
    if from < s.len() && is_space_char(s[from]) {
        lemma_next_non_space(s, from + 1);
    }
}

pub proof fn lemma_next_non_space_is(s: Seq<char>, from: int, i: int)
    requires
        0 <= from <= i <= s.len(),
        forall|j: int| from <= j < i ==> is_space_char(s[j]),
        i == s.len() || !is_space_char(s[i]),
    ensures
        next_non_space(s, from) == i,
    decreases i - from,
{
    if from < i {
        lemma_next_non_space_is(s, from + 1, i);
    }
}

/// Runtime scan for the first occurrence of `c` at or after `from`.
pub fn find_char_from(s: &str, from: usize, c: char) -> (r: usize)
    requires
        from <= s@.len(),
    ensures
        r == find_char_at(s@, from as int, c),
{
    let n = s.unicode_len();
    let mut i = from;
    while i < n
        invariant
            from <= i <= n,
            n == s@.len(),
            forall|j: int| from <= j < i ==> s@[j] != c,
        decreases n - i,
    {
        if s.get_char(i) == c {
            proof {
                lemma_find_char_at_is(s@, from as int, c, i as int);
            }
            return i;
        }
        i += 1;
    }
    proof {
        lemma_find_char_at_is(s@, from as int, c, s@.len() as int);
    }
    i
}

/// Runtime scan for the first whitespace character at or after `from`.
pub fn find_space_from(s: &str, from: usize) -> (r: usize)
    requires
        from <= s@.len(),
    ensures
        r == next_space(s@, from as int),
{
    let n = s.unicode_len();
    let mut i = from;
    while i < n
        invariant
            from <= i <= n,
            n == s@.len(),
            forall|j: int| from <= j < i ==> !is_space_char(s@[j]),
        decreases n - i,
    {
        if is_space(s.get_char(i)) {
            proof {
                lemma_next_space_is(s@, from as int, i as int);
            }
            return i;
        }
        i += 1;
    }
    proof {
        lemma_next_space_is(s@, from as int, s@.len() as int);
    }
    i
}

/// Runtime scan for the first non-whitespace character at or after `from`.
pub fn find_non_space_from(s: &str, from: usize) -> (r: usize)
    requires
        from <= s@.len(),
    ensures
        r == next_non_space(s@, from as int),
{
    let n = s.unicode_len();
    let mut i = from;
    while i < n
        invariant
            from <= i <= n,
            n == s@.len(),
            forall|j: int| from <= j < i ==> is_space_char(s@[j]),
        decreases n - i,
    {
        if !is_space(s.get_char(i)) {
            proof {
                lemma_next_non_space_is(s@, from as int, i as int);
            }
            return i;
        }
        i += 1;
    }
    proof {
        lemma_next_non_space_is(s@, from as int, s@.len() as int);
    }
    i
}

/// `s` without its leading whitespace.
pub open spec fn trim_start_spec(s: Seq<char>) -> Seq<char>
    decreases s.len(),
{
    if s.len() > 0 && is_space_char(s[0]) {
        trim_start_spec(s.drop_first())
    } else {
        s
    }
}

/// `s` without its trailing whitespace.
pub open spec fn trim_end_spec(s: Seq<char>) -> Seq<char>
    decreases s.len(),
{
    if s.len() > 0 && is_space_char(s.last()) {
        trim_end_spec(s.drop_last())
    } else {
        s
    }
}

/// `s` without leading and trailing whitespace.
pub open spec fn trimmed(s: Seq<char>) -> Seq<char> {
    trim_end_spec(trim_start_spec(s))
}

proof fn lemma_trim_start_is(s: Seq<char>, a: int)
    requires
        0 <= a <= s.len(),
        forall|j: int| 0 <= j < a ==> is_space_char(s[j]),
        a == s.len() || !is_space_char(s[a]),
    ensures
        trim_start_spec(s) == s.subrange(a, s.len() as int),
    decreases a,
{
    if a == 0 {
        assert(s.subrange(0, s.len() as int) =~= s);
    } else {
        lemma_trim_start_is(s.drop_first(), a - 1);
        assert(s.drop_first().subrange(a - 1, s.drop_first().len() as int) =~= s.subrange(
            a,
            s.len() as int,
        ));
    }
}

proof fn lemma_trim_end_is(s: Seq<char>, b: int)
    requires
        0 <= b <= s.len(),
        forall|j: int| b <= j < s.len() ==> is_space_char(s[j]),
        b == 0 || !is_space_char(s[b - 1]),
    ensures
        trim_end_spec(s) == s.subrange(0, b),
    decreases s.len(),
{
    if b == s.len() {
        assert(s.subrange(0, b) =~= s);
    } else {
        assert(is_space_char(s.last()));
        lemma_trim_end_is(s.drop_last(), b);
        assert(s.drop_last().subrange(0, b) =~= s.subrange(0, b));
    }
}

/// Remove leading and trailing whitespace from `s`.
pub fn trim(s: &str) -> (r: String)
    ensures
        r@ == trimmed(s@),
{
    let n = s.unicode_len();
    let a = find_non_space_from(s, 0);
    proof {
        lemma_next_non_space(s@, 0);
    }
    let mut b = n;
    while b > a && is_space(s.get_char(b - 1))
        invariant
            a <= b <= n,
            n == s@.len(),
            a == next_non_space(s@, 0),
            forall|j: int| b <= j < n ==> is_space_char(s@[j]),
        decreases b,
    {
        b = b - 1;
    }
    proof {
        lemma_next_non_space(s@, 0);
        lemma_trim_start_is(s@, a as int);
        let sub = s@.subrange(a as int, s@.len() as int);
        assert forall|j: int| (b - a) <= j < sub.len() implies is_space_char(sub[j]) by {
            assert(sub[j] == s@[j + a]);
        }
        if b > a {
            assert(!is_space_char(sub[b - a - 1]));
        }
        lemma_trim_end_is(sub, b - a);
        assert(sub.subrange(0, b - a) =~= s@.subrange(a as int, b as int));
    }
    s.substring_char(a, b).to_owned()
}

/// Character-by-character string equality.
pub fn str_eq(a: &str, b: &str) -> (r: bool)
    ensures
        r == (a@ == b@),
{
    let n = a.unicode_len();
    if n != b.unicode_len() {
        proof {
            if a@ == b@ {
                assert(a@.len() == b@.len());
            }
        }
        return false;
    }
    let mut i: usize = 0;
    while i < n
        invariant
            i <= n,
            n == a@.len(),
            n == b@.len(),
            forall|j: int| 0 <= j < i ==> a@[j] == b@[j],
        decreases n - i,
    {
        if a.get_char(i) != b.get_char(i) {
            proof {
                if a@ == b@ {
                    assert(a@[i as int] == b@[i as int]);
                }
            }
            return false;
        }
        i += 1;
    }
    proof {
        assert(a@ =~= b@);
    }
    true
}

/// Start of the first whitespace-separated token.
pub open spec fn tok1_start(l: Seq<char>) -> int {
    next_non_space(l, 0)
}

/// End of the first whitespace-separated token.
pub open spec fn tok1_end(l: Seq<char>) -> int {
    next_space(l, tok1_start(l))
}

/// Start of the second whitespace-separated token.
pub open spec fn tok2_start(l: Seq<char>) -> int {
    next_non_space(l, tok1_end(l))
}

/// End of the second whitespace-separated token.
pub open spec fn tok2_end(l: Seq<char>) -> int {
    next_space(l, tok2_start(l))
}

/// `l` yields at least two whitespace-separated tokens.
pub open spec fn has_two_tokens(l: Seq<char>) -> bool {
    tok2_start(l) < l.len()
}

pub open spec fn token1(l: Seq<char>) -> Seq<char> {
    l.subrange(tok1_start(l), tok1_end(l))
}

pub open spec fn token2(l: Seq<char>) -> Seq<char> {
    l.subrange(tok2_start(l), tok2_end(l))
}

/// The first two whitespace-separated tokens of `l`, if it has two.
pub fn first_two_tokens(l: &str) -> (r: Option<(String, String)>)
    ensures
        r is Some <==> has_two_tokens(l@),
        r matches Some(t) ==> t.0@ == token1(l@) && t.1@ == token2(l@),
{
    let n = l.unicode_len();
    let a1 = find_non_space_from(l, 0);
    proof {
        lemma_next_non_space(l@, 0);
    }
    let b1 = find_space_from(l, a1);
    proof {
        lemma_next_space(l@, a1 as int);
    }
    let a2 = find_non_space_from(l, b1);
    proof {
        lemma_next_non_space(l@, b1 as int);
    }
    if a2 == n {
        return None;
    }
    let b2 = find_space_from(l, a2);
    proof {
        lemma_next_space(l@, a2 as int);
    }
    let t1 = l.substring_char(a1, b1).to_owned();
    let t2 = l.substring_char(a2, b2).to_owned();
    Some((t1, t2))
}

/// The index just after the last `/` in `s`; `0` if there is none.
pub open spec fn last_slash_end(s: Seq<char>) -> int
    decreases s.len(),
{
    if s.len() == 0 {
        0
    } else if s.last() == '/' {
        s.len() as int
    } else {
        last_slash_end(s.drop_last())
    }
}

/// The final path segment: everything after the last `/`.
pub open spec fn strip_path_spec(s: Seq<char>) -> Seq<char> {
    s.subrange(last_slash_end(s), s.len() as int)
}

proof fn lemma_last_slash_end_is(s: Seq<char>, b: int)
    requires
        0 <= b <= s.len(),
        forall|j: int| b <= j < s.len() ==> s[j] != '/',
        b == 0 || s[b - 1] == '/',
    ensures
        last_slash_end(s) == b,
    decreases s.len(),
{
    if s.len() > 0 && b < s.len() {
        assert(s.last() != '/');
        lemma_last_slash_end_is(s.drop_last(), b);
    }
}

/// Reduce a path to its final segment, as a display name.
pub fn strip_path(path: &str) -> (r: String)
    ensures
        r@ == strip_path_spec(path@),
{
    let n = path.unicode_len();
    let mut b = n;
    while b > 0 && path.get_char(b - 1) != '/'
        invariant
            b <= n,
            n == path@.len(),
            forall|j: int| b <= j < n ==> path@[j] != '/',
        decreases b,
    {
        b = b - 1;
    }
    proof {
        lemma_last_slash_end_is(path@, b as int);
    }
    path.substring_char(b, n).to_owned()
}

/// `needle` occurs in `hay` starting at `i`.
pub open spec fn is_sub_at(hay: Seq<char>, needle: Seq<char>, i: int) -> bool {
    0 <= i && i + needle.len() <= hay.len() && hay.subrange(i, i + needle.len() as int) == needle
}

/// `needle` occurs contiguously inside `hay`.
pub open spec fn contains_sub(hay: Seq<char>, needle: Seq<char>) -> bool {
    exists|i: int| is_sub_at(hay, needle, i)
}

/// `r` is `s` with some prefix and suffix added around it.
pub open spec fn wraps(r: Seq<char>, s: Seq<char>) -> bool {
    exists|p: Seq<char>, q: Seq<char>| r == p + s + q
}

/// `s` holds no terminal escape character, so styling wraps it whole.
pub open spec fn esc_free(s: Seq<char>) -> bool {
    !s.contains('\u{1b}')
}

pub proof fn lemma_wraps_contains(r: Seq<char>, s: Seq<char>)
    requires
        wraps(r, s),
    ensures
        contains_sub(r, s),
{
    let (p, q) = choose|p: Seq<char>, q: Seq<char>| r == p + s + q;
    assert(is_sub_at(r, s, p.len() as int)) by {
        assert(r.subrange(p.len() as int, p.len() + s.len() as int) =~= s);
    }
}

/// Wrapping survives surrounding context on both sides.
pub proof fn lemma_wraps_in_context(a: Seq<char>, mid: Seq<char>, b: Seq<char>, s: Seq<char>)
    requires
        wraps(mid, s),
    ensures
        wraps(a + mid + b, s),
{
    let (p, q) = choose|p: Seq<char>, q: Seq<char>| mid == p + s + q;
    assert(a + mid + b =~= (a + p) + s + (q + b));
}

/// Freedom from the escape character survives concatenation.
pub proof fn lemma_esc_free_concat(a: Seq<char>, b: Seq<char>)
    requires
        esc_free(a),
        esc_free(b),
    ensures
        esc_free(a + b),
{
    assert forall|i: int| 0 <= i < (a + b).len() implies (a + b)[i] != '\u{1b}' by {
        if i < a.len() {
            assert((a + b)[i] == a[i]);
        } else {
            assert((a + b)[i] == b[i - a.len()]);
        }
    }
}

pub proof fn lemma_contains_self(s: Seq<char>)
    ensures
        contains_sub(s, s),
{
    assert(is_sub_at(s, s, 0)) by {
        assert(s.subrange(0, s.len() as int) =~= s);
    }
}

pub proof fn lemma_contains_extend_right(a: Seq<char>, b: Seq<char>, n: Seq<char>)
    requires
        contains_sub(a, n),
    ensures
        contains_sub(a + b, n),
{
    let i = choose|i: int| is_sub_at(a, n, i);
    assert(is_sub_at(a + b, n, i)) by {
        assert((a + b).subrange(i, i + n.len() as int) =~= a.subrange(i, i + n.len() as int));
    }
}

pub proof fn lemma_contains_extend_left(a: Seq<char>, b: Seq<char>, n: Seq<char>)
    requires
        contains_sub(b, n),
    ensures
        contains_sub(a + b, n),
{
    let i = choose|i: int| is_sub_at(b, n, i);
    assert(is_sub_at(a + b, n, a.len() + i)) by {
        assert((a + b).subrange(a.len() + i, a.len() + i + n.len() as int) =~= b.subrange(
            i,
            i + n.len() as int,
        ));
    }
}

pub proof fn lemma_contains_trans(a: Seq<char>, b: Seq<char>, c: Seq<char>)
    requires
        contains_sub(a, b),
        contains_sub(b, c),
    ensures
        contains_sub(a, c),
{
    let i = choose|i: int| is_sub_at(a, b, i);
    let j = choose|j: int| is_sub_at(b, c, j);
    assert(is_sub_at(a, c, i + j)) by {
        assert(a.subrange(i + j, i + j + c.len() as int) =~= b.subrange(j, j + c.len() as int));
    }
}

} // verus!
