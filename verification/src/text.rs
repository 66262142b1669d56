//! Character-level text operations used by attribute parsing and device
//! resolution: equality, substring search, whitespace trimming and
//! whitespace-separated tokenization.

use vstd::prelude::*;

verus! {

/// The whitespace characters that attribute files use: blank, horizontal
/// tab, line feed, vertical tab, form feed and carriage return.
pub open spec fn is_space_char(c: char) -> bool {
    c == ' ' || c == '\t' || c == '\n' || c == '\u{b}' || c == '\u{c}' || c == '\r'
}

/// Executable test matching [`is_space_char`].
pub fn is_space(c: char) -> (r: bool)
    ensures
        r == is_space_char(c),
{
    c == ' ' || c == '\t' || c == '\n' || c == '\u{b}' || c == '\u{c}' || c == '\r'
}

/// Character-wise string equality.
pub fn str_eq(a: &str, b: &str) -> (r: bool)
    ensures
        r == (a@ == b@),
{
    let a_len = a.unicode_len();
    let b_len = b.unicode_len();
    if a_len != b_len {
        assert(a@ != b@);
        return false;
    }
    let mut i: usize = 0;
    while i < a_len
        invariant
            a_len == a@.len(),
            b_len == b@.len(),
            a_len == b_len,
            0 <= i <= a_len,
            forall|k: int| 0 <= k < i ==> a@[k] == b@[k],
        decreases a_len - i,
    {
        if a.get_char(i) != b.get_char(i) {
            return false;
        }
        i = i + 1;
    }
    assert(a@ =~= b@);
    true
}

/// String equality with a `String` on the left.
pub fn string_eq_str(a: &String, b: &str) -> (r: bool)
    ensures
        r == (a@ == b@),
{
    str_eq(a.as_str(), b)
}

/// `needle` occurs in `haystack` starting at position `i`.
pub open spec fn matches_at(haystack: Seq<char>, needle: Seq<char>, i: int) -> bool {
    0 <= i && i + needle.len() <= haystack.len() && haystack.subrange(
        i,
        i + needle.len() as int,
    ) == needle
}

/// `needle` occurs somewhere in `haystack`.
pub open spec fn contains_seq(haystack: Seq<char>, needle: Seq<char>) -> bool {
    exists|i: int| matches_at(haystack, needle, i)
}

/// Substring containment, the comparison the resolver applies to port
/// addresses.
pub fn str_contains(haystack: &str, needle: &str) -> (r: bool)
    ensures
        r == contains_seq(haystack@, needle@),
{
    let h_len = haystack.unicode_len();
    let n_len = needle.unicode_len();
    if n_len > h_len {
        assert(!contains_seq(haystack@, needle@));
        return false;
    }
    if n_len == 0 {
        assert(haystack@.subrange(0, 0) =~= needle@);
        assert(matches_at(haystack@, needle@, 0));
        return true;
    }
    let mut s: usize = 0;
    while s <= h_len - n_len
        invariant
            h_len == haystack@.len(),
            n_len == needle@.len(),
            1 <= n_len <= h_len,
            0 <= s <= h_len - n_len + 1,
            forall|i: int| 0 <= i < s ==> !matches_at(haystack@, needle@, i),
        decreases h_len - s,
    {
        let mut j: usize = 0;
        let mut ok: bool = true;
        while j < n_len
            invariant
                h_len == haystack@.len(),
                n_len == needle@.len(),
                0 <= s <= h_len - n_len,
                0 <= j <= n_len,
                ok ==> forall|k: int| 0 <= k < j ==> haystack@[s + k] == needle@[k],
                !ok ==> !matches_at(haystack@, needle@, s as int),
            decreases n_len - j,
        {
            if haystack.get_char(s + j) != needle.get_char(j) {
                assert(haystack@.subrange(s as int, s + n_len as int)[j as int] != needle@[j as int]);
                ok = false;
            }
            j = j + 1;
        }
        if ok {
            assert(haystack@.subrange(s as int, s + n_len as int) =~= needle@);
            assert(matches_at(haystack@, needle@, s as int));
            return true;
        }
        s = s + 1;
    }
    assert forall|i: int| !matches_at(haystack@, needle@, i) by {
        if 0 <= i && i + needle@.len() <= haystack@.len() {
            assert(i < s);
        }
    }
    false
}

/// The number of trailing whitespace characters of `s`.
pub open spec fn trailing_spaces(s: Seq<char>) -> nat
    decreases s.len(),
{
    if s.len() > 0 && is_space_char(s.last()) {
        1 + trailing_spaces(s.drop_last())
    } else {
        0
    }
}

/// `s` with its trailing whitespace removed.
pub open spec fn trim_end_seq(s: Seq<char>) -> Seq<char> {
    s.take(s.len() - trailing_spaces(s))
}

proof fn lemma_trailing_spaces_le(s: Seq<char>)
    ensures
        trailing_spaces(s) <= s.len(),
    decreases s.len(),
{
    if s.len() > 0 && is_space_char(s.last()) {
        lemma_trailing_spaces_le(s.drop_last());
    }
}

proof fn lemma_trailing_spaces_take(s: Seq<char>, n: int)
    requires
        0 <= n <= s.len(),
        forall|k: int| n <= k < s.len() ==> is_space_char(s[k]),
        n > 0 ==> !is_space_char(s[n - 1]),
    ensures
        trailing_spaces(s) == s.len() - n,
        trim_end_seq(s) == s.take(n),
    decreases s.len(),
{
    lemma_trailing_spaces_le(s);
    if s.len() > 0 && is_space_char(s.last()) {
        assert(n < s.len());
        assert(s.drop_last() =~= s.take(s.len() - 1));
        lemma_trailing_spaces_take(s.drop_last(), n);
        assert(s.take(n) =~= s.drop_last().take(n));
    } else {
        assert(n == s.len());
        assert(s.take(n) =~= s);
    }
}

/// Returns the position of the first occurrence of `c` in `s`.
pub fn find_char(s: &str, c: char) -> (r: Option<usize>)
    ensures
        r matches Some(i) ==> i < s@.len() && s@[i as int] == c && forall|k: int|
            0 <= k < i ==> s@[k] != c,
        r is None ==> forall|k: int| 0 <= k < s@.len() ==> s@[k] != c,
{
    let len = s.unicode_len();
    let mut i: usize = 0;
    while i < len
        invariant
            len == s@.len(),
            0 <= i <= len,
            forall|k: int| 0 <= k < i ==> s@[k] != c,
        decreases len - i,
    {
        if s.get_char(i) == c {
            return Some(i);
        }
        i = i + 1;
    }
    None
}

/// Returns the position of the last occurrence of `c` in `s`.
pub fn rfind_char(s: &str, c: char) -> (r: Option<usize>)
    ensures
        r matches Some(i) ==> i < s@.len() && s@[i as int] == c && forall|k: int|
            i < k < s@.len() ==> s@[k] != c,
        r is None ==> forall|k: int| 0 <= k < s@.len() ==> s@[k] != c,
{
    let len = s.unicode_len();
    let mut i: usize = len;
    while i > 0
        invariant
            len == s@.len(),
            0 <= i <= len,
            forall|k: int| i <= k < len ==> s@[k] != c,
        decreases i,
    {
        if s.get_char(i - 1) == c {
            return Some(i - 1);
        }
        i = i - 1;
    }
    None
}

/// Copies the characters of `s` between `from` and `to` into a new string.
pub fn substring_to_string(s: &str, from: usize, to: usize) -> (r: String)
    requires
        from <= to <= s@.len(),
    ensures
        r@ == s@.subrange(from as int, to as int),
{
    let sub = s.substring_char(from, to);
    sub.to_owned()
}

/// Length of the whitespace-free token at the head of `s`.
pub open spec fn token_len(s: Seq<char>) -> nat
    decreases s.len(),
{
    if s.len() == 0 || is_space_char(s[0]) {
        0
    } else {
        1 + token_len(s.drop_first())
    }
}

pub proof fn lemma_token_len_le(s: Seq<char>)
    ensures
        token_len(s) <= s.len(),
    decreases s.len(),
{
    if s.len() > 0 && !is_space_char(s[0]) {
        lemma_token_len_le(s.drop_first());
    }
}

/// The whitespace-separated tokens of `s`, in order.
pub open spec fn split_ws(s: Seq<char>) -> Seq<Seq<char>>
    decreases s.len(),
{
    if s.len() == 0 {
        Seq::empty()
    } else if is_space_char(s[0]) {
        split_ws(s.drop_first())
    } else {
        proof {
            lemma_token_len_le(s);
        }
        seq![s.take(token_len(s) as int)] + split_ws(s.skip(token_len(s) as int))
    }
}

proof fn lemma_token_len_bounded(s: Seq<char>, n: int)
    requires
        0 <= n <= s.len(),
        forall|k: int| 0 <= k < n ==> !is_space_char(s[k]),
        n < s.len() ==> is_space_char(s[n]),
    ensures
        token_len(s) == n,
    decreases s.len(),
{
    if s.len() == 0 || is_space_char(s[0]) {
        assert(n == 0);
    } else {
        assert(n >= 1);
        assert(forall|k: int| 0 <= k < n - 1 ==> s.drop_first()[k] == s[k + 1]);
        lemma_token_len_bounded(s.drop_first(), n - 1);
    }
}

/// Splits `s` at whitespace into its ordered token sequence, the form in
/// which state-flag lists and mode catalogs are published.
pub fn split_whitespace_tokens(s: &str) -> (r: Vec<String>)
    ensures
        r@.map_values(|t: String| t@) == split_ws(s@),
{
    let len = s.unicode_len();
    let mut out: Vec<String> = Vec::new();
    let mut i: usize = 0;
    proof {
        assert(s@.skip(0) =~= s@);
        assert(out@.map_values(|t: String| t@) + split_ws(s@) =~= split_ws(s@));
    }
    while i < len
        invariant
            len == s@.len(),
            0 <= i <= len,
            split_ws(s@) == out@.map_values(|t: String| t@) + split_ws(s@.skip(i as int)),
        decreases len - i,
    {
        if is_space(s.get_char(i)) {
            proof {
                assert(s@.skip(i as int).drop_first() =~= s@.skip(i + 1));
            }
            i = i + 1;
        } else {
            let start = i;
            while i < len && !is_space(s.get_char(i))
                invariant
                    len == s@.len(),
                    start <= i <= len,
                    forall|k: int| start <= k < i ==> !is_space_char(s@[k]),
                decreases len - i,
            {
                i = i + 1;
            }
            let token = substring_to_string(s, start, i);
            proof {
                let tail = s@.skip(start as int);
                assert(forall|k: int| 0 <= k < i - start ==> tail[k] == s@[start + k]);
                lemma_token_len_bounded(tail, i - start);
                assert(tail.take(i - start) =~= s@.subrange(start as int, i as int));
                assert(tail.skip(i - start) =~= s@.skip(i as int));
                assert(split_ws(tail) == seq![token@] + split_ws(s@.skip(i as int)));
                assert((out@.push(token)).map_values(|t: String| t@) =~= out@.map_values(
                    |t: String| t@,
                ).push(token@));
                assert(out@.map_values(|t: String| t@) + (seq![token@] + split_ws(
                    s@.skip(i as int),
                )) =~= (out@.push(token)).map_values(|t: String| t@) + split_ws(s@.skip(i as int)));
            }
            out.push(token);
        }
    }
    proof {
        assert(s@.skip(len as int) =~= Seq::<char>::empty());
        assert(out@.map_values(|t: String| t@) + Seq::<Seq<char>>::empty() =~= out@.map_values(
            |t: String| t@,
        ));
    }
    out
}

/// Removes trailing whitespace, as the read path of an attribute does
/// before parsing.
pub fn trim_end(s: &str) -> (r: String)
    ensures
        r@ == trim_end_seq(s@),
{
    let len = s.unicode_len();
    let mut n: usize = len;
    while n > 0 && is_space(s.get_char(n - 1))
        invariant
            len == s@.len(),
            0 <= n <= len,
            forall|k: int| n <= k < len ==> is_space_char(s@[k]),
        decreases n,
    {
        n = n - 1;
    }
    proof {
        lemma_trailing_spaces_take(s@, n as int);
    }
    let out = s.substring_char(0, n);
    assert(out@ =~= s@.take(n as int));
    out.to_owned()
}

} // verus!
