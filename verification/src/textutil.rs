//! Bridging between strings and character vectors.
//!
//! The parsers in this crate work on `Vec<char>`, whose view is the same
//! `Seq<char>` as the view of the `String` it came from; these two
//! functions convert in each direction.

use vstd::prelude::*;

verus! {

/// Relies on `str::chars`: yields exactly the characters of the string,
/// in order, which is the string's view.
#[verifier::external_body]
pub fn chars_of(s: &str) -> (r: Vec<char>)
    ensures
        r@ == s@,
{
    s.chars().collect()
}

/// Relies on `String` implementing `FromIterator<char>`: collects exactly
/// the given characters, in order, into a string with that view.
#[verifier::external_body]
pub fn string_of_chars(chars: &[char]) -> (r: String)
    ensures
        r@ == chars@,
{
    chars.iter().collect()
}

/// The whitespace characters the parsers trim and split on: the ASCII
/// set, fixed deliberately so the command grammar is exactly specified.
pub open spec fn is_space(c: char) -> bool {
    c == ' ' || c == '\t' || c == '\n' || c == '\r'
}

/// The first position at or after `i` holding `c`, or the length when
/// there is none.
pub open spec fn find_from(s: Seq<char>, c: char, i: int) -> int
    decreases s.len() - i,
{
    if i < 0 || i >= s.len() {
        s.len() as int
    } else if s[i] == c {
        i
    } else {
        find_from(s, c, i + 1)
    }
}

/// The first position at or after `i` holding a non-space character, or
/// the length when the rest is all spaces.
pub open spec fn first_nonspace_from(s: Seq<char>, i: int) -> int
    decreases s.len() - i,
{
    if i < 0 || i >= s.len() {
        s.len() as int
    } else if !is_space(s[i]) {
        i
    } else {
        first_nonspace_from(s, i + 1)
    }
}

/// The least upper bound, at most `j`, of the positions of non-space
/// characters; 0 when all of the first `j` characters are spaces.
pub open spec fn last_nonspace_down(s: Seq<char>, j: int) -> int
    decreases j,
{
    if j <= 0 || j > s.len() {
        0
    } else if !is_space(s[j - 1]) {
        j
    } else {
        last_nonspace_down(s, j - 1)
    }
}

/// The string without its leading and trailing whitespace.
pub open spec fn spec_trim(s: Seq<char>) -> Seq<char> {
    let lo = first_nonspace_from(s, 0);
    let hi = last_nonspace_down(s, s.len() as int);
    if lo <= hi {
        s.subrange(lo, hi)
    } else {
        Seq::empty()
    }
}

/// True when `p` is a prefix of `s`.
pub open spec fn spec_starts_with(s: Seq<char>, p: Seq<char>) -> bool {
    s.len() >= p.len() && s.subrange(0, p.len() as int) == p
}

/// The string split at its first space: the part before it, and the part
/// after it; or nothing when it holds no space.
pub open spec fn spec_split_once_space(s: Seq<char>) -> Option<(Seq<char>, Seq<char>)> {
    let i = find_from(s, ' ', 0);
    if i == s.len() {
        None
    } else {
        Some((s.take(i), s.skip(i + 1)))
    }
}

/// True when `p` is a prefix of the characters.
pub fn starts_with_chars(s: &Vec<char>, p: &Vec<char>) -> (r: bool)
    ensures
        r == spec_starts_with(s@, p@),
{
    let n = p.len();
    if s.len() < n {
        proof {
            assert(!spec_starts_with(s@, p@));
        }
        return false;
    }
    let mut i: usize = 0;
    while i < n
        invariant
            i <= n,
            n == p@.len(),
            s@.len() >= n,
            forall|k: int| 0 <= k < i ==> s@[k] == p@[k],
        decreases n - i,
    {
        if s[i] != p[i] {
            proof {
                if s@.subrange(0, p@.len() as int) == p@ {
                    assert(s@.subrange(0, p@.len() as int)[i as int] == p@[i as int]);
                }
            }
            return false;
        }
        i = i + 1;
    }
    proof {
        assert(s@.subrange(0, p@.len() as int) =~= p@);
    }
    true
}

/// The position of the first occurrence of the character, if any.
pub fn find_char(s: &Vec<char>, c: char) -> (r: Option<usize>)
    ensures
        ({
            let i = find_from(s@, c, 0);
            match r {
                Some(p) => p == i && i < s@.len(),
                None => i == s@.len(),
            }
        }),
{
    let n = s.len();
    let mut i: usize = 0;
    while i < n
        invariant
            i <= n,
            n == s@.len(),
            find_from(s@, c, 0) == find_from(s@, c, i as int),
        decreases n - i,
    {
        if s[i] == c {
            return Some(i);
        }
        i = i + 1;
    }
    None
}

/// The position of the first space, if any.
pub fn find_space(s: &Vec<char>) -> (r: Option<usize>)
    ensures
        ({
            let i = find_from(s@, ' ', 0);
            match r {
                Some(p) => p == i && i < s@.len(),
                None => i == s@.len(),
            }
        }),
{
    let n = s.len();
    let mut i: usize = 0;
    while i < n
        invariant
            i <= n,
            n == s@.len(),
            find_from(s@, ' ', 0) == find_from(s@, ' ', i as int),
        decreases n - i,
    {
        if s[i] == ' ' {
            return Some(i);
        }
        i = i + 1;
    }
    None
}

/// The characters without their leading and trailing whitespace.
pub fn trim_chars(s: &Vec<char>) -> (r: Vec<char>)
    ensures
        r@ == spec_trim(s@),
{
    let n = s.len();
    let mut lo: usize = 0;
    while lo < n && is_space_char(s[lo])
        invariant
            lo <= n,
            n == s@.len(),
            first_nonspace_from(s@, 0) == first_nonspace_from(s@, lo as int),
            forall|k: int| 0 <= k < lo ==> is_space(s@[k]),
        decreases n - lo,
    {
        lo = lo + 1;
    }
    if lo == n {
        proof {
            lemma_all_space_last(s@, n as int);
            assert(first_nonspace_from(s@, 0) == n);
        }
        return Vec::new();
    }
    let mut hi: usize = n;
    while hi > lo && is_space_char(s[hi - 1])
        invariant
            lo < hi <= n,
            n == s@.len(),
            lo < n,
            !is_space(s@[lo as int]),
            first_nonspace_from(s@, 0) == lo,
            last_nonspace_down(s@, s@.len() as int) == last_nonspace_down(s@, hi as int),
        decreases hi,
    {
        hi = hi - 1;
    }
    proof {
        assert(!is_space(s@[hi - 1]));
        assert(last_nonspace_down(s@, hi as int) == hi);
    }
    let mut out: Vec<char> = Vec::new();
    let mut i: usize = lo;
    while i < hi
        invariant
            lo <= i <= hi <= n,
            n == s@.len(),
            first_nonspace_from(s@, 0) == lo,
            last_nonspace_down(s@, s@.len() as int) == hi,
            out@ =~= s@.subrange(lo as int, i as int),
        decreases hi - i,
    {
        out.push(s[i]);
        i = i + 1;
    }
    proof {
        assert(out@ =~= spec_trim(s@));
    }
    out
}

/// Whether the character counts as whitespace.
pub fn is_space_char(c: char) -> (r: bool)
    ensures
        r == is_space(c),
{
    c == ' ' || c == '\t' || c == '\n' || c == '\r'
}

/// The characters from position `from` on.
pub fn skip_chars(s: &Vec<char>, from: usize) -> (r: Vec<char>)
    requires
        from <= s@.len(),
    ensures
        r@ == s@.skip(from as int),
{
    let n = s.len();
    let mut out: Vec<char> = Vec::new();
    let mut i: usize = from;
    while i < n
        invariant
            from <= i <= n,
            n == s@.len(),
            out@ =~= s@.subrange(from as int, i as int),
        decreases n - i,
    {
        out.push(s[i]);
        i = i + 1;
    }
    proof {
        assert(out@ =~= s@.skip(from as int));
    }
    out
}

/// The first `to` characters.
pub fn take_chars(s: &Vec<char>, to: usize) -> (r: Vec<char>)
    requires
        to <= s@.len(),
    ensures
        r@ == s@.take(to as int),
{
    let mut out: Vec<char> = Vec::new();
    let mut i: usize = 0;
    while i < to
        invariant
            i <= to <= s@.len(),
            out@ =~= s@.subrange(0, i as int),
        decreases to - i,
    {
        out.push(s[i]);
        i = i + 1;
    }
    proof {
        assert(out@ =~= s@.take(to as int));
    }
    out
}

proof fn lemma_all_space_last(s: Seq<char>, j: int)
    requires
        j <= s.len(),
        forall|k: int| 0 <= k < j ==> is_space(s[k]),
    ensures
        last_nonspace_down(s, j) == 0,
    decreases j,
{
    if j > 0 {
        lemma_all_space_last(s, j - 1);
    }
}

} // verus!
