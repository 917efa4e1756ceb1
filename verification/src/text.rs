//! Character classes, trimming and searching, over sequences of characters.
//!
//! The spec functions work on whole sequences; the executable ones work on a
//! range `lo..hi` of a vector of characters and are stated over the
//! corresponding subrange.

use vstd::prelude::*;

verus! {

/// Whether `c` is white space: the characters with Unicode's `White_Space` property.
pub open spec fn is_space(c: char) -> bool {
    let n: u32 = c as u32;
    ||| 0x09 <= n <= 0x0D
    ||| n == 0x20
    ||| n == 0x85
    ||| n == 0xA0
    ||| n == 0x1680
    ||| 0x2000 <= n <= 0x200A
    ||| n == 0x2028
    ||| n == 0x2029
    ||| n == 0x202F
    ||| n == 0x205F
    ||| n == 0x3000
}

/// Tests a character for white space.
pub fn is_whitespace(c: char) -> (r: bool)
    ensures
        r == is_space(c),
{
    let n: u32 = c as u32;
    (0x09 <= n && n <= 0x0D) || n == 0x20 || n == 0x85 || n == 0xA0 || n == 0x1680 || (0x2000 <= n
        && n <= 0x200A) || n == 0x2028 || n == 0x2029 || n == 0x202F || n == 0x205F || n == 0x3000
}

/// A set of characters to strip from the ends of a text.
#[derive(Clone, Copy, Debug)]
pub enum Pattern {
    /// Any white space.
    Space,
    /// One given character.
    Exactly(char),
}

impl Pattern {
    /// Whether the pattern covers `c`.
    pub open spec fn accepts(self, c: char) -> bool {
        match self {
            Pattern::Space => is_space(c),
            Pattern::Exactly(x) => c == x,
        }
    }

    /// Tests a character against the pattern.
    pub fn test(self, c: char) -> (r: bool)
        ensures
            r == self.accepts(c),
    {
        match self {
            Pattern::Space => is_whitespace(c),
            Pattern::Exactly(x) => c == x,
        }
    }
}

/// `s` without its longest prefix of characters that `pat` covers.
pub open spec fn strip_front(s: Seq<char>, pat: Pattern) -> Seq<char>
    decreases s.len(),
{
    if s.len() > 0 && pat.accepts(s[0]) {
        strip_front(s.drop_first(), pat)
    } else {
        s
    }
}

/// `s` without its longest suffix of characters that `pat` covers.
pub open spec fn strip_back(s: Seq<char>, pat: Pattern) -> Seq<char>
    decreases s.len(),
{
    if s.len() > 0 && pat.accepts(s.last()) {
        strip_back(s.drop_last(), pat)
    } else {
        s
    }
}

/// `s` with the characters that `pat` covers removed from both ends.
pub open spec fn strip(s: Seq<char>, pat: Pattern) -> Seq<char> {
    strip_back(strip_front(s, pat), pat)
}

/// `s` without leading and trailing white space.
pub open spec fn trim(s: Seq<char>) -> Seq<char> {
    strip(s, Pattern::Space)
}

/// `s` without leading and trailing double quotes.
pub open spec fn unquote(s: Seq<char>) -> Seq<char> {
    strip(s, Pattern::Exactly('"'))
}

/// The number of leading white-space characters of `s`.
pub open spec fn indent(s: Seq<char>) -> int {
    s.len() - strip_front(s, Pattern::Space).len()
}

/// The position of the first `c` in `s`, or `s.len()` where there is none.
pub open spec fn first_index(s: Seq<char>, c: char) -> int
    decreases s.len(),
{
    if s.len() == 0 || s[0] == c {
        0
    } else {
        1 + first_index(s.drop_first(), c)
    }
}

/// The position of the last `c` in `s`, or `-1` where there is none.
pub open spec fn last_index(s: Seq<char>, c: char) -> int
    decreases s.len(),
{
    if s.len() == 0 {
        -1
    } else if s.last() == c {
        s.len() - 1
    } else {
        last_index(s.drop_last(), c)
    }
}

/// The position of the last `a` that is directly followed by `b`, or `-1`
/// where there is none.
pub open spec fn last_pair(s: Seq<char>, a: char, b: char) -> int
    decreases s.len(),
{
    if s.len() < 2 {
        -1
    } else if s[s.len() - 2] == a && s.last() == b {
        s.len() - 2
    } else {
        last_pair(s.drop_last(), a, b)
    }
}

/// The first position past `lo` whose character `pat` does not cover, or `hi`.
pub(crate) fn skip_front(v: &Vec<char>, lo: usize, hi: usize, pat: Pattern) -> (r: usize)
    requires
        lo <= hi <= v.len(),
    ensures
        lo <= r <= hi,
        v@.subrange(r as int, hi as int) == strip_front(v@.subrange(lo as int, hi as int), pat),
{
    let mut i: usize = lo;
    while i < hi && pat.test(v[i])
        invariant
            lo <= i <= hi <= v.len(),
            strip_front(v@.subrange(lo as int, hi as int), pat) == strip_front(
                v@.subrange(i as int, hi as int),
                pat,
            ),
        decreases hi - i,
    {
        assert(v@.subrange(i as int, hi as int).drop_first() =~= v@.subrange(
            i as int + 1,
            hi as int,
        ));
        i += 1;
    }
    i
}

/// The end of the range that is left of `lo..hi` when the characters that
/// `pat` covers are removed from its back.
pub(crate) fn skip_back(v: &Vec<char>, lo: usize, hi: usize, pat: Pattern) -> (r: usize)
    requires
        lo <= hi <= v.len(),
    ensures
        lo <= r <= hi,
        v@.subrange(lo as int, r as int) == strip_back(v@.subrange(lo as int, hi as int), pat),
{
    let mut i: usize = hi;
    while lo < i && pat.test(v[i - 1])
        invariant
            lo <= i <= hi <= v.len(),
            strip_back(v@.subrange(lo as int, hi as int), pat) == strip_back(
                v@.subrange(lo as int, i as int),
                pat,
            ),
        decreases i - lo,
    {
        assert(v@.subrange(lo as int, i as int).drop_last() =~= v@.subrange(
            lo as int,
            i as int - 1,
        ));
        i -= 1;
    }
    i
}

/// The range that is left of `lo..hi` when the characters that `pat` covers
/// are removed from both ends.
pub(crate) fn strip_range(v: &Vec<char>, lo: usize, hi: usize, pat: Pattern) -> (r: (usize, usize))
    requires
        lo <= hi <= v.len(),
    ensures
        lo <= r.0 <= r.1 <= hi,
        v@.subrange(r.0 as int, r.1 as int) == strip(v@.subrange(lo as int, hi as int), pat),
{
    let a = skip_front(v, lo, hi, pat);
    let b = skip_back(v, a, hi, pat);
    (a, b)
}

/// Where the first `c` of the range `lo..hi` stands, or `hi`.
pub(crate) fn find_first(v: &Vec<char>, lo: usize, hi: usize, c: char) -> (r: usize)
    requires
        lo <= hi <= v.len(),
    ensures
        lo <= r <= hi,
        r - lo == first_index(v@.subrange(lo as int, hi as int), c),
{
    let mut i: usize = lo;
    while i < hi && v[i] != c
        invariant
            lo <= i <= hi <= v.len(),
            first_index(v@.subrange(lo as int, hi as int), c) == (i - lo) + first_index(
                v@.subrange(i as int, hi as int),
                c,
            ),
        decreases hi - i,
    {
        assert(v@.subrange(i as int, hi as int).drop_first() =~= v@.subrange(
            i as int + 1,
            hi as int,
        ));
        i += 1;
    }
    i
}

/// Where the last `c` of the range `lo..hi` stands, if there is one.
pub(crate) fn find_last(v: &Vec<char>, lo: usize, hi: usize, c: char) -> (r: Option<usize>)
    requires
        lo <= hi <= v.len(),
    ensures
        match r {
            Some(k) => lo <= k < hi && k - lo == last_index(v@.subrange(lo as int, hi as int), c),
            None => last_index(v@.subrange(lo as int, hi as int), c) == -1,
        },
{
    let mut i: usize = hi;
    while lo < i && v[i - 1] != c
        invariant
            lo <= i <= hi <= v.len(),
            last_index(v@.subrange(lo as int, hi as int), c) == last_index(
                v@.subrange(lo as int, i as int),
                c,
            ),
        decreases i - lo,
    {
        assert(v@.subrange(lo as int, i as int).drop_last() =~= v@.subrange(
            lo as int,
            i as int - 1,
        ));
        i -= 1;
    }
    if lo < i {
        Some(i - 1)
    } else {
        None
    }
}

/// Where the last `a` directly followed by `b` stands in the range `lo..hi`,
/// if there is one.
pub(crate) fn find_last_pair(v: &Vec<char>, lo: usize, hi: usize, a: char, b: char) -> (r: Option<usize>)
    requires
        lo <= hi <= v.len(),
    ensures
        match r {
            Some(k) => lo <= k && k + 1 < hi && k - lo == last_pair(
                v@.subrange(lo as int, hi as int),
                a,
                b,
            ),
            None => last_pair(v@.subrange(lo as int, hi as int), a, b) == -1,
        },
{
    let mut i: usize = hi;
    while i - lo >= 2 && !(v[i - 2] == a && v[i - 1] == b)
        invariant
            lo <= i <= hi <= v.len(),
            last_pair(v@.subrange(lo as int, hi as int), a, b) == last_pair(
                v@.subrange(lo as int, i as int),
                a,
                b,
            ),
        decreases i - lo,
    {
        assert(v@.subrange(lo as int, i as int).drop_last() =~= v@.subrange(
            lo as int,
            i as int - 1,
        ));
        i -= 1;
    }
    if i - lo >= 2 {
        Some(i - 2)
    } else {
        None
    }
}

/// The characters of a string, in order.
pub(crate) fn chars_of(s: &str) -> (r: Vec<char>)
    ensures
        r@ == s@,
{
    let mut out: Vec<char> = Vec::new();
    for c in it: s.chars()
        invariant
            it.seq() == s@,
            out@ == it.seq().take(it.index() as int),
    {
        out.push(c);
    }
    out
}

/// The characters `lo..hi` of a string, as a string of their own.
pub(crate) fn slice_of(s: &str, lo: usize, hi: usize) -> (r: String)
    requires
        lo <= hi <= s@.len(),
    ensures
        r@ == s@.subrange(lo as int, hi as int),
{
    s.substring_char(lo, hi).to_owned()
}

} // verus!
