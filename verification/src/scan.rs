//! Searches over sequences of characters: the first position that holds a
//! character of some class, and the tokens and segments cut out by them.

use vstd::prelude::*;
use vstd::slice::slice_subrange;

verus! {

/// Whether `c` has the Unicode property White_Space.
pub open spec fn is_space(c: char) -> bool {
    let u = c as u32;
    ||| 0x09 <= u <= 0x0D
    ||| u == 0x20
    ||| u == 0x85
    ||| u == 0xA0
    ||| u == 0x1680
    ||| 0x2000 <= u <= 0x200A
    ||| u == 0x2028
    ||| u == 0x2029
    ||| u == 0x202F
    ||| u == 0x205F
    ||| u == 0x3000
}

/// The characters of `text`, one by one.
pub fn chars_of(text: &str) -> (chars: Vec<char>)
    ensures
        chars@ == text@,
{
    let mut chars: Vec<char> = Vec::new();
    for c in it: text.chars()
        invariant
            chars@ == text@.take(it.index() as int),
            it.seq() == text@,
    {
        chars.push(c);
    }
    chars
}

/// A class of characters to search for.
#[derive(Clone, Copy, Debug)]
pub enum Class {
    /// The one given character.
    Is(char),
    /// Any white space.
    Space,
    /// Anything but white space.
    NonSpace,
}

impl Class {
    /// Whether `c` belongs to the class.
    pub open spec fn holds(self, c: char) -> bool {
        match self {
            Class::Is(d) => c == d,
            Class::Space => is_space(c),
            Class::NonSpace => !is_space(c),
        }
    }

    /// Decides `holds`.
    pub fn test(&self, c: char) -> (b: bool)
        ensures
            b == self.holds(c),
    {
        match self {
            Class::Is(d) => c == *d,
            Class::Space => is_whitespace(c),
            Class::NonSpace => !is_whitespace(c),
        }
    }
}

/// Decides `is_space`.
pub fn is_whitespace(c: char) -> (b: bool)
    ensures
        b == is_space(c),
{
    let u: u32 = c as u32;
    (0x09 <= u && u <= 0x0D) || u == 0x20 || u == 0x85 || u == 0xA0 || u == 0x1680 || (0x2000 <= u
        && u <= 0x200A) || u == 0x2028 || u == 0x2029 || u == 0x202F || u == 0x205F || u == 0x3000
}

/// The first position at or after `from` whose character is in `class`;
/// the length of `s` where there is none.
pub open spec fn first_of(s: Seq<char>, class: Class, from: int) -> int
    decreases s.len() - from,
{
    if from >= s.len() {
        s.len() as int
    } else if class.holds(s[from]) {
        from
    } else {
        first_of(s, class, from + 1)
    }
}

/// `first_of` is the least position of the class: nothing before it is in
/// the class, and it is either in the class or the end of `s`.
pub proof fn lemma_first_of(s: Seq<char>, class: Class, from: int)
    requires
        0 <= from <= s.len(),
    ensures
        from <= first_of(s, class, from) <= s.len(),
        forall|k: int| from <= k < first_of(s, class, from) ==> !class.holds(#[trigger] s[k]),
        first_of(s, class, from) < s.len() ==> class.holds(s[first_of(s, class, from)]),
    decreases s.len() - from,
{
    if from < s.len() && !class.holds(s[from]) {
        lemma_first_of(s, class, from + 1);
    }
}

/// A position is `first_of` when nothing from `from` up to it is in the
/// class, and it is in the class or the end of `s`.
pub proof fn lemma_first_of_is(s: Seq<char>, class: Class, from: int, at: int)
    requires
        0 <= from <= at <= s.len(),
        forall|k: int| from <= k < at ==> !class.holds(#[trigger] s[k]),
        at < s.len() ==> class.holds(s[at]),
    ensures
        first_of(s, class, from) == at,
{
    lemma_first_of(s, class, from);
    let found = first_of(s, class, from);
    if found < at {
        assert(!class.holds(s[found]));
    }
}

/// Computes `first_of`.
pub fn find(s: &[char], class: Class, from: usize) -> (at: usize)
    requires
        from <= s.len(),
    ensures
        at == first_of(s@, class, from as int),
        from <= at <= s.len(),
{
    let mut at: usize = from;
    while at < s.len() && !class.test(s[at])
        invariant
            from <= at <= s.len(),
            first_of(s@, class, from as int) == first_of(s@, class, at as int),
        decreases s.len() - at,
    {
        at = at + 1;
    }
    at
}

/// Whether `s` begins with `prefix`.
pub fn starts_with(s: &[char], prefix: &[char]) -> (b: bool)
    ensures
        b == prefix@.is_prefix_of(s@),
{
    if prefix.len() > s.len() {
        return false;
    }
    let mut at: usize = 0;
    while at < prefix.len()
        invariant
            at <= prefix.len() <= s.len(),
            prefix@.take(at as int) == s@.take(at as int),
        decreases prefix.len() - at,
    {
        if prefix[at] != s[at] {
            proof {
                assert(s@.subrange(0, prefix@.len() as int)[at as int] != prefix@[at as int]);
            }
            return false;
        }
        proof {
            assert(prefix@.take(at + 1) =~= prefix@.take(at as int).push(prefix@[at as int]));
            assert(s@.take(at + 1) =~= s@.take(at as int).push(s@[at as int]));
        }
        at = at + 1;
    }
    proof {
        assert(prefix@.take(at as int) =~= prefix@);
    }
    true
}

/// Whether `a` and `b` hold the same characters.
pub fn same(a: &[char], b: &[char]) -> (r: bool)
    ensures
        r == (a@ == b@),
{
    if a.len() != b.len() {
        return false;
    }
    let r = starts_with(a, b);
    proof {
        assert(a@.subrange(0, a@.len() as int) =~= a@);
    }
    r
}

/// Whether `s` is the text `literal`.
pub fn is_text(s: &[char], literal: &str) -> (b: bool)
    ensures
        b == (s@ == literal@),
{
    let literal = chars_of(literal);
    same(s, literal.as_slice())
}

/// Whether `s` begins with the text `prefix`.
pub fn begins_with(s: &[char], prefix: &str) -> (b: bool)
    ensures
        b == prefix@.is_prefix_of(s@),
{
    let prefix = chars_of(prefix);
    starts_with(s, prefix.as_slice())
}

/// Where the first token of `s` begins: its first character that is no
/// white space, or its end.
pub open spec fn token_start(s: Seq<char>) -> int {
    first_of(s, Class::NonSpace, 0)
}

/// Where the first token of `s` ends: the first white space after
/// `token_start`, or the end of `s`.
pub open spec fn token_end(s: Seq<char>) -> int {
    first_of(s, Class::Space, token_start(s))
}

/// The first run of characters of `s` that holds no white space; empty where
/// `s` is empty or all white space.
pub open spec fn first_token(s: Seq<char>) -> Seq<char> {
    s.subrange(token_start(s), token_end(s))
}

/// What follows the first token of `s`.
pub open spec fn after_first_token(s: Seq<char>) -> Seq<char> {
    s.skip(token_end(s))
}

/// The `n`-th piece of `s`, counted from zero, when `s` is cut at every
/// `sep`; empty where `s` has fewer pieces.
pub open spec fn segment(s: Seq<char>, sep: char, n: nat) -> Seq<char>
    decreases n,
{
    let end = first_of(s, Class::Is(sep), 0);
    if n == 0 {
        s.take(end)
    } else if end >= s.len() {
        Seq::empty()
    } else {
        segment(s.skip(end + 1), sep, (n - 1) as nat)
    }
}

/// The bounds of the first token of `s`.
pub fn token_bounds(s: &[char]) -> (bounds: (usize, usize))
    ensures
        bounds.0 == token_start(s@),
        bounds.1 == token_end(s@),
        bounds.0 <= bounds.1 <= s.len(),
{
    let start = find(s, Class::NonSpace, 0);
    let end = find(s, Class::Space, start);
    (start, end)
}

/// The bounds in `s` of its `n`-th piece between separators.
pub fn segment_bounds(s: &[char], sep: char, n: usize) -> (bounds: (usize, usize))
    ensures
        bounds.0 <= bounds.1 <= s.len(),
        s@.subrange(bounds.0 as int, bounds.1 as int) == segment(s@, sep, n as nat),
{
    let mut start: usize = 0;
    let mut left: usize = n;
    proof {
        assert(s@.skip(0) =~= s@);
    }
    loop
        invariant
            start <= s.len(),
            left <= n,
            segment(s@, sep, n as nat) == segment(s@.skip(start as int), sep, left as nat),
        decreases left,
    {
        let rest = slice_subrange(s, start, s.len());
        proof {
            assert(rest@ =~= s@.skip(start as int));
        }
        let end = find(rest, Class::Is(sep), 0);
        if left == 0 {
            proof {
                assert(rest@.take(end as int) =~= s@.subrange(start as int, start + end));
            }
            return (start, start + end);
        }
        if end >= rest.len() {
            proof {
                assert(s@.subrange(s.len() as int, s.len() as int) =~= Seq::<char>::empty());
            }
            return (s.len(), s.len());
        }
        proof {
            assert(rest@.skip(end + 1) =~= s@.skip(start + end + 1));
        }
        start = start + end + 1;
        left = left - 1;
    }
}

} // verus!
