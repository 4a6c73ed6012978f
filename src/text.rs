//! Character-level text helpers: splitting strings into characters,
//! whitespace removal, case folding and substring search.

use vstd::prelude::*;

verus! {

broadcast use vstd::string::axiom_spec_iter;

/// The characters of `s`, in order.
pub fn chars_of(s: &str) -> (r: Vec<char>)
    ensures
        r@ == s@,
{
    let mut v: Vec<char> = Vec::new();
    for c in it: s.chars()
        invariant
            it.seq() == s@,
            v@ == it.seq().take(it.index() as int),
    {
        v.push(c);
    }
    v
}


/// What `str::to_lowercase` makes of the string with characters `s`.
pub uninterp spec fn lower_of(s: Seq<char>) -> Seq<char>;

/// The ASCII lowercase of `c`: the capitals A to Z become a to z, every
/// other character stays as it is.
pub open spec fn ascii_lower(c: char) -> char {
    if 65 <= c as u32 && c as u32 <= 90 {
        ((c as u32) + 32) as char
    } else {
        c
    }
}

/// Whether every character of `s` is ASCII.
pub open spec fn is_ascii_text(s: Seq<char>) -> bool {
    forall|i: int| 0 <= i < s.len() ==> (#[trigger] s[i] as u32) < 128
}

/// The lowercase form of the string with characters `s`, as
/// `str::to_lowercase` gives it: ASCII text has its capitals lowered one by
/// one.
pub open spec fn lowered(s: Seq<char>) -> Seq<char> {
    if is_ascii_text(s) {
        s.map_values(|c: char| ascii_lower(c))
    } else {
        lower_of(s)
    }
}

/// Relies on `str::to_lowercase` for the lowercase form of the string with
/// characters `s`. On ASCII text it lowers the capitals A to Z and keeps
/// every other character, as the Unicode lowercase mapping does there.
#[verifier::external_body]
pub(crate) fn lowercase(s: &Vec<char>) -> (r: Vec<char>)
    ensures
        !is_ascii_text(s@) ==> r@ == lower_of(s@),
        is_ascii_text(s@) ==> r@ == s@.map_values(|c: char| ascii_lower(c)),
{
    s.iter().collect::<String>().to_lowercase().chars().collect()
}

/// Unicode's `White_Space` property, the set that `char::is_whitespace`
/// tests for.
pub open spec fn is_white_space(c: char) -> bool {
    let u = c as u32;
    (0x9 <= u && u <= 0xD) || u == 0x20 || u == 0x85 || u == 0xA0 || u == 0x1680 || (0x2000 <= u
        && u <= 0x200A) || u == 0x2028 || u == 0x2029 || u == 0x202F || u == 0x205F || u == 0x3000
}

/// Whether `c` is a whitespace character.
pub fn white_space(c: char) -> (r: bool)
    ensures
        r == is_white_space(c),
{
    let u: u32 = c as u32;
    (0x9 <= u && u <= 0xD) || u == 0x20 || u == 0x85 || u == 0xA0 || u == 0x1680 || (0x2000 <= u
        && u <= 0x200A) || u == 0x2028 || u == 0x2029 || u == 0x202F || u == 0x205F || u == 0x3000
}

/// `s` with every whitespace character taken out, the rest kept in order.
pub open spec fn without_whitespace(s: Seq<char>) -> Seq<char>
    decreases s.len(),
{
    if s.len() == 0 {
        s
    } else {
        let rest = without_whitespace(s.drop_last());
        if is_white_space(s.last()) {
            rest
        } else {
            rest.push(s.last())
        }
    }
}

/// Takes every whitespace character out of `s`.
pub fn strip_whitespace(s: &Vec<char>) -> (r: Vec<char>)
    ensures
        r@ == without_whitespace(s@),
{
    let mut out: Vec<char> = Vec::new();
    let mut i: usize = 0;
    while i < s.len()
        invariant
            i <= s.len(),
            out@ == without_whitespace(s@.take(i as int)),
        decreases s.len() - i,
    {
        let c: char = s[i];
        assert(s@.take(i + 1).drop_last() =~= s@.take(i as int));
        if !white_space(c) {
            out.push(c);
        }
        i = i + 1;
    }
    assert(s@.take(i as int) =~= s@);
    out
}

/// Whether `a` and `b` hold the same characters.
pub fn same_chars(a: &Vec<char>, b: &Vec<char>) -> (r: bool)
    ensures
        r == (a@ == b@),
{
    if a.len() != b.len() {
        return false;
    }
    let mut i: usize = 0;
    while i < a.len()
        invariant
            a.len() == b.len(),
            i <= a.len(),
            forall|k: int| 0 <= k < i ==> a@[k] == b@[k],
        decreases a.len() - i,
    {
        if a[i] != b[i] {
            return false;
        }
        i = i + 1;
    }
    assert(a@ =~= b@);
    true
}

/// Whether `p` occurs in `t` starting at position `i`.
pub open spec fn occurs_at(t: Seq<char>, p: Seq<char>, i: int) -> bool {
    0 <= i && i + p.len() <= t.len() && t.subrange(i, i + p.len()) == p
}

/// Whether `p` occurs anywhere in `t`.
pub open spec fn contains(t: Seq<char>, p: Seq<char>) -> bool {
    exists|i: int| occurs_at(t, p, i)
}

/// The number of non-overlapping occurrences of `p` in `t`, found from the
/// left as `str::matches` finds them; the empty pattern matches at each of
/// the `t.len() + 1` boundaries between characters.
pub open spec fn occurrences(t: Seq<char>, p: Seq<char>) -> nat
    decreases t.len(),
{
    if p.len() == 0 {
        t.len() + 1
    } else if t.len() < p.len() {
        0
    } else if t.subrange(0, p.len() as int) == p {
        1 + occurrences(t.subrange(p.len() as int, t.len() as int), p)
    } else {
        occurrences(t.subrange(1, t.len() as int), p)
    }
}

/// Whether `p` occurs in `t` starting at position `i`.
pub fn matches_at(t: &Vec<char>, p: &Vec<char>, i: usize) -> (r: bool)
    requires
        i + p.len() <= t.len(),
    ensures
        r == occurs_at(t@, p@, i as int),
{
    let mut j: usize = 0;
    while j < p.len()
        invariant
            i + p.len() <= t.len(),
            j <= p.len(),
            forall|k: int| 0 <= k < j ==> t@[i + k] == p@[k],
        decreases p.len() - j,
    {
        if t[i + j] != p[j] {
            assert(t@.subrange(i as int, i + p.len())[j as int] != p@[j as int]);
            return false;
        }
        j = j + 1;
    }
    assert(t@.subrange(i as int, i + p.len()) =~= p@);
    true
}

/// Whether `p` occurs anywhere in `t`.
pub fn contains_chars(t: &Vec<char>, p: &Vec<char>) -> (r: bool)
    ensures
        r == contains(t@, p@),
{
    if p.len() > t.len() {
        return false;
    }
    if p.len() == 0 {
        assert(t@.subrange(0, 0) =~= p@);
        assert(occurs_at(t@, p@, 0));
        return true;
    }
    let last: usize = t.len() - p.len();
    let mut i: usize = 0;
    while i <= last
        invariant
            last == t.len() - p.len(),
            p.len() > 0,
            i <= last + 1,
            forall|k: int| 0 <= k < i ==> !occurs_at(t@, p@, k),
        decreases t.len() - i,
    {
        if matches_at(t, p, i) {
            return true;
        }
        i = i + 1;
    }
    assert forall|k: int| !occurs_at(t@, p@, k) by {
        if 0 <= k && k < i {
        }
    }
    false
}

/// A count as a machine word: `None` where it does not fit in `usize`.
pub open spec fn as_usize(n: nat) -> Option<usize> {
    if n <= usize::MAX {
        Some(n as usize)
    } else {
        None
    }
}

/// Counts the non-overlapping occurrences of `p` in `t`, from the left;
/// `None` where the count does not fit in `usize`.
pub fn count_occurrences(t: &Vec<char>, p: &Vec<char>) -> (r: Option<usize>)
    ensures
        r == as_usize(occurrences(t@, p@)),
{
    let n: usize = t.len();
    if p.len() == 0 {
        if n == usize::MAX {
            return None;
        }
        return Some(n + 1);
    }
    if p.len() > n {
        return Some(0);
    }
    let last: usize = n - p.len();
    let mut count: usize = 0;
    let mut i: usize = 0;
    assert(t@.subrange(0, n as int) =~= t@);
    while i <= last
        invariant
            n == t.len(),
            last == n - p.len(),
            p.len() > 0,
            i <= n,
            count <= i,
            count + occurrences(t@.subrange(i as int, n as int), p@) == occurrences(t@, p@),
        decreases n - i,
    {
        assert(i + p.len() <= n);
        let ghost rest = t@.subrange(i as int, n as int);
        assert(rest.subrange(0, p.len() as int) =~= t@.subrange(i as int, i + p.len()));
        if matches_at(t, p, i) {
            assert(rest.subrange(p.len() as int, rest.len() as int) =~= t@.subrange(
                i + p.len(),
                n as int,
            ));
            count = count + 1;
            i = i + p.len();
        } else {
            assert(rest.subrange(0, p.len() as int) != p@);
            assert(rest.subrange(1, rest.len() as int) =~= t@.subrange(i + 1, n as int));
            i = i + 1;
        }
    }
    assert(t@.subrange(i as int, n as int).len() < p.len());
    Some(count)
}

} // verus!
