//! Character-level text helpers: trimming white space from both ends of a
//! string and substring search. Both are specified over the character
//! sequences of the strings involved.

use vstd::prelude::*;

verus! {

/// The Unicode white-space characters: those removed from the ends of an
/// input by trimming.
pub open spec fn is_space(c: char) -> bool {
    let u = c as u32;
    ||| u == 0x20
    ||| (0x09 <= u && u <= 0x0D)
    ||| u == 0x85
    ||| u == 0xA0
    ||| u == 0x1680
    ||| (0x2000 <= u && u <= 0x200A)
    ||| u == 0x2028
    ||| u == 0x2029
    ||| u == 0x202F
    ||| u == 0x205F
    ||| u == 0x3000
}

fn is_space_ch(c: char) -> (b: bool)
    ensures
        b == is_space(c),
{
    let u = c as u32;
    u == 0x20 || (0x09 <= u && u <= 0x0D) || u == 0x85 || u == 0xA0 || u == 0x1680
        || (0x2000 <= u && u <= 0x200A) || u == 0x2028 || u == 0x2029 || u == 0x202F
        || u == 0x205F || u == 0x3000
}

/// The sequence with its leading white space removed.
pub open spec fn trim_front(s: Seq<char>) -> Seq<char>
    decreases s.len(),
{
    if s.len() > 0 && is_space(s[0]) {
        trim_front(s.drop_first())
    } else {
        s
    }
}

/// The sequence with its trailing white space removed.
pub open spec fn trim_back(s: Seq<char>) -> Seq<char>
    decreases s.len(),
{
    if s.len() > 0 && is_space(s[s.len() - 1]) {
        trim_back(s.drop_last())
    } else {
        s
    }
}

/// The sequence with white space removed from both ends.
pub open spec fn trim_spec(s: Seq<char>) -> Seq<char> {
    trim_back(trim_front(s))
}

proof fn lemma_trim_front_at(s: Seq<char>, a: int)
    requires
        0 <= a <= s.len(),
        forall|i: int| 0 <= i < a ==> is_space(s[i]),
        a < s.len() ==> !is_space(s[a]),
    ensures
        trim_front(s) == s.subrange(a, s.len() as int),
    decreases a,
{
    if a == 0 {
        assert(s.subrange(0, s.len() as int) =~= s);
    } else {
        lemma_trim_front_at(s.drop_first(), a - 1);
        assert(s.drop_first().subrange(a - 1, s.drop_first().len() as int) =~= s.subrange(
            a,
            s.len() as int,
        ));
    }
}

proof fn lemma_trim_back_at(s: Seq<char>, b: int)
    requires
        0 <= b <= s.len(),
        forall|i: int| b <= i < s.len() ==> is_space(s[i]),
        b > 0 ==> !is_space(s[b - 1]),
    ensures
        trim_back(s) == s.subrange(0, b),
    decreases s.len() - b,
{
    if b == s.len() {
        assert(s.subrange(0, s.len() as int) =~= s);
    } else {
        lemma_trim_back_at(s.drop_last(), b);
        assert(s.drop_last().subrange(0, b) =~= s.subrange(0, b));
    }
}

/// Removes white space from both ends of a string.
pub fn trim_str<'a>(s: &'a str) -> (r: &'a str)
    ensures
        r@ == trim_spec(s@),
{
    let n = s.unicode_len();
    let mut a: usize = 0;
    while a < n && is_space_ch(s.get_char(a))
        invariant
            0 <= a <= n,
            n == s@.len(),
            forall|i: int| 0 <= i < a ==> is_space(s@[i]),
        decreases n - a,
    {
        a = a + 1;
    }
    proof {
        lemma_trim_front_at(s@, a as int);
    }
    let mut b: usize = n;
    while b > a && is_space_ch(s.get_char(b - 1))
        invariant
            a <= b <= n,
            n == s@.len(),
            forall|i: int| b <= i < n ==> is_space(s@[i]),
        decreases b,
    {
        b = b - 1;
    }
    let r = s.substring_char(a, b);
    proof {
        let front = s@.subrange(a as int, n as int);
        lemma_trim_back_at(front, b - a);
        assert(front.subrange(0, b - a) =~= s@.subrange(a as int, b as int));
    }
    r
}

/// Whether `k` occurs in `t` starting at position `i`.
pub open spec fn contains_at(t: Seq<char>, k: Seq<char>, i: int) -> bool {
    0 <= i && i + k.len() <= t.len() && t.subrange(i, i + k.len() as int) == k
}

/// Whether `k` occurs somewhere in `t` as a contiguous run of characters.
pub open spec fn contains_seq(t: Seq<char>, k: Seq<char>) -> bool {
    exists|i: int| contains_at(t, k, i)
}

fn match_at(t: &str, k: &str, i: usize, tn: usize, kn: usize) -> (b: bool)
    requires
        tn == t@.len(),
        kn == k@.len(),
        i + kn <= tn,
    ensures
        b == contains_at(t@, k@, i as int),
{
    let mut j: usize = 0;
    while j < kn
        invariant
            0 <= j <= kn,
            tn == t@.len(),
            kn == k@.len(),
            i + kn <= tn,
            forall|p: int| 0 <= p < j ==> t@[i + p] == k@[p],
        decreases kn - j,
    {
        if t.get_char(i + j) != k.get_char(j) {
            assert(t@.subrange(i as int, i + kn as int)[j as int] != k@[j as int]);
            return false;
        }
        j = j + 1;
    }
    assert(t@.subrange(i as int, i + kn as int) =~= k@);
    true
}

/// Substring search: whether `k` occurs in `t`. The empty string occurs in
/// every string.
pub fn contains_str(t: &str, k: &str) -> (b: bool)
    ensures
        b == contains_seq(t@, k@),
{
    let tn = t.unicode_len();
    let kn = k.unicode_len();
    if kn > tn {
        assert(forall|i: int| !contains_at(t@, k@, i));
        return false;
    }
    if kn == 0 {
        assert(t@.subrange(0, 0) =~= k@);
        assert(contains_at(t@, k@, 0));
        return true;
    }
    let m = tn - kn;
    let mut i: usize = 0;
    while i <= m
        invariant
            0 <= i <= m + 1,
            1 <= kn <= tn,
            m == tn - kn,
            tn == t@.len(),
            kn == k@.len(),
            forall|p: int| 0 <= p < i ==> !contains_at(t@, k@, p),
        decreases m + 1 - i,
    {
        if match_at(t, k, i, tn, kn) {
            return true;
        }
        i = i + 1;
    }
    assert(forall|p: int| contains_at(t@, k@, p) ==> 0 <= p <= m);
    false
}

} // verus!
