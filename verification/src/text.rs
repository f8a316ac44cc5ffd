//! Character-level text utilities: whitespace trimming, substring search,
//! and extraction of the value part of a `key = value` line.

use vstd::prelude::*;

verus! {

/// The whitespace characters that trimming removes at either end of a value.
pub open spec fn is_space(c: char) -> bool {
    c == ' ' || c == '\t' || c == '\n' || c == '\r'
}

/// `s` with leading and trailing whitespace removed.
pub open spec fn trimmed(s: Seq<char>) -> Seq<char>
    decreases s.len(),
{
    if s.len() == 0 {
        s
    } else if is_space(s[0]) {
        trimmed(s.drop_first())
    } else if is_space(s[s.len() - 1]) {
        trimmed(s.drop_last())
    } else {
        s
    }
}

/// `key` occurs in `s` starting at position `i`.
pub open spec fn is_match_at(s: Seq<char>, key: Seq<char>, i: int) -> bool {
    &&& 0 <= i
    &&& i + key.len() <= s.len()
    &&& s.subrange(i, i + key.len()) == key
}

/// `key` occurs somewhere in `s`.
pub open spec fn has_token(s: Seq<char>, key: Seq<char>) -> bool {
    exists|i: int| is_match_at(s, key, i)
}

/// What remains of `l` after its first `=`; all of nothing when `l` has none.
pub open spec fn after_first_eq(l: Seq<char>) -> Seq<char>
    decreases l.len(),
{
    if l.len() == 0 {
        Seq::empty()
    } else if l[0] == '=' {
        l.drop_first()
    } else {
        after_first_eq(l.drop_first())
    }
}

/// The value carried by a `key = value` line: everything after the first
/// `=`, trimmed; the empty string when the line has no `=`.
pub open spec fn line_value(l: Seq<char>) -> Seq<char> {
    trimmed(after_first_eq(l))
}

fn is_space_char(c: char) -> (r: bool)
    ensures
        r == is_space(c),
{
    c == ' ' || c == '\t' || c == '\n' || c == '\r'
}

/// A range `[a, b)` that drops exactly the whitespace at both ends of `s`
/// cuts `s` down to `trimmed(s)`.
proof fn lemma_trim_range(s: Seq<char>, a: int, b: int)
    requires
        0 <= a <= b <= s.len(),
        forall|j: int| 0 <= j < a ==> is_space(s[j]),
        forall|j: int| b <= j < s.len() ==> is_space(s[j]),
        a < b ==> !is_space(s[a]) && !is_space(s[b - 1]),
    ensures
        trimmed(s) == s.subrange(a, b),
    decreases s.len(),
{
    if s.len() == 0 {
        assert(s.subrange(a, b) =~= s);
    } else if is_space(s[0]) {
        if a == b {
            lemma_trim_range(s.drop_first(), 0, 0);
            assert(s.subrange(a, b) =~= s.drop_first().subrange(0, 0));
        } else {
            lemma_trim_range(s.drop_first(), a - 1, b - 1);
            assert(s.subrange(a, b) =~= s.drop_first().subrange(a - 1, b - 1));
        }
    } else if is_space(s[s.len() - 1]) {
        assert(b < s.len());
        lemma_trim_range(s.drop_last(), a, b);
        assert(s.subrange(a, b) =~= s.drop_last().subrange(a, b));
    } else {
        assert(a == 0);
        assert(b == s.len());
        assert(s.subrange(a, b) =~= s);
    }
}

/// `s` with leading and trailing whitespace removed.
pub fn trim_str(s: &str) -> (r: String)
    ensures
        r@ == trimmed(s@),
{
    let n = s.unicode_len();
    let mut a: usize = 0;
    loop
        invariant
            n == s@.len(),
            a <= n,
            forall|j: int| 0 <= j < a ==> is_space(s@[j]),
        ensures
            a <= n,
            forall|j: int| 0 <= j < a ==> is_space(s@[j]),
            a < n ==> !is_space(s@[a as int]),
        decreases n - a,
    {
        if a == n {
            break;
        }
        if !is_space_char(s.get_char(a)) {
            break;
        }
        a = a + 1;
    }
    if a == n {
        proof {
            lemma_trim_range(s@, a as int, a as int);
        }
        return String::new();
    }
    let mut b: usize = n;
    loop
        invariant
            n == s@.len(),
            a < b <= n,
            !is_space(s@[a as int]),
            forall|j: int| b <= j < n ==> is_space(s@[j]),
        ensures
            a < b <= n,
            forall|j: int| b <= j < n ==> is_space(s@[j]),
            !is_space(s@[b - 1]),
        decreases b,
    {
        if !is_space_char(s.get_char(b - 1)) {
            break;
        }
        b = b - 1;
    }
    let r = s.substring_char(a, b);
    proof {
        lemma_trim_range(s@, a as int, b as int);
    }
    String::from_str(r)
}

fn match_at(s: &str, key: &str, i: usize) -> (r: bool)
    requires
        i + key@.len() <= s@.len(),
        s@.len() <= usize::MAX,
    ensures
        r == is_match_at(s@, key@, i as int),
{
    let m = key.unicode_len();
    let mut k: usize = 0;
    while k < m
        invariant
            m == key@.len(),
            i + m <= s@.len(),
            s@.len() <= usize::MAX,
            k <= m,
            forall|t: int| 0 <= t < k ==> s@[i + t] == key@[t],
        decreases m - k,
    {
        if s.get_char(i + k) != key.get_char(k) {
            assert(s@.subrange(i as int, i + m) != key@) by {
                assert(s@.subrange(i as int, i + m)[k as int] == s@[i + k]);
            };
            return false;
        }
        k = k + 1;
    }
    assert(s@.subrange(i as int, i + m) =~= key@);
    true
}

/// Whether `key` occurs as a substring of `s`.
pub fn contains_token(s: &str, key: &str) -> (r: bool)
    ensures
        r == has_token(s@, key@),
{
    let n = s.unicode_len();
    let m = key.unicode_len();
    if m > n {
        assert(forall|j: int| !is_match_at(s@, key@, j));
        return false;
    }
    if m == 0 {
        assert(s@.subrange(0, 0) =~= key@);
        assert(is_match_at(s@, key@, 0));
        return true;
    }
    let mut i: usize = 0;
    while i <= n - m
        invariant
            n == s@.len(),
            m == key@.len(),
            1 <= m <= n,
            i <= n - m + 1,
            forall|j: int| 0 <= j < i ==> !is_match_at(s@, key@, j),
        decreases n - m - i + 1,
    {
        if match_at(s, key, i) {
            return true;
        }
        i = i + 1;
    }
    assert(forall|j: int| is_match_at(s@, key@, j) ==> 0 <= j < i);
    false
}

/// When no `=` stands in `l`, nothing follows the first one.
proof fn lemma_after_eq_none(l: Seq<char>)
    requires
        forall|j: int| 0 <= j < l.len() ==> l[j] != '=',
    ensures
        after_first_eq(l) == Seq::<char>::empty(),
    decreases l.len(),
{
    if l.len() > 0 {
        lemma_after_eq_none(l.drop_first());
    }
}

/// When the first `=` of `l` stands at `i`, what follows it is the tail
/// of `l` from `i + 1` on.
proof fn lemma_after_eq_at(l: Seq<char>, i: int)
    requires
        0 <= i < l.len(),
        l[i] == '=',
        forall|j: int| 0 <= j < i ==> l[j] != '=',
    ensures
        after_first_eq(l) == l.subrange(i + 1, l.len() as int),
    decreases i,
{
    if i == 0 {
        assert(l.drop_first() =~= l.subrange(1, l.len() as int));
    } else {
        lemma_after_eq_at(l.drop_first(), i - 1);
        assert(l.drop_first().subrange(i, l.len() - 1) =~= l.subrange(i + 1, l.len() as int));
    }
}

/// The value part of a `key = value` line: the trimmed text after the first
/// `=`, or the empty string when the line has no `=`.
pub fn extract_value(line: &str) -> (r: String)
    ensures
        r@ == line_value(line@),
{
    let n = line.unicode_len();
    let mut i: usize = 0;
    loop
        invariant
            n == line@.len(),
            i <= n,
            forall|j: int| 0 <= j < i ==> line@[j] != '=',
        ensures
            i <= n,
            forall|j: int| 0 <= j < i ==> line@[j] != '=',
            i < n ==> line@[i as int] == '=',
        decreases n - i,
    {
        if i == n {
            break;
        }
        if line.get_char(i) == '=' {
            break;
        }
        i = i + 1;
    }
    if i == n {
        proof {
            lemma_after_eq_none(line@);
        }
        String::new()
    } else {
        let rest = line.substring_char(i + 1, n);
        proof {
            lemma_after_eq_at(line@, i as int);
        }
        trim_str(rest)
    }
}

} // verus!
