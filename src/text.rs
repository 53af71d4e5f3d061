use vstd::prelude::*;

verus! {

/// `p` occurs in `s` starting at character `i`.
pub open spec fn occurs_at(s: Seq<char>, p: Seq<char>, i: int) -> bool {
    0 <= i && i + p.len() <= s.len() && s.subrange(i, i + p.len()) == p
}

/// Whether `p` occurs in `s` as a contiguous run of characters.
pub open spec fn contains_seq(s: Seq<char>, p: Seq<char>) -> bool {
    exists|i: int| #[trigger] occurs_at(s, p, i)
}

/// `s` with every `from` replaced by `to`.
pub open spec fn replace_char(s: Seq<char>, from: char, to: char) -> Seq<char> {
    s.map_values(|c: char| if c == from { to } else { c })
}

fn matches_at(s: &str, p: &str, n: usize, m: usize, i: usize) -> (r: bool)
    requires
        n == s@.len(),
        m == p@.len(),
        i + m <= n,
    ensures
        r == occurs_at(s@, p@, i as int),
{
    let mut j: usize = 0;
    while j < m
        invariant
            n == s@.len(),
            m == p@.len(),
            i + m <= n,
            j <= m,
            forall|t: int| 0 <= t < j ==> s@[i + t] == p@[t],
        decreases m - j,
    {
        if s.get_char(i + j) != p.get_char(j) {
            assert(s@.subrange(i as int, i + m)[j as int] != p@[j as int]);
            return false;
        }
        j += 1;
    }
    assert(s@.subrange(i as int, i + m) =~= p@);
    true
}

/// Whether `pattern` occurs in `s`.
pub fn contains_str(s: &str, pattern: &str) -> (r: bool)
    ensures
        r == contains_seq(s@, pattern@),
{
    match rfind_str(s, pattern) {
        Some(_) => true,
        None => false,
    }
}

/// The start of the last occurrence of `pattern` in `s`, in characters.
pub fn rfind_str(s: &str, pattern: &str) -> (r: Option<usize>)
    ensures
        r matches Some(i) ==> occurs_at(s@, pattern@, i as int) && forall|j: int|
            i < j ==> !#[trigger] occurs_at(s@, pattern@, j),
        r is None ==> !contains_seq(s@, pattern@),
{
    let n = s.unicode_len();
    let m = pattern.unicode_len();
    if m > n {
        return None;
    }
    if m == 0 {
        assert(s@.subrange(n as int, n as int) =~= pattern@);
        return Some(n);
    }
    let mut i: usize = n - m + 1;
    while i > 0
        invariant
            n == s@.len(),
            m == pattern@.len(),
            1 <= m <= n,
            i <= n - m + 1,
            forall|j: int| i <= j ==> !#[trigger] occurs_at(s@, pattern@, j),
        decreases i,
    {
        if matches_at(s, pattern, n, m, i - 1) {
            return Some(i - 1);
        }
        i -= 1;
    }
    None
}

/// `s` with every `from` replaced by the single character of `to_str`.
pub fn replace_char_str(s: &str, from: char, to_str: &str) -> (r: String)
    requires
        to_str@.len() == 1,
    ensures
        r@ == replace_char(s@, from, to_str@[0]),
{
    let n = s.unicode_len();
    let ghost to = to_str@[0];
    assert(to_str@ =~= seq![to]);
    let mut r = String::new();
    let mut i: usize = 0;
    while i < n
        invariant
            n == s@.len(),
            i <= n,
            to_str@ == seq![to],
            r@ == replace_char(s@.take(i as int), from, to),
        decreases n - i,
    {
        let c = s.get_char(i);
        if c == from {
            r.append(to_str);
        } else {
            r.append(s.substring_char(i, i + 1));
        }
        assert(replace_char(s@.take(i + 1), from, to) =~= replace_char(s@.take(i as int), from, to)
            + seq![if c == from { to } else { c }]);
        i += 1;
    }
    assert(s@.take(n as int) =~= s@);
    r
}

} // verus!
