use vstd::prelude::*;

verus! {

/// Index of the first occurrence of `c` in `s`, or `s.len()` when `c` does not occur.
pub open spec fn first_index_of(s: Seq<char>, c: char) -> int
    decreases s.len(),
{
    if s.len() == 0 {
        0
    } else if s[0] == c {
        0
    } else {
        1 + first_index_of(s.drop_first(), c)
    }
}

pub proof fn lemma_first_index_of(s: Seq<char>, c: char)
    ensures
        0 <= first_index_of(s, c) <= s.len(),
        forall|k: int| 0 <= k < first_index_of(s, c) ==> s[k] != c,
        first_index_of(s, c) < s.len() ==> s[first_index_of(s, c)] == c,
    decreases s.len(),
{
    if s.len() != 0 && s[0] != c {
        lemma_first_index_of(s.drop_first(), c);
        assert forall|k: int| 0 <= k < first_index_of(s, c) implies s[k] != c by {
            if k > 0 {
                assert(s.drop_first()[k - 1] != c);
            }
        }
    }
}

pub proof fn lemma_first_index_of_unique(s: Seq<char>, c: char, k: int)
    requires
        0 <= k <= s.len(),
        forall|j: int| 0 <= j < k ==> s[j] != c,
        k < s.len() ==> s[k] == c,
    ensures
        k == first_index_of(s, c),
{
    lemma_first_index_of(s, c);
    let fi = first_index_of(s, c);
    if fi < k {
        assert(s[fi] == c);
        assert(false);
    }
    if fi > k {
        assert(s[k] == c);
        assert(false);
    }
}

/// First position of `c` in `s` at or after `lo` and before `hi`, or `hi` when
/// `c` does not occur in that range.
pub fn scan_char(s: &str, lo: usize, hi: usize, c: char) -> (r: usize)
    requires
        lo <= hi,
        hi <= s@.len(),
    ensures
        lo <= r <= hi,
        r - lo == first_index_of(s@.subrange(lo as int, hi as int), c),
        forall|j: int| lo <= j < r ==> s@[j] != c,
        r < hi ==> s@[r as int] == c,
{
    let mut k: usize = lo;
    while k < hi && s.get_char(k) != c
        invariant
            lo <= k <= hi,
            hi <= s@.len(),
            forall|j: int| lo <= j < k ==> s@[j] != c,
        decreases hi - k,
    {
        k = k + 1;
    }
    proof {
        let sub = s@.subrange(lo as int, hi as int);
        assert forall|j: int| 0 <= j < k - lo implies sub[j] != c by {
            assert(sub[j] == s@[lo + j]);
        }
        lemma_first_index_of_unique(sub, c, k - lo);
    }
    k
}

/// Whether `pat` occurs in `t` starting at position `i`.
pub open spec fn matches_at(t: Seq<char>, pat: Seq<char>, i: int) -> bool {
    0 <= i && i + pat.len() <= t.len() && t.subrange(i, i + pat.len()) == pat
}

/// Position of the first occurrence of `pat` in `t`, or -1 when there is none.
pub open spec fn first_match(t: Seq<char>, pat: Seq<char>) -> int
    decreases t.len(),
{
    if t.len() < pat.len() {
        -1
    } else if t.subrange(0, pat.len() as int) == pat {
        0
    } else if t.len() == 0 {
        -1
    } else {
        let r = first_match(t.drop_first(), pat);
        if r < 0 {
            -1
        } else {
            1 + r
        }
    }
}

pub proof fn lemma_first_match(t: Seq<char>, pat: Seq<char>)
    ensures
        first_match(t, pat) >= 0 ==> matches_at(t, pat, first_match(t, pat)),
        first_match(t, pat) < 0 ==> forall|i: int| !matches_at(t, pat, i),
        forall|i: int| 0 <= i < first_match(t, pat) ==> !matches_at(t, pat, i),
    decreases t.len(),
{
    if t.len() < pat.len() {
        assert forall|i: int| !matches_at(t, pat, i) by {}
    } else if t.subrange(0, pat.len() as int) == pat {
    } else if t.len() == 0 {
        assert(pat.len() == 0);
        assert(t.subrange(0, 0) =~= pat);
        assert(false);
    } else {
        lemma_first_match(t.drop_first(), pat);
        let r = first_match(t.drop_first(), pat);
        assert forall|i: int| 1 <= i && i + pat.len() <= t.len() implies
            (matches_at(t, pat, i) <==> matches_at(t.drop_first(), pat, i - 1)) by {
            assert(t.subrange(i, i + pat.len() as int) =~= t.drop_first().subrange(
                i - 1,
                i - 1 + pat.len() as int,
            ));
        }
        if r >= 0 {
            assert(matches_at(t, pat, 1 + r));
            assert forall|i: int| 0 <= i < 1 + r implies !matches_at(t, pat, i) by {
                if i > 0 {
                    assert(!matches_at(t.drop_first(), pat, i - 1));
                }
            }
        } else {
            assert forall|i: int| !matches_at(t, pat, i) by {
                if i > 0 {
                    assert(!matches_at(t.drop_first(), pat, i - 1));
                }
            }
        }
    }
}

/// Whether `pat` occurs in `t` starting at exec position `i`.
pub fn check_match_at(t: &str, pat: &str, i: usize) -> (r: bool)
    requires
        i + pat@.len() <= t@.len(),
    ensures
        r == matches_at(t@, pat@, i as int),
{
    let n = t.unicode_len();
    let m = pat.unicode_len();
    let mut j: usize = 0;
    while j < m && t.get_char(i + j) == pat.get_char(j)
        invariant
            0 <= j <= m,
            n == t@.len(),
            m == pat@.len(),
            i + m <= n,
            forall|q: int| 0 <= q < j ==> t@[i + q] == pat@[q],
        decreases m - j,
    {
        j = j + 1;
    }
    if j == m {
        proof {
            assert(t@.subrange(i as int, i + pat@.len()) =~= pat@);
        }
        true
    } else {
        proof {
            assert(t@[i + j] != pat@[j as int]);
            if matches_at(t@, pat@, i as int) {
                assert(t@.subrange(i as int, i + pat@.len())[j as int] == pat@[j as int]);
                assert(false);
            }
        }
        false
    }
}

/// Position of the first occurrence of `pat` in `t`, as `first_match` gives it.
pub fn find_first_match(t: &str, pat: &str) -> (r: Option<usize>)
    ensures
        r matches Some(i) ==> i == first_match(t@, pat@),
        r is None ==> first_match(t@, pat@) < 0,
{
    let n = t.unicode_len();
    let m = pat.unicode_len();
    if m > n {
        proof {
            lemma_first_match(t@, pat@);
            if first_match(t@, pat@) >= 0 {
                assert(matches_at(t@, pat@, first_match(t@, pat@)));
            }
        }
        return None;
    }
    let mut i: usize = 0;
    while i + m < n
        invariant
            m <= n,
            n == t@.len(),
            m == pat@.len(),
            0 <= i,
            i + m <= n,
            forall|q: int| 0 <= q < i ==> !matches_at(t@, pat@, q),
        decreases n - i,
    {
        if check_match_at(t, pat, i) {
            proof {
                lemma_first_match(t@, pat@);
                let fm = first_match(t@, pat@);
                if fm < 0 {
                    assert(!matches_at(t@, pat@, i as int));
                }
                if fm < i {
                    assert(matches_at(t@, pat@, fm));
                }
                if fm > i {
                    assert(!matches_at(t@, pat@, i as int));
                }
            }
            return Some(i);
        }
        i = i + 1;
    }
    if check_match_at(t, pat, i) {
        proof {
            lemma_first_match(t@, pat@);
            let fm = first_match(t@, pat@);
            if fm < 0 {
                assert(!matches_at(t@, pat@, i as int));
            }
            if fm < i {
                assert(matches_at(t@, pat@, fm));
            }
            if fm > i {
                assert(!matches_at(t@, pat@, i as int));
            }
        }
        Some(i)
    } else {
        proof {
            lemma_first_match(t@, pat@);
            let fm = first_match(t@, pat@);
            if fm >= 0 {
                assert(matches_at(t@, pat@, fm));
                assert(fm + pat@.len() <= t@.len());
                if fm < i {
                    assert(!matches_at(t@, pat@, fm));
                }
                assert(false);
            }
        }
        None
    }
}

} // verus!
