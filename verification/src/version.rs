use vstd::prelude::*;

use crate::scan::{first_index_of, scan_char, lemma_first_index_of_unique};

verus! {

/// A decimal digit.
pub open spec fn is_digit_char(c: char) -> bool {
    '0' <= c && c <= '9'
}

/// A character allowed in a pre-release or build-metadata part: a letter, a
/// digit or a dot.
pub open spec fn is_meta_char(c: char) -> bool {
    is_digit_char(c) || ('a' <= c && c <= 'z') || ('A' <= c && c <= 'Z') || c == '.'
}

/// One or more digits.
pub open spec fn is_number_part(s: Seq<char>) -> bool {
    s.len() > 0 && forall|i: int| 0 <= i < s.len() ==> is_digit_char(#[trigger] s[i])
}

/// One or more letters, digits or dots.
pub open spec fn is_meta_part(s: Seq<char>) -> bool {
    s.len() > 0 && forall|i: int| 0 <= i < s.len() ==> is_meta_char(#[trigger] s[i])
}

/// `major.minor.patch`: three numbers separated by dots.
pub open spec fn is_core_part(s: Seq<char>) -> bool {
    let i = first_index_of(s, '.');
    let rest = s.skip(i + 1);
    let j = first_index_of(rest, '.');
    &&& i < s.len()
    &&& is_number_part(s.take(i))
    &&& j < rest.len()
    &&& is_number_part(rest.take(j))
    &&& is_number_part(rest.skip(j + 1))
}

/// The accepted version grammar: a dotted numeric core, then an optional
/// pre-release part after `-` and an optional build-metadata part after `+`,
/// each made of letters, digits and dots.
pub open spec fn is_valid_version(s: Seq<char>) -> bool {
    let b = first_index_of(s, '+');
    let head = s.take(b);
    let p = first_index_of(head, '-');
    &&& is_core_part(head.take(p))
    &&& (p < head.len() ==> is_meta_part(head.skip(p + 1)))
    &&& (b < s.len() ==> is_meta_part(s.skip(b + 1)))
}

/// Whether every character in `s[lo..hi)` is a digit, with at least one.
fn check_number(s: &str, lo: usize, hi: usize) -> (r: bool)
    requires
        lo <= hi,
        hi <= s@.len(),
    ensures
        r == is_number_part(s@.subrange(lo as int, hi as int)),
{
    if lo == hi {
        proof {
            assert(s@.subrange(lo as int, hi as int).len() == 0);
        }
        return false;
    }
    let mut k: usize = lo;
    while k < hi
        invariant
            lo <= k <= hi,
            hi <= s@.len(),
            forall|j: int| lo <= j < k ==> is_digit_char(#[trigger] s@[j]),
        decreases hi - k,
    {
        let c = s.get_char(k);
        if !('0' <= c && c <= '9') {
            proof {
                assert(s@.subrange(lo as int, hi as int)[k - lo] == s@[k as int]);
            }
            return false;
        }
        k = k + 1;
    }
    proof {
        let sub = s@.subrange(lo as int, hi as int);
        assert forall|j: int| 0 <= j < sub.len() implies is_digit_char(#[trigger] sub[j]) by {
            assert(sub[j] == s@[lo + j]);
        }
    }
    true
}

/// Whether every character in `s[lo..hi)` is a letter, digit or dot, with at
/// least one.
fn check_meta(s: &str, lo: usize, hi: usize) -> (r: bool)
    requires
        lo <= hi,
        hi <= s@.len(),
    ensures
        r == is_meta_part(s@.subrange(lo as int, hi as int)),
{
    if lo == hi {
        proof {
            assert(s@.subrange(lo as int, hi as int).len() == 0);
        }
        return false;
    }
    let mut k: usize = lo;
    while k < hi
        invariant
            lo <= k <= hi,
            hi <= s@.len(),
            forall|j: int| lo <= j < k ==> is_meta_char(#[trigger] s@[j]),
        decreases hi - k,
    {
        let c = s.get_char(k);
        let ok = ('0' <= c && c <= '9') || ('a' <= c && c <= 'z') || ('A' <= c && c <= 'Z') || c
            == '.';
        if !ok {
            proof {
                assert(s@.subrange(lo as int, hi as int)[k - lo] == s@[k as int]);
            }
            return false;
        }
        k = k + 1;
    }
    proof {
        let sub = s@.subrange(lo as int, hi as int);
        assert forall|j: int| 0 <= j < sub.len() implies is_meta_char(#[trigger] sub[j]) by {
            assert(sub[j] == s@[lo + j]);
        }
    }
    true
}

/// Whether `s[lo..hi)` is a dotted numeric core `major.minor.patch`.
fn check_core(s: &str, lo: usize, hi: usize) -> (r: bool)
    requires
        lo <= hi,
        hi <= s@.len(),
    ensures
        r == is_core_part(s@.subrange(lo as int, hi as int)),
{
    let ghost core = s@.subrange(lo as int, hi as int);
    let i = scan_char(s, lo, hi, '.');
    proof {
        assert forall|j: int| 0 <= j < i - lo implies core[j] != '.' by {
            assert(core[j] == s@[lo + j]);
        }
        if i < hi {
            assert(core[i - lo] == s@[i as int]);
        }
        lemma_first_index_of_unique(core, '.', i - lo);
    }
    if i == hi {
        return false;
    }
    let ghost rest = core.skip(i - lo + 1);
    proof {
        assert(rest =~= s@.subrange(i + 1, hi as int));
    }
    let j = scan_char(s, i + 1, hi, '.');
    proof {
        assert forall|q: int| 0 <= q < j - (i + 1) implies rest[q] != '.' by {
            assert(rest[q] == s@[i + 1 + q]);
        }
        if j < hi {
            assert(rest[j - (i + 1)] == s@[j as int]);
        }
        lemma_first_index_of_unique(rest, '.', j - (i + 1));
    }
    if j == hi {
        return false;
    }
    let a = check_number(s, lo, i);
    let b = check_number(s, i + 1, j);
    let c = check_number(s, j + 1, hi);
    proof {
        assert(core.take(i - lo) =~= s@.subrange(lo as int, i as int));
        assert(rest.take(j - (i + 1)) =~= s@.subrange(i + 1, j as int));
        assert(rest.skip(j - (i + 1) + 1) =~= s@.subrange(j + 1, hi as int));
    }
    a && b && c
}

/// Whether `s` matches the accepted version grammar.
pub fn is_valid_version_str(s: &str) -> (r: bool)
    ensures
        r == is_valid_version(s@),
{
    let n = s.unicode_len();
    let b = scan_char(s, 0, n, '+');
    proof {
        assert(s@.subrange(0, n as int) =~= s@);
    }
    let ghost head = s@.take(b as int);
    let p = scan_char(s, 0, b, '-');
    proof {
        assert(head =~= s@.subrange(0, b as int));
        assert forall|j: int| 0 <= j < p implies head[j] != '-' by {
            assert(head[j] == s@[j]);
        }
        if p < b {
            assert(head[p as int] == s@[p as int]);
        }
        lemma_first_index_of_unique(head, '-', p as int);
    }
    let core_ok = check_core(s, 0, p);
    proof {
        assert(head.take(p as int) =~= s@.subrange(0, p as int));
    }
    let pre_ok = if p < b {
        let m = check_meta(s, p + 1, b);
        proof {
            assert(head.skip(p + 1) =~= s@.subrange(p + 1, b as int));
        }
        m
    } else {
        true
    };
    let build_ok = if b < n {
        let m = check_meta(s, b + 1, n);
        proof {
            assert(s@.skip(b + 1) =~= s@.subrange(b + 1, n as int));
        }
        m
    } else {
        true
    };
    core_ok && pre_ok && build_ok
}

} // verus!
