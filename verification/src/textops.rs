use vstd::prelude::*;
use vstd::string::*;

use crate::scan::{first_index_of, first_match, matches_at, scan_char, check_match_at,
    find_first_match, lemma_first_match};

verus! {

/// The placeholder that a commit-message template may carry.
pub open spec fn placeholder() -> Seq<char> {
    "{version}"@
}

/// The template with the first occurrence of the placeholder replaced by `v`;
/// the template unchanged when the placeholder does not occur.
pub open spec fn substituted(t: Seq<char>, v: Seq<char>) -> Seq<char> {
    let m = first_match(t, placeholder());
    if m < 0 {
        t
    } else {
        t.take(m) + v + t.skip(m + placeholder().len())
    }
}

/// The commit-message template with its `{version}` placeholder replaced once.
pub fn substitute_version(template: &str, version: &str) -> (r: String)
    ensures
        r@ == substituted(template@, version@),
{
    let pat = "{version}";
    match find_first_match(template, pat) {
        None => template.to_owned(),
        Some(i) => {
            proof {
                lemma_first_match(template@, pat@);
                assert(matches_at(template@, pat@, i as int));
            }
            let n = template.unicode_len();
            let m = pat.unicode_len();
            let mut out = String::from_str(template.substring_char(0, i));
            out.append(version);
            out.append(template.substring_char(i + m, n));
            proof {
                assert(template@.subrange(0, i as int) =~= template@.take(i as int));
                assert(template@.subrange(i + m, n as int) =~= template@.skip(
                    i + placeholder().len(),
                ));
            }
            out
        },
    }
}

/// The tag name: the configured prefix followed by the version.
pub fn make_tag_name(prefix: &str, version: &str) -> (r: String)
    ensures
        r@ == prefix@ + version@,
{
    let mut out = String::from_str(prefix);
    out.append(version);
    out
}

/// `s` without a trailing carriage return.
pub open spec fn strip_cr(s: Seq<char>) -> Seq<char> {
    if s.len() > 0 && s.last() == '\r' {
        s.drop_last()
    } else {
        s
    }
}

/// The lines of `s`: split at each newline, a trailing carriage return
/// stripped from each line, and no final empty line after a trailing newline.
pub open spec fn lines_of(s: Seq<char>) -> Seq<Seq<char>>
    decreases s.len(),
{
    if s.len() == 0 {
        Seq::empty()
    } else {
        let i = first_index_of(s, '\n');
        if 0 <= i && i < s.len() {
            seq![strip_cr(s.take(i))] + lines_of(s.skip(i + 1))
        } else {
            seq![strip_cr(s)]
        }
    }
}

/// Splits command output into its lines, as `lines_of` describes.
pub fn split_lines(s: &str) -> (r: Vec<String>)
    ensures
        r.deep_view() == lines_of(s@),
{
    let n = s.unicode_len();
    let mut out: Vec<String> = Vec::new();
    let mut pos: usize = 0;
    proof {
        assert(s@.subrange(0, n as int) =~= s@);
        assert(out.deep_view() + lines_of(s@) =~= lines_of(s@));
    }
    while pos < n
        invariant
            0 <= pos <= n,
            n == s@.len(),
            lines_of(s@) == out.deep_view() + lines_of(s@.subrange(pos as int, n as int)),
        decreases n - pos,
    {
        let ghost tail = s@.subrange(pos as int, n as int);
        let i = scan_char(s, pos, n, '\n');
        proof {
            assert forall|j: int| 0 <= j < i - pos implies tail[j] != '\n' by {
                assert(tail[j] == s@[pos + j]);
            }
            if i < n {
                assert(tail[i - pos] == s@[i as int]);
            }
            crate::scan::lemma_first_index_of_unique(tail, '\n', i - pos);
        }
        // the segment [pos, i), with a trailing carriage return stripped
        let seg_end = if i > pos && s.get_char(i - 1) == '\r' {
            i - 1
        } else {
            i
        };
        let line = String::from_str(s.substring_char(pos, seg_end));
        let ghost prev_dv = out.deep_view();
        out.push(line);
        proof {
            let seg = tail.take(i - pos);
            assert(seg =~= s@.subrange(pos as int, i as int));
            if i > pos && s@[i - 1] == '\r' {
                assert(seg.last() == s@[i - 1]);
                assert(strip_cr(seg) =~= s@.subrange(pos as int, i - 1));
            } else {
                if seg.len() > 0 {
                    assert(seg.last() == s@[i - 1]);
                }
                assert(strip_cr(seg) =~= seg);
            }
            assert(line@ == strip_cr(seg));
            assert(out.deep_view() =~= prev_dv.push(line@));
            if i == n {
                assert(seg =~= tail);
                assert(lines_of(tail) == seq![strip_cr(tail)]);
                assert(out.deep_view() + lines_of(s@.subrange(n as int, n as int)) =~= lines_of(
                    s@,
                ));
            } else {
                assert(tail.skip(i - pos + 1) =~= s@.subrange(i + 1, n as int));
                assert(lines_of(tail) == seq![strip_cr(seg)] + lines_of(
                    s@.subrange(i + 1, n as int),
                ));
                assert(out.deep_view() + lines_of(s@.subrange(i + 1, n as int)) =~= lines_of(s@));
            }
        }
        if i == n {
            pos = n;
        } else {
            pos = i + 1;
        }
    }
    proof {
        assert(s@.subrange(n as int, n as int) =~= Seq::<char>::empty());
        assert(out.deep_view() + lines_of(Seq::<char>::empty()) =~= out.deep_view());
    }
    out
}

/// The file name of a package manifest.
pub open spec fn manifest_file_name() -> Seq<char> {
    "Cargo.toml"@
}

/// Whether the path names a file called `Cargo.toml`: it either is that name,
/// or ends with it right after a path separator, slash or backslash.
pub open spec fn is_manifest_path(s: Seq<char>) -> bool {
    let name = manifest_file_name();
    &&& s.len() >= name.len()
    &&& s.skip(s.len() - name.len()) == name
    &&& (s.len() == name.len() || s[s.len() - name.len() - 1] == '/' || s[s.len() - name.len()
        - 1] == '\\')
}

/// The subsequence of `paths` that name manifest files, in order.
pub open spec fn manifest_paths_of(paths: Seq<Seq<char>>) -> Seq<Seq<char>>
    decreases paths.len(),
{
    if paths.len() == 0 {
        Seq::empty()
    } else {
        manifest_paths_of(paths.drop_last()) + (if is_manifest_path(paths.last()) {
            seq![paths.last()]
        } else {
            Seq::empty()
        })
    }
}

/// Whether one path names a manifest file.
pub fn path_is_manifest(p: &str) -> (r: bool)
    ensures
        r == is_manifest_path(p@),
{
    let name = "Cargo.toml";
    proof {
        reveal_strlit("Cargo.toml");
    }
    let n = p.unicode_len();
    let m = name.unicode_len();
    if n < m {
        return false;
    }
    let tail_ok = check_match_at(p, name, n - m);
    proof {
        assert(p@.subrange(n - m, n as int) =~= p@.skip(n - m));
    }
    if !tail_ok {
        return false;
    }
    if n == m {
        true
    } else {
        separator_before(p, n - m)
    }
}

/// Whether the character just before position `k` is a path separator.
fn separator_before(p: &str, k: usize) -> (r: bool)
    requires
        1 <= k,
        k <= p@.len(),
    ensures
        r == (p@[k - 1] == '/' || p@[k - 1] == '\\'),
{
    let c = p.get_char(k - 1);
    c == '/' || c == '\\'
}

/// Keeps the paths that name manifest files, in their given order.
pub fn filter_manifest_paths(paths: &Vec<String>) -> (r: Vec<String>)
    ensures
        r.deep_view() == manifest_paths_of(paths.deep_view()),
{
    let mut out: Vec<String> = Vec::new();
    let mut k: usize = 0;
    proof {
        assert(paths.deep_view().take(0) =~= Seq::<Seq<char>>::empty());
        assert(out.deep_view() =~= manifest_paths_of(paths.deep_view().take(0)));
    }
    while k < paths.len()
        invariant
            0 <= k <= paths.len(),
            paths.deep_view().len() == paths@.len(),
            out.deep_view() == manifest_paths_of(paths.deep_view().take(k as int)),
        decreases paths.len() - k,
    {
        let ghost prev_dv = out.deep_view();
        let keep = path_is_manifest(paths[k].as_str());
        if keep {
            out.push(paths[k].clone());
        }
        proof {
            let dv = paths.deep_view();
            assert(dv[k as int] == paths@[k as int]@);
            assert(dv.take(k + 1).drop_last() =~= dv.take(k as int));
            assert(dv.take(k + 1).last() == dv[k as int]);
            if keep {
                assert(out.deep_view() =~= prev_dv.push(dv[k as int]));
                assert(out.deep_view() =~= manifest_paths_of(dv.take(k + 1)));
            } else {
                assert(out.deep_view() + Seq::<Seq<char>>::empty() =~= manifest_paths_of(
                    dv.take(k + 1),
                ));
            }
        }
        k = k + 1;
    }
    proof {
        assert(paths.deep_view().take(paths@.len() as int) =~= paths.deep_view());
    }
    out
}

} // verus!
