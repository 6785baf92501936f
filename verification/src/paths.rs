//! Joining paths held as text, the way the platform's path type joins one
//! path onto another.
//!
//! On Unix a path starting with `/` is absolute and replaces the base;
//! otherwise one `/` separates the two unless the base is empty or already
//! ends with one. On Windows both `\` and `/` separate, `\` is what a join
//! inserts, and a path may start with a prefix: a drive (`C:`), a share
//! (`\\server\share`), a device (`\\.\COM1`) or a verbatim form (`\\?\..`).
//! A joined path with a prefix replaces the base; one that starts with a
//! separator keeps only the base's prefix; and a base that is a bare drive
//! (`C:`) takes the joined path with no separator. A base in verbatim form
//! (`\\?\..`) is joined by the same rules here, whereas std's `PathBuf`
//! also rewrites such a joined path, dropping `.` and `..` components.

use vstd::prelude::*;
use crate::runtime::TargetOs;
use crate::text::{char_range, concat, owned};

verus! {

/// A separator on Windows.
pub open spec fn win_sep(c: char) -> bool {
    c == '/' || c == '\\'
}

/// A separator while reading a prefix: only `\` inside a verbatim prefix.
pub open spec fn prefix_sep(c: char, verbatim: bool) -> bool {
    if verbatim {
        c == '\\'
    } else {
        win_sep(c)
    }
}

/// An ASCII letter (a drive letter).
pub open spec fn ascii_letter(c: char) -> bool {
    ('a' <= c && c <= 'z') || ('A' <= c && c <= 'Z')
}

/// Position of the first separator at or after `from` (the length when
/// there is none).
pub open spec fn next_sep(s: Seq<char>, from: int, verbatim: bool) -> int
    decreases s.len() - from,
{
    if from >= s.len() {
        s.len() as int
    } else if prefix_sep(s[from], verbatim) {
        from
    } else {
        next_sep(s, from + 1, verbatim)
    }
}

/// Character `i` of `s`, with `/` read as `\` among the first eight (the
/// window in which a prefix's leading separators are recognised).
pub open spec fn lead(s: Seq<char>, i: int) -> char {
    if i < 8 && s[i] == '/' {
        '\\'
    } else {
        s[i]
    }
}

/// The kinds of prefix a join tells apart.
#[derive(Debug, Clone, Copy, PartialEq, Eq, Structural)]
pub enum PrefixKind {
    /// A drive letter and colon: `C:`.
    Disk,
    /// Any `\\?\` form.
    Verbatim,
    /// A share (`\\server\share`) or a device (`\\.\name`).
    Other,
}

/// The Windows prefix `s` starts with: its length and kind.
pub open spec fn win_prefix(s: Seq<char>) -> Option<(int, PrefixKind)> {
    if s.len() >= 2 && lead(s, 0) == '\\' && lead(s, 1) == '\\' {
        if s.len() >= 4 && s[2] == '?' && lead(s, 3) == '\\' && s[0] != '/' && s[1] != '/' && s[3] != '/' {
            if s.len() >= 8 && s[4] == 'U' && s[5] == 'N' && s[6] == 'C' && lead(s, 7) == '\\' {
                let e1 = next_sep(s, 8, true);
                if e1 < s.len() && next_sep(s, e1 + 1, true) > e1 + 1 {
                    Some((next_sep(s, e1 + 1, true), PrefixKind::Verbatim))
                } else {
                    Some((e1, PrefixKind::Verbatim))
                }
            } else if s.len() >= 6 && s[5] == ':' && ascii_letter(s[4]) && (s.len() == 6 || win_sep(s[6])) {
                Some((6, PrefixKind::Verbatim))
            } else {
                Some((next_sep(s, 4, true), PrefixKind::Verbatim))
            }
        } else if s.len() >= 4 && s[2] == '.' && lead(s, 3) == '\\' {
            Some((next_sep(s, 4, false), PrefixKind::Other))
        } else {
            let e1 = next_sep(s, 2, false);
            if e1 > 2 && e1 < s.len() && next_sep(s, e1 + 1, false) > e1 + 1 {
                Some((next_sep(s, e1 + 1, false), PrefixKind::Other))
            } else {
                None
            }
        }
    } else if s.len() >= 2 && s[1] == ':' && ascii_letter(s[0]) {
        Some((2, PrefixKind::Disk))
    } else {
        None
    }
}

/// Length of the Windows prefix of `s` (0 when it has none).
pub open spec fn prefix_len(s: Seq<char>) -> int {
    match win_prefix(s) {
        Some((n, _)) => n,
        None => 0,
    }
}

/// `rel` joined onto `base` on Unix.
pub open spec fn unix_join(base: Seq<char>, rel: Seq<char>) -> Seq<char> {
    if rel.len() > 0 && rel[0] == '/' {
        rel
    } else if base.len() == 0 || base.last() == '/' {
        base + rel
    } else {
        base + "/"@ + rel
    }
}

/// `rel` joined onto `base` on Windows.
pub open spec fn win_join(base: Seq<char>, rel: Seq<char>) -> Seq<char> {
    if win_prefix(rel) is Some {
        rel
    } else if rel.len() > 0 && win_sep(rel[0]) {
        base.subrange(0, prefix_len(base)) + rel
    } else if base.len() > 0 && !win_sep(base.last()) && win_prefix(base) != Some((base.len() as int, PrefixKind::Disk)) {
        base + "\\"@ + rel
    } else {
        base + rel
    }
}

/// `rel` joined onto `base` on platform `os`.
pub open spec fn join_spec(os: TargetOs, base: Seq<char>, rel: Seq<char>) -> Seq<char> {
    match os {
        TargetOs::Windows => win_join(base, rel),
        _ => unix_join(base, rel),
    }
}

/// Position of the first separator of `s` at or after `from` (see
/// [`next_sep`]).
fn find_sep(s: &str, from: usize, verbatim: bool) -> (r: usize)
    requires
        from <= s@.len(),
    ensures
        r as int == next_sep(s@, from as int, verbatim),
{
    let n = s.unicode_len();
    let mut i = from;
    while i < n
        invariant
            n == s@.len(),
            from <= i <= n,
            next_sep(s@, from as int, verbatim) == next_sep(s@, i as int, verbatim),
        decreases n - i,
    {
        let c = s.get_char(i);
        let is_sep = if verbatim { c == '\\' } else { c == '/' || c == '\\' };
        if is_sep {
            return i;
        }
        i = i + 1;
    }
    i
}

/// Character `i` of `s` as [`lead`] reads it.
fn lead_char(s: &str, i: usize) -> (c: char)
    requires
        i < s@.len(),
    ensures
        c == lead(s@, i as int),
{
    let c = s.get_char(i);
    if i < 8 && c == '/' {
        '\\'
    } else {
        c
    }
}

/// Whether `c` is an ASCII letter.
fn is_letter(c: char) -> (r: bool)
    ensures
        r == ascii_letter(c),
{
    ('a' <= c && c <= 'z') || ('A' <= c && c <= 'Z')
}

/// The Windows prefix `s` starts with (see [`win_prefix`]).
pub fn windows_prefix(s: &str) -> (r: Option<(usize, PrefixKind)>)
    ensures
        match r {
            Some((n, k)) => win_prefix(s@) == Some((n as int, k)),
            None => win_prefix(s@) is None,
        },
{
    let n = s.unicode_len();
    if n >= 2 && lead_char(s, 0) == '\\' && lead_char(s, 1) == '\\' {
        if n >= 4 && s.get_char(2) == '?' && lead_char(s, 3) == '\\' && s.get_char(0) != '/' && s.get_char(1) != '/'
            && s.get_char(3) != '/' {
            if n >= 8 && s.get_char(4) == 'U' && s.get_char(5) == 'N' && s.get_char(6) == 'C' && lead_char(s, 7) == '\\' {
                let e1 = find_sep(s, 8, true);
                if e1 < n {
                    let e2 = find_sep(s, e1 + 1, true);
                    if e2 > e1 + 1 {
                        return Some((e2, PrefixKind::Verbatim));
                    }
                }
                Some((e1, PrefixKind::Verbatim))
            } else if n >= 6 && s.get_char(5) == ':' && is_letter(s.get_char(4)) && (n == 6 || s.get_char(6) == '/'
                || s.get_char(6) == '\\') {
                Some((6, PrefixKind::Verbatim))
            } else {
                Some((find_sep(s, 4, true), PrefixKind::Verbatim))
            }
        } else if n >= 4 && s.get_char(2) == '.' && lead_char(s, 3) == '\\' {
            Some((find_sep(s, 4, false), PrefixKind::Other))
        } else {
            let e1 = find_sep(s, 2, false);
            if e1 > 2 && e1 < n {
                let e2 = find_sep(s, e1 + 1, false);
                if e2 > e1 + 1 {
                    return Some((e2, PrefixKind::Other));
                }
            }
            None
        }
    } else if n >= 2 && s.get_char(1) == ':' && is_letter(s.get_char(0)) {
        Some((2, PrefixKind::Disk))
    } else {
        None
    }
}

/// `rel` joined onto `base` on platform `os` (see [`join_spec`]).
pub fn path_join(os: TargetOs, base: &str, rel: &str) -> (r: String)
    ensures
        r@ == join_spec(os, base@, rel@),
{
    proof {
        reveal_strlit("/");
        reveal_strlit("\\");
    }
    let n = base.unicode_len();
    let m = rel.unicode_len();
    match os {
        TargetOs::Windows => {
            if windows_prefix(rel).is_some() {
                return owned(rel);
            }
            if m > 0 && (rel.get_char(0) == '/' || rel.get_char(0) == '\\') {
                let k = match windows_prefix(base) {
                    Some((k, _)) => k,
                    None => 0,
                };
                proof {
                    if let Some((kk, _)) = win_prefix(base@) {
                        assert(kk <= base@.len()) by {
                            lemma_prefix_len_bound(base@);
                        }
                    }
                }
                let head = char_range(base, 0, k);
                return concat(head.as_str(), rel);
            }
            let bare_drive = match windows_prefix(base) {
                Some((k, PrefixKind::Disk)) => k == n,
                _ => false,
            };
            if n > 0 && base.get_char(n - 1) != '/' && base.get_char(n - 1) != '\\' && !bare_drive {
                let mut r = concat(base, "\\");
                r.append(rel);
                r
            } else {
                concat(base, rel)
            }
        },
        _ => {
            if m > 0 && rel.get_char(0) == '/' {
                return owned(rel);
            }
            if n == 0 || base.get_char(n - 1) == '/' {
                concat(base, rel)
            } else {
                let mut r = concat(base, "/");
                r.append(rel);
                r
            }
        },
    }
}

/// A separator search stays within the text.
proof fn lemma_next_sep_bound(s: Seq<char>, from: int, verbatim: bool)
    requires
        0 <= from,
    ensures
        from <= s.len() ==> from <= next_sep(s, from, verbatim) <= s.len(),
        from > s.len() ==> next_sep(s, from, verbatim) == s.len(),
    decreases s.len() - from,
{
    if from < s.len() && !prefix_sep(s[from], verbatim) {
        lemma_next_sep_bound(s, from + 1, verbatim);
    }
}

/// A prefix is no longer than the text it starts.
pub proof fn lemma_prefix_len_bound(s: Seq<char>)
    ensures
        0 <= prefix_len(s) <= s.len(),
{
    lemma_next_sep_bound(s, 2, false);
    lemma_next_sep_bound(s, 4, false);
    lemma_next_sep_bound(s, 4, true);
    lemma_next_sep_bound(s, 8, true);
    let e1 = next_sep(s, 8, true);
    if 8 <= e1 < s.len() {
        lemma_next_sep_bound(s, e1 + 1, true);
    }
    let f1 = next_sep(s, 2, false);
    if 2 <= f1 < s.len() {
        lemma_next_sep_bound(s, f1 + 1, false);
    }
}

} // verus!
