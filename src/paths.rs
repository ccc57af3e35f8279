//! The path grammar of the repository: exempt paths, attestation files and
//! builder keys, and the diff lines that name them.

use vstd::prelude::*;
use vstd::string::*;
use crate::text::{
    ends_with, find_char, has_prefix, has_suffix, lemma_next_index_bounds, next_index_of, skip_chars,
    skip_class, slice_text, starts_with,
};

verus! {

pub open spec fn sums_suffix() -> Seq<char> {
    "SHA256SUMS"@
}

pub open spec fn sig_suffix() -> Seq<char> {
    ".asc"@
}

pub open spec fn key_dir() -> Seq<char> {
    "builder-keys/"@
}

pub open spec fn key_suffix() -> Seq<char> {
    ".gpg"@
}

/// Paths exempt from every rule: the readme, the CI configuration files and
/// the contrib directory.
pub open spec fn is_exempt(p: Seq<char>) -> bool {
    has_prefix(p, "README.md"@) || has_prefix(p, ".cirrus.yml"@) || has_prefix(p, "contrib/"@)
        || has_prefix(p, ".github/"@)
}

/// Position of the first slash of `p`, and of the second.
pub open spec fn first_slash(p: Seq<char>) -> int {
    next_index_of(p, 0, '/')
}

pub open spec fn second_slash(p: Seq<char>) -> int {
    next_index_of(p, first_slash(p) + 1, '/')
}

/// `<release>/<builder>/<name>SHA256SUMS`: three non-empty segments without
/// slashes, the last one ending in `SHA256SUMS`.
pub open spec fn is_group_key(p: Seq<char>) -> bool {
    let a = first_slash(p);
    let b = second_slash(p);
    0 < a && a + 1 < b && b < p.len() && next_index_of(p, b + 1, '/') == p.len() && p.len() - (b
        + 1) >= sums_suffix().len() && has_suffix(p, sums_suffix())
}

/// The detached signature of a group: the group key followed by `.asc`.
pub open spec fn is_signature_path(p: Seq<char>) -> bool {
    has_suffix(p, sig_suffix()) && is_group_key(p.subrange(0, p.len() - sig_suffix().len()))
}

/// Either member of an attestation pair.
pub open spec fn is_attestation_path(p: Seq<char>) -> bool {
    is_group_key(p) || is_signature_path(p)
}

/// The group key of an attestation file.
pub open spec fn group_of(p: Seq<char>) -> Seq<char> {
    if is_group_key(p) {
        p
    } else {
        p.subrange(0, p.len() - sig_suffix().len())
    }
}

/// The builder that an attestation group belongs to: its second segment.
pub open spec fn builder_of(g: Seq<char>) -> Seq<char> {
    g.subrange(first_slash(g) + 1, second_slash(g))
}

/// Where the key of the builder of group `g` is kept.
pub open spec fn key_path_of(g: Seq<char>) -> Seq<char> {
    key_dir() + builder_of(g) + key_suffix()
}

/// `builder-keys/<name>.gpg`, with a non-empty name without slashes.
pub open spec fn is_key_path(p: Seq<char>) -> bool {
    has_prefix(p, key_dir()) && has_suffix(p, key_suffix()) && key_dir().len()
        + key_suffix().len() < p.len() && next_index_of(p, key_dir().len() as int, '/') == p.len()
}

/// The status and the path of one diff line: its first two words.
pub open spec fn parse_line(l: Seq<char>) -> Option<(Seq<char>, Seq<char>)> {
    let a = skip_class(l, 0, true);
    let b = skip_class(l, a, false);
    let c = skip_class(l, b, true);
    let d = skip_class(l, c, false);
    if a < b && c < d {
        Some((l.subrange(a, b), l.subrange(c, d)))
    } else {
        None
    }
}

/// The lines of `s` from position `i`: the pieces between newlines, with no
/// empty piece after a final newline.
pub open spec fn lines_from(s: Seq<char>, i: int) -> Seq<Seq<char>>
    decreases s.len() + 1 - i,
    via lines_from_decreases
{
    if i < 0 || i >= s.len() {
        seq![]
    } else {
        let e = next_index_of(s, i, '\n');
        seq![s.subrange(i, e)] + lines_from(s, e + 1)
    }
}

#[via_fn]
proof fn lines_from_decreases(s: Seq<char>, i: int) {
    if 0 <= i < s.len() {
        lemma_next_index_bounds(s, i, '\n');
    }
}

pub open spec fn lines(s: Seq<char>) -> Seq<Seq<char>> {
    lines_from(s, 0)
}

pub fn is_exempt_path(p: &str) -> (r: bool)
    ensures
        r == is_exempt(p@),
{
    starts_with(p, "README.md") || starts_with(p, ".cirrus.yml") || starts_with(p, "contrib/")
        || starts_with(p, ".github/")
}

/// The first and second slash of `p`.
fn slashes(p: &str) -> (r: (usize, usize))
    ensures
        r.0 == first_slash(p@),
        r.1 == second_slash(p@),
        r.0 <= p@.len(),
        r.0 < p@.len() ==> r.0 < r.1 <= p@.len(),
{
    let a = find_char(p, 0, '/');
    if a >= p.unicode_len() {
        proof {
            assert(second_slash(p@) == p@.len());
        }
        return (a, a);
    }
    let b = find_char(p, a + 1, '/');
    (a, b)
}

pub fn is_group_key_path(p: &str) -> (r: bool)
    ensures
        r == is_group_key(p@),
{
    let n = p.unicode_len();
    let (a, b) = slashes(p);
    if !(0 < a && a < n && a + 1 < b && b < n) {
        return false;
    }
    let c = find_char(p, b + 1, '/');
    proof {
        reveal_strlit("SHA256SUMS");
    }
    c == n && n - (b + 1) >= 10 && ends_with(p, "SHA256SUMS")
}

pub fn is_signature(p: &str) -> (r: bool)
    ensures
        r == is_signature_path(p@),
{
    if !ends_with(p, ".asc") {
        return false;
    }
    proof {
        reveal_strlit(".asc");
    }
    let n = p.unicode_len();
    let stem = p.substring_char(0, n - 4);
    is_group_key_path(stem)
}

pub fn is_key(p: &str) -> (r: bool)
    ensures
        r == is_key_path(p@),
{
    proof {
        reveal_strlit("builder-keys/");
        reveal_strlit(".gpg");
    }
    let n = p.unicode_len();
    starts_with(p, "builder-keys/") && ends_with(p, ".gpg") && 17 < n && find_char(p, 13, '/')
        == n
}

/// The builder segment of a group key.
pub fn builder_name(g: &str) -> (r: String)
    requires
        is_group_key(g@),
    ensures
        r@ == builder_of(g@),
{
    let (a, b) = slashes(g);
    slice_text(g, a + 1, b)
}

/// The key path of the builder of group `g`.
pub fn key_path_for(g: &str) -> (r: String)
    requires
        is_group_key(g@),
    ensures
        r@ == key_path_of(g@),
{
    let mut k = String::from_str("builder-keys/");
    let b = builder_name(g);
    k.append(b.as_str());
    k.append(".gpg");
    k
}

/// The first two words of a line.
pub fn parse_diff_line(l: &str) -> (r: Option<(String, String)>)
    ensures
        match r {
            None => parse_line(l@).is_none(),
            Some((s, p)) => parse_line(l@) == Some((s@, p@)),
        },
{
    let a = skip_chars(l, 0, true);
    let b = skip_chars(l, a, false);
    let c = skip_chars(l, b, true);
    let d = skip_chars(l, c, false);
    if a < b && c < d {
        Some((slice_text(l, a, b), slice_text(l, c, d)))
    } else {
        None
    }
}

} // verus!
