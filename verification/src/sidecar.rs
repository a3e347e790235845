//! Finding the bundled ffmpeg next to the application. Only the sidecar
//! folder is searched, never PATH or system installs: a plain `ffmpeg.exe`
//! or `ffmpeg` wins, else the first (in name order) file named like
//! `ffmpeg-<target-triple>[.exe]`.

use vstd::prelude::*;
use crate::encode::{EncodeError, FfmpegEncoder};
use crate::paths::joined_path;
use crate::text::{
    chars_of, has_prefix, lemma_lex_irreflexive, lemma_lex_transitive, lemma_lex_trichotomy,
    lex_less, lex_lt, lower, lowercase_chars, starts_with_chars, string_from,
};

verus! {

/// What the search looks at in a sidecar folder: whether the plain names
/// are regular files there, and the names of its other regular files
/// (those whose names are valid Unicode).
#[derive(Debug)]
pub struct SidecarDir {
    pub dir: std::path::PathBuf,
    pub has_ffmpeg_exe: bool,
    pub has_ffmpeg: bool,
    pub file_names: Vec<String>,
}

/// `s` ends with `p`.
pub open spec fn has_suffix(s: Seq<char>, p: Seq<char>) -> bool {
    p.len() <= s.len() && s.skip(s.len() - p.len()) == p
}

/// A file name that is an ffmpeg built for a target triple: it starts
/// with `ffmpeg-` and either ends with `.exe` or has no dot (ASCII case
/// ignored).
pub open spec fn is_triple_name(name: Seq<char>) -> bool {
    let l = lower(name);
    has_prefix(l, "ffmpeg-"@) && (has_suffix(l, ".exe"@) || !l.contains('.'))
}

/// `n` is the first triple-named file of `names` in name order.
pub open spec fn first_triple(names: Seq<Seq<char>>, n: Seq<char>) -> bool {
    &&& names.contains(n)
    &&& is_triple_name(n)
    &&& forall|m: Seq<char>| names.contains(m) && is_triple_name(m) ==> !lex_lt(m, n)
}

/// The file name the search picks in a folder, if any.
pub open spec fn chosen_name(has_exe: bool, has_plain: bool, names: Seq<Seq<char>>, r: Option<Seq<char>>) -> bool {
    if has_exe {
        r == Some("ffmpeg.exe"@)
    } else if has_plain {
        r == Some("ffmpeg"@)
    } else {
        match r {
            Some(n) => first_triple(names, n),
            None => forall|m: Seq<char>| names.contains(m) ==> !is_triple_name(m),
        }
    }
}

pub open spec fn name_views(v: Seq<String>) -> Seq<Seq<char>> {
    v.map_values(|s: String| s@)
}

fn ends_with_exe(l: &Vec<char>) -> (r: bool)
    ensures
        r == has_suffix(l@, ".exe"@),
{
    let e = chars_of(".exe");
    if l.len() < e.len() {
        return false;
    }
    let start = l.len() - e.len();
    let mut i: usize = 0;
    while i < e.len()
        invariant
            e@ == ".exe"@,
            start + e@.len() == l@.len(),
            l@.len() == l.len(),
            e@.len() == e.len(),
            i <= e@.len(),
            forall|k: int| 0 <= k < i ==> l@[start + k] == e@[k],
        decreases e@.len() - i,
    {
        if l[start + i] != e[i] {
            proof {
                assert(l@.skip(start as int)[i as int] != e@[i as int]);
            }
            return false;
        }
        i = i + 1;
    }
    proof {
        assert(l@.skip(start as int) =~= e@);
    }
    true
}

fn has_dot(l: &Vec<char>) -> (r: bool)
    ensures
        r == l@.contains('.'),
{
    let mut i: usize = 0;
    while i < l.len()
        invariant
            i <= l@.len(),
            forall|k: int| 0 <= k < i ==> l@[k] != '.',
        decreases l@.len() - i,
    {
        if l[i] == '.' {
            proof {
                assert(l@[i as int] == '.');
            }
            return true;
        }
        i = i + 1;
    }
    false
}

/// Whether `name` is named like an ffmpeg for a target triple.
pub fn is_triple_ffmpeg_name(name: &str) -> (r: bool)
    ensures
        r == is_triple_name(name@),
{
    let raw = chars_of(name);
    let l = lowercase_chars(raw.as_slice());
    let prefix = chars_of("ffmpeg-");
    starts_with_chars(l.as_slice(), prefix.as_slice()) && (ends_with_exe(&l) || !has_dot(&l))
}

/// The file name the sidecar search picks in `listing`.
pub fn sidecar_choice(listing: &SidecarDir) -> (r: Option<String>)
    ensures
        chosen_name(
            listing.has_ffmpeg_exe,
            listing.has_ffmpeg,
            name_views(listing.file_names@),
            match r {
                Some(s) => Some(s@),
                None => None,
            },
        ),
{
    if listing.has_ffmpeg_exe {
        return Some(crate::text::owned("ffmpeg.exe"));
    }
    if listing.has_ffmpeg {
        return Some(crate::text::owned("ffmpeg"));
    }
    let names = &listing.file_names;
    let ghost ns = name_views(names@);
    let mut best: Option<usize> = None;
    let mut i: usize = 0;
    while i < names.len()
        invariant
            i <= names@.len(),
            ns == name_views(names@),
            match best {
                Some(b) => b < i && is_triple_name(ns[b as int]) && forall|k: int|
                    0 <= k < i && is_triple_name(#[trigger] ns[k]) ==> !lex_lt(ns[k], ns[b as int]),
                None => forall|k: int| 0 <= k < i ==> !is_triple_name(#[trigger] ns[k]),
            },
        decreases names@.len() - i,
    {
        let cand = names[i].as_str();
        if is_triple_ffmpeg_name(cand) {
            match best {
                None => {
                    proof {
                        lemma_lex_irreflexive(ns[i as int]);
                    }
                    best = Some(i);
                },
                Some(b) => {
                    let cc = chars_of(cand);
                    let bc = chars_of(names[b].as_str());
                    if lex_less(cc.as_slice(), bc.as_slice()) {
                        proof {
                            assert forall|k: int|
                                0 <= k < i + 1 && is_triple_name(#[trigger] ns[k]) implies !lex_lt(
                                ns[k],
                                ns[i as int],
                            ) by {
                                if k < i {
                                    lemma_lex_trichotomy(ns[k], ns[b as int]);
                                    if lex_lt(ns[k], ns[i as int]) {
                                        lemma_lex_transitive(ns[k], ns[i as int], ns[b as int]);
                                    }
                                } else {
                                    lemma_lex_irreflexive(ns[i as int]);
                                }
                            }
                        }
                        best = Some(i);
                    }
                },
            }
        }
        i = i + 1;
    }
    match best {
        None => {
            proof {
                assert forall|m: Seq<char>| ns.contains(m) implies !is_triple_name(m) by {
                    let k = choose|k: int| 0 <= k < ns.len() && ns[k] == m;
                    assert(!is_triple_name(ns[k]));
                }
            }
            None
        },
        Some(b) => {
            let r = names[b].clone();
            proof {
                assert(r@ == ns[b as int]);
                assert forall|m: Seq<char>| ns.contains(m) && is_triple_name(m) implies !lex_lt(
                    m,
                    ns[b as int],
                ) by {
                    let k = choose|k: int| 0 <= k < ns.len() && ns[k] == m;
                    assert(is_triple_name(ns[k]));
                }
            }
            Some(r)
        },
    }
}

/// The binary path the search yields for a folder: the folder joined with
/// the name it picks, or none when it picks none.
pub open spec fn resolved_in(d: SidecarDir, r: Option<std::path::PathBuf>) -> bool {
    let names = name_views(d.file_names@);
    match r {
        Some(p) => exists|n: Seq<char>|
            chosen_name(d.has_ffmpeg_exe, d.has_ffmpeg, names, Some(n)) && p == #[trigger] joined_path(
                d.dir,
                n,
            ),
        None => chosen_name(d.has_ffmpeg_exe, d.has_ffmpeg, names, None),
    }
}

/// The search picks at most one name: a folder has one outcome.
pub proof fn lemma_chosen_name_unique(
    has_exe: bool,
    has_plain: bool,
    names: Seq<Seq<char>>,
    a: Option<Seq<char>>,
    b: Option<Seq<char>>,
)
    requires
        chosen_name(has_exe, has_plain, names, a),
        chosen_name(has_exe, has_plain, names, b),
    ensures
        a == b,
{
    if !has_exe && !has_plain {
        match (a, b) {
            (Some(x), Some(y)) => {
                lemma_lex_trichotomy(x, y);
            },
            (Some(x), None) => {
                assert(names.contains(x) && is_triple_name(x));
            },
            (None, Some(y)) => {
                assert(names.contains(y) && is_triple_name(y));
            },
            (None, None) => {},
        }
    }
}

/// A folder resolves to one binary at most: whatever two searches of the
/// same listing yield is the same path (or none both times).
pub proof fn lemma_resolved_unique(d: SidecarDir, a: Option<std::path::PathBuf>, b: Option<std::path::PathBuf>)
    requires
        resolved_in(d, a),
        resolved_in(d, b),
    ensures
        a == b,
{
    let names = name_views(d.file_names@);
    match (a, b) {
        (Some(p), Some(q)) => {
            let n = choose|n: Seq<char>|
                chosen_name(d.has_ffmpeg_exe, d.has_ffmpeg, names, Some(n)) && p == #[trigger] joined_path(
                    d.dir,
                    n,
                );
            let m = choose|m: Seq<char>|
                chosen_name(d.has_ffmpeg_exe, d.has_ffmpeg, names, Some(m)) && q == #[trigger] joined_path(
                    d.dir,
                    m,
                );
            lemma_chosen_name_unique(d.has_ffmpeg_exe, d.has_ffmpeg, names, Some(n), Some(m));
        },
        (Some(p), None) => {
            let n = choose|n: Seq<char>|
                chosen_name(d.has_ffmpeg_exe, d.has_ffmpeg, names, Some(n)) && p == #[trigger] joined_path(
                    d.dir,
                    n,
                );
            lemma_chosen_name_unique(d.has_ffmpeg_exe, d.has_ffmpeg, names, Some(n), None);
        },
        (None, Some(q)) => {
            let m = choose|m: Seq<char>|
                chosen_name(d.has_ffmpeg_exe, d.has_ffmpeg, names, Some(m)) && q == #[trigger] joined_path(
                    d.dir,
                    m,
                );
            lemma_chosen_name_unique(d.has_ffmpeg_exe, d.has_ffmpeg, names, None, Some(m));
        },
        (None, None) => {},
    }
}

impl FfmpegEncoder {
    /// Resolve only the bundled sidecar — never PATH or system installs:
    /// none without a sidecar folder, else the folder joined with the name
    /// `sidecar_choice` picks, if it picks one.
    pub fn resolve_binary(sidecar_dir: Option<&SidecarDir>) -> (r: Option<std::path::PathBuf>)
        ensures
            match sidecar_dir {
                None => r is None,
                Some(d) => resolved_in(*d, r) && (r is Some) == (d.has_ffmpeg_exe || d.has_ffmpeg
                    || exists|m: Seq<char>| name_views(d.file_names@).contains(m) && is_triple_name(m)),
            },
    {
        match sidecar_dir {
            None => None,
            Some(d) => match sidecar_choice(d) {
                Some(name) => {
                    let p = crate::paths::join_path(&d.dir, name.as_str());
                    assert(chosen_name(d.has_ffmpeg_exe, d.has_ffmpeg, name_views(d.file_names@), Some(name@))
                        && p == joined_path(d.dir, name@));
                    Some(p)
                },
                None => None,
            },
        }
    }

    /// Whether the folder holds a usable bundled ffmpeg.
    pub fn dir_has_ffmpeg(dir: &SidecarDir) -> (r: bool)
        ensures
            r == (dir.has_ffmpeg_exe || dir.has_ffmpeg || exists|m: Seq<char>|
                name_views(dir.file_names@).contains(m) && is_triple_name(m)),
    {
        Self::resolve_binary(Some(dir)).is_some()
    }

    /// The encoder of the bundled ffmpeg, if the sidecar folder has one.
    pub fn discover(sidecar_dir: Option<&SidecarDir>) -> (r: Result<FfmpegEncoder, EncodeError>)
        ensures
            match sidecar_dir {
                None => r matches Err(EncodeError::FfmpegNotFound),
                Some(d) => (r is Ok) == (d.has_ffmpeg_exe || d.has_ffmpeg || exists|m: Seq<char>|
                    name_views(d.file_names@).contains(m) && is_triple_name(m)) && match r {
                    Ok(e) => resolved_in(*d, Some(e.binary)),
                    Err(x) => x is FfmpegNotFound && resolved_in(*d, None),
                },
            },
    {
        match Self::resolve_binary(sidecar_dir) {
            Some(p) => Ok(FfmpegEncoder { binary: p }),
            None => Err(EncodeError::FfmpegNotFound),
        }
    }
}

} // verus!
