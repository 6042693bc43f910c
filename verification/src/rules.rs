//! Per-package platform rules: the built-in default pattern table and
//! the rule compiler that merges configuration overrides onto it.
//!
//! A rule table maps each platform to an ordered, non-empty list of
//! pattern texts. An override is one of four shapes: the sentinel
//! `"null"` (disable the platform), a prepend form (a string ending in
//! the marker `"..."`; the text before the marker is prepended to each
//! default pattern, separated by an unconstrained wildcard `.*` — the
//! chosen default for the underspecified anchoring), a plain string
//! (replace the platform's list with that one pattern), or a list
//! (replace the list wholesale; an empty list disables the platform).

use vstd::prelude::*;

use crate::errors::ConfigError;
use crate::pattern::{regex_valid, Pattern};
use crate::platform::Platform;

verus! {

/// The views of a list of pattern-source strings.
pub open spec fn strings_view(v: Seq<String>) -> Seq<Seq<char>> {
    v.map_values(|s: String| s@)
}

/// The view of a platform/pattern-source table.
pub open spec fn table_view(t: Seq<(Platform, Vec<String>)>) -> Seq<(Platform, Seq<Seq<char>>)> {
    t.map_values(|e: (Platform, Vec<String>)| (e.0, strings_view(e.1@)))
}

/// `t` has an entry for `p`.
pub open spec fn tbl_contains(t: Seq<(Platform, Seq<Seq<char>>)>, p: Platform) -> bool {
    exists|i: int| 0 <= i < t.len() && t[i].0 == p
}

/// The pattern list of the first entry for `p`, if any.
pub open spec fn tbl_get(t: Seq<(Platform, Seq<Seq<char>>)>, p: Platform) -> Option<
    Seq<Seq<char>>,
>
    decreases t.len(),
{
    if t.len() == 0 {
        None
    } else {
        match tbl_get(t.drop_last(), p) {
            Some(v) => Some(v),
            None => if t.last().0 == p {
                Some(t.last().1)
            } else {
                None
            },
        }
    }
}

/// `t` without any entry for `p`, order otherwise preserved.
pub open spec fn tbl_remove(t: Seq<(Platform, Seq<Seq<char>>)>, p: Platform) -> Seq<
    (Platform, Seq<Seq<char>>),
>
    decreases t.len(),
{
    if t.len() == 0 {
        Seq::empty()
    } else {
        let rest = tbl_remove(t.drop_last(), p);
        if t.last().0 == p {
            rest
        } else {
            rest.push(t.last())
        }
    }
}

/// `t` with the pattern list of every entry for `p` replaced by `v`.
pub open spec fn tbl_replace(
    t: Seq<(Platform, Seq<Seq<char>>)>,
    p: Platform,
    v: Seq<Seq<char>>,
) -> Seq<(Platform, Seq<Seq<char>>)>
    decreases t.len(),
{
    if t.len() == 0 {
        Seq::empty()
    } else {
        tbl_replace(t.drop_last(), p, v).push(
            if t.last().0 == p {
                (p, v)
            } else {
                t.last()
            },
        )
    }
}

/// `t` with the entry for `p` set to `v`: replaced in place when
/// present, appended otherwise.
pub open spec fn tbl_set(
    t: Seq<(Platform, Seq<Seq<char>>)>,
    p: Platform,
    v: Seq<Seq<char>>,
) -> Seq<(Platform, Seq<Seq<char>>)> {
    if tbl_contains(t, p) {
        tbl_replace(t, p, v)
    } else {
        t.push((p, v))
    }
}

/// No two entries share a platform.
pub open spec fn tbl_distinct(t: Seq<(Platform, Seq<Seq<char>>)>) -> bool {
    forall|i: int, j: int| 0 <= i < j < t.len() ==> t[i].0 != t[j].0
}

/// Every entry's pattern list is non-empty.
pub open spec fn tbl_nonempty(t: Seq<(Platform, Seq<Seq<char>>)>) -> bool {
    forall|i: int| 0 <= i < t.len() ==> t[i].1.len() > 0
}

/// A well-formed rule table: distinct platforms, non-empty lists.
pub open spec fn tbl_wf(t: Seq<(Platform, Seq<Seq<char>>)>) -> bool {
    tbl_distinct(t) && tbl_nonempty(t)
}

pub proof fn lemma_tbl_get_char(t: Seq<(Platform, Seq<Seq<char>>)>, p: Platform)
    ensures
        tbl_get(t, p) is Some <==> tbl_contains(t, p),
        tbl_get(t, p) matches Some(v) ==> exists|i: int|
            0 <= i < t.len() && t[i].0 == p && t[i].1 == v,
    decreases t.len(),
{
    if t.len() == 0 {
    } else {
        lemma_tbl_get_char(t.drop_last(), p);
        if tbl_contains(t, p) {
            let i = choose|i: int| 0 <= i < t.len() && t[i].0 == p;
            if i < t.len() - 1 {
                assert(t.drop_last()[i].0 == p);
                assert(tbl_contains(t.drop_last(), p));
            }
        }
        if tbl_get(t.drop_last(), p) is Some {
            let i = choose|i: int|
                0 <= i < t.drop_last().len() && t.drop_last()[i].0 == p && t.drop_last()[i].1
                    == tbl_get(t.drop_last(), p)->0;
            assert(t[i] == t.drop_last()[i]);
        }
    }
}

pub proof fn lemma_tbl_remove_props(t: Seq<(Platform, Seq<Seq<char>>)>, p: Platform)
    ensures
        forall|q: Platform| #[trigger]
            tbl_contains(tbl_remove(t, p), q) <==> (q != p && tbl_contains(t, q)),
        forall|q: Platform|
            q != p ==> #[trigger] tbl_get(tbl_remove(t, p), q) == tbl_get(t, q),
        tbl_get(tbl_remove(t, p), p) is None,
        tbl_distinct(t) ==> tbl_distinct(tbl_remove(t, p)),
        tbl_nonempty(t) ==> tbl_nonempty(tbl_remove(t, p)),
    decreases t.len(),
{
    if t.len() == 0 {
    } else {
        let dl = t.drop_last();
        lemma_tbl_remove_props(dl, p);
        let rest = tbl_remove(dl, p);
        // membership in t extends membership in dl
        assert forall|q: Platform| tbl_contains(dl, q) implies tbl_contains(t, q) by {
            let i = choose|i: int| 0 <= i < dl.len() && dl[i].0 == q;
            assert(t[i].0 == q);
        }
        if t.last().0 == p {
            assert forall|q: Platform| q != p && #[trigger] tbl_contains(t, q) implies tbl_contains(
                dl,
                q,
            ) by {
                let i = choose|i: int| 0 <= i < t.len() && t[i].0 == q;
                assert(dl[i].0 == q);
            }
        } else {
            let out = rest.push(t.last());
            assert(out.drop_last() =~= rest);
            assert forall|q: Platform| #[trigger]
                tbl_contains(out, q) implies (q != p && tbl_contains(t, q)) by {
                let i = choose|i: int| 0 <= i < out.len() && out[i].0 == q;
                if i < out.len() - 1 {
                    assert(tbl_contains(rest, q));
                } else {
                    assert(t[t.len() - 1].0 == q);
                }
            }
            assert forall|q: Platform| q != p && #[trigger] tbl_contains(t, q) implies tbl_contains(
                out,
                q,
            ) by {
                let i = choose|i: int| 0 <= i < t.len() && t[i].0 == q;
                if i < t.len() - 1 {
                    assert(dl[i].0 == q);
                    assert(tbl_contains(dl, q));
                    assert(tbl_contains(rest, q));
                    let j = choose|j: int| 0 <= j < rest.len() && rest[j].0 == q;
                    assert(out[j].0 == q);
                } else {
                    assert(out[out.len() - 1].0 == q);
                }
            }
            if tbl_distinct(t) {
                assert forall|i: int, j: int|
                    0 <= i < j < out.len() implies out[i].0 != out[j].0 by {
                    if j == out.len() - 1 {
                        assert(tbl_contains(rest, out[i].0));
                        let k = choose|k: int| 0 <= k < dl.len() && dl[k].0 == out[i].0;
                        assert(t[k].0 == out[i].0);
                        assert(t[k].0 != t[t.len() - 1].0);
                    }
                }
            }
            if tbl_nonempty(t) {
                assert forall|i: int| 0 <= i < out.len() implies out[i].1.len() > 0 by {
                    if i < out.len() - 1 {
                        assert(rest[i].1.len() > 0);
                    }
                }
            }
        }
    }
}

pub proof fn lemma_tbl_replace_pointwise(
    t: Seq<(Platform, Seq<Seq<char>>)>,
    p: Platform,
    v: Seq<Seq<char>>,
)
    ensures
        tbl_replace(t, p, v).len() == t.len(),
        forall|i: int| 0 <= i < t.len() ==> #[trigger] tbl_replace(t, p, v)[i] == (if t[i].0 == p {
            (p, v)
        } else {
            t[i]
        }),
    decreases t.len(),
{
    if t.len() == 0 {
    } else {
        lemma_tbl_replace_pointwise(t.drop_last(), p, v);
    }
}

pub proof fn lemma_tbl_replace_get(
    t: Seq<(Platform, Seq<Seq<char>>)>,
    p: Platform,
    v: Seq<Seq<char>>,
    q: Platform,
)
    ensures
        tbl_get(tbl_replace(t, p, v), q) == (match tbl_get(t, q) {
            None => None::<Seq<Seq<char>>>,
            Some(old) => if q == p {
                Some(v)
            } else {
                Some(old)
            },
        }),
    decreases t.len(),
{
    if t.len() == 0 {
    } else {
        lemma_tbl_replace_get(t.drop_last(), p, v, q);
        lemma_tbl_replace_pointwise(t.drop_last(), p, v);
        lemma_tbl_replace_pointwise(t, p, v);
        assert(tbl_replace(t, p, v).drop_last() =~= tbl_replace(t.drop_last(), p, v));
    }
}

pub proof fn lemma_tbl_set_props(
    t: Seq<(Platform, Seq<Seq<char>>)>,
    p: Platform,
    v: Seq<Seq<char>>,
)
    ensures
        tbl_get(tbl_set(t, p, v), p) == Some(v),
        forall|q: Platform|
            q != p ==> #[trigger] tbl_get(tbl_set(t, p, v), q) == tbl_get(t, q),
        forall|q: Platform| #[trigger]
            tbl_contains(tbl_set(t, p, v), q) <==> (q == p || tbl_contains(t, q)),
        tbl_distinct(t) ==> tbl_distinct(tbl_set(t, p, v)),
        tbl_nonempty(t) && v.len() > 0 ==> tbl_nonempty(tbl_set(t, p, v)),
{
    lemma_tbl_get_char(t, p);
    if tbl_contains(t, p) {
        let out = tbl_replace(t, p, v);
        lemma_tbl_replace_pointwise(t, p, v);
        lemma_tbl_replace_get(t, p, v, p);
        assert forall|q: Platform| q != p implies #[trigger] tbl_get(out, q) == tbl_get(t, q) by {
            lemma_tbl_replace_get(t, p, v, q);
        }
        assert forall|q: Platform| #[trigger]
            tbl_contains(out, q) <==> (q == p || tbl_contains(t, q)) by {
            if tbl_contains(out, q) {
                let i = choose|i: int| 0 <= i < out.len() && out[i].0 == q;
                assert(out[i] == if t[i].0 == p {
                    (p, v)
                } else {
                    t[i]
                });
                if q != p {
                    assert(t[i].0 == q);
                }
            }
            if q == p {
                let i = choose|i: int| 0 <= i < t.len() && t[i].0 == p;
                assert(out[i].0 == p);
            } else if tbl_contains(t, q) {
                let i = choose|i: int| 0 <= i < t.len() && t[i].0 == q;
                assert(out[i].0 == q);
            }
        }
    } else {
        let out = t.push((p, v));
        assert(out.drop_last() =~= t);
        assert(tbl_get(out, p) == Some(v));
        assert forall|q: Platform| #[trigger]
            tbl_contains(out, q) <==> (q == p || tbl_contains(t, q)) by {
            if tbl_contains(out, q) && q != p {
                let i = choose|i: int| 0 <= i < out.len() && out[i].0 == q;
                assert(t[i].0 == q);
            }
            if tbl_contains(t, q) {
                let i = choose|i: int| 0 <= i < t.len() && t[i].0 == q;
                assert(out[i].0 == q);
            }
        }
        if tbl_distinct(t) {
            assert forall|i: int, j: int| 0 <= i < j < out.len() implies out[i].0 != out[j].0 by {
                if j == out.len() - 1 {
                    assert(out[i].0 == t[i].0);
                    if out[i].0 == p {
                        assert(tbl_contains(t, p));
                    }
                }
            }
        }
    }
}

/// The built-in default pattern table: for each known platform, an
/// ordered list of regular-expression texts matching common release
/// asset naming conventions — triple-style target strings, short
/// OS/arch aliases in either order, and optional compression suffixes.
/// More specific patterns (musl builds, architecture-qualified names)
/// come before more general ones.
pub open spec fn spec_default_platforms() -> Seq<(Platform, Seq<Seq<char>>)> {
    seq![
        (
            Platform::Linux32,
            seq![
                "(^|[\\._-])i686-(unknown-)?linux-musl(\\.gz|\\.xz|\\.zst|\\.tar\\.gz|\\.tar\\.xz|\\.tgz|\\.txz|\\.zip)?$"@,
                "(^|[\\._-])i686-(unknown-)?linux(-gnu)?(\\.gz|\\.xz|\\.zst|\\.tar\\.gz|\\.tar\\.xz|\\.tgz|\\.txz|\\.zip)?$"@,
                "(^|[\\._-])linux[\\._-](i686|x86)(-unknown)?(-gnu|-musl)?(\\.gz|\\.xz|\\.zst|\\.tar\\.gz|\\.tar\\.xz|\\.tgz|\\.txz|\\.zip)?$"@,
                "(^|[\\._-])linux32(-unknown)?(-gnu|-musl)?(\\.gz|\\.xz|\\.zst|\\.tar\\.gz|\\.tar\\.xz|\\.tgz|\\.txz|\\.zip)?$"@,
            ],
        ),
        (
            Platform::Linux64,
            seq![
                "(^|[\\._-])(x86_64|amd64|x64)-(unknown-)?linux-musl(\\.gz|\\.xz|\\.zst|\\.tar\\.gz|\\.tar\\.xz|\\.tgz|\\.txz|\\.zip)?$"@,
                "(^|[\\._-])(x86_64|amd64|x64)-(unknown-)?linux(-gnu)?(\\.gz|\\.xz|\\.zst|\\.tar\\.gz|\\.tar\\.xz|\\.tgz|\\.txz|\\.zip)?$"@,
                "(^|[\\._-])linux[\\._-](x86_64|amd64|x64)(-unknown)?(-gnu|-musl)?(\\.gz|\\.xz|\\.zst|\\.tar\\.gz|\\.tar\\.xz|\\.tgz|\\.txz|\\.zip)?$"@,
                "(^|[\\._-])linux64(-unknown)?(-gnu|-musl)?(\\.gz|\\.xz|\\.zst|\\.tar\\.gz|\\.tar\\.xz|\\.tgz|\\.txz|\\.zip)?$"@,
            ],
        ),
        (
            Platform::LinuxAarch64,
            seq![
                "(^|[\\._-])(arm64|aarch64)-(unknown-)?linux-musl(\\.gz|\\.xz|\\.zst|\\.tar\\.gz|\\.tar\\.xz|\\.tgz|\\.txz|\\.zip)?$"@,
                "(^|[\\._-])(arm64|aarch64)-(unknown-)?linux(-gnu)?(\\.gz|\\.xz|\\.zst|\\.tar\\.gz|\\.tar\\.xz|\\.tgz|\\.txz|\\.zip)?$"@,
                "(^|[\\._-])linux[\\._-](arm64|aarch64)(-unknown)?(-gnu|-musl)?(\\.gz|\\.xz|\\.zst|\\.tar\\.gz|\\.tar\\.xz|\\.tgz|\\.txz|\\.zip)?$"@,
            ],
        ),
        (
            Platform::Osx64,
            seq![
                "(^|[\\._-])(amd64|x86_64|x64)-(apple-)?(darwin|macos)(\\.gz|\\.xz|\\.zst|\\.tar\\.gz|\\.tar\\.xz|\\.tgz|\\.txz|\\.zip)?$"@,
                "(^|[\\._-])(darwin|macos)[\\._-](amd64|x86_64|x64)(\\.gz|\\.xz|\\.zst|\\.tar\\.gz|\\.tar\\.xz|\\.tgz|\\.txz|\\.zip)?$"@,
                "(^|[\\._-])macos(\\.gz|\\.xz|\\.zst|\\.tar\\.gz|\\.tar\\.xz|\\.tgz|\\.txz|\\.zip)?$"@,
            ],
        ),
        (
            Platform::OsxArm64,
            seq![
                "(^|[\\._-])(arm64|aarch64)-(apple-)?(darwin|macos)(\\.gz|\\.xz|\\.zst|\\.tar\\.gz|\\.tar\\.xz|\\.tgz|\\.txz|\\.zip)?$"@,
                "(^|[\\._-])(darwin|macos)[\\._-](arm64|aarch64)(\\.gz|\\.xz|\\.zst|\\.tar\\.gz|\\.tar\\.xz|\\.tgz|\\.txz|\\.zip)?$"@,
            ],
        ),
        (
            Platform::Win32,
            seq![
                "(^|[\\._-])(x86|i686)(-pc)?-windows(-msvc)?(\\.gz|\\.xz|\\.zst|\\.zip)?$"@,
                "(^|[\\._-])windows-(i686|x86)(\\.gz|\\.xz|\\.zst|\\.zip)?$"@,
                "(^|[\\._-])win32(\\.gz|\\.xz|\\.zst|\\.zip)?$"@,
            ],
        ),
        (
            Platform::Win64,
            seq![
                "(^|[\\._-])(amd64|x86_64|x64)(-pc)?-windows(-msvc)?(\\.gz|\\.xz|\\.zst|\\.zip)?$"@,
                "(^|[\\._-])(windows|win)-(amd64|x86_64|x64)(\\.gz|\\.xz|\\.zst|\\.zip)?$"@,
                "(^|[\\._-])win64(\\.gz|\\.xz|\\.zst|\\.zip)?$"@,
            ],
        ),
        (
            Platform::WinArm64,
            seq![
                "(^|[\\._-])(arm64|aarch64)(-pc)?-windows(-msvc)?(\\.gz|\\.xz|\\.zst|\\.zip)?$"@,
                "(^|[\\._-])(windows|win)-(arm64|aarch64)(\\.gz|\\.xz|\\.zst|\\.zip)?$"@,
            ],
        ),
    ]
}

/// The default table is well formed.
pub proof fn lemma_default_platforms_wf()
    ensures
        tbl_wf(spec_default_platforms()),
{
    let t = spec_default_platforms();
    assert forall|i: int, j: int| 0 <= i < j < t.len() implies t[i].0 != t[j].0 by {
        assert(t[0].0 == Platform::Linux32);
        assert(t[1].0 == Platform::Linux64);
        assert(t[2].0 == Platform::LinuxAarch64);
        assert(t[3].0 == Platform::Osx64);
        assert(t[4].0 == Platform::OsxArm64);
        assert(t[5].0 == Platform::Win32);
        assert(t[6].0 == Platform::Win64);
        assert(t[7].0 == Platform::WinArm64);
    }
    assert forall|i: int| 0 <= i < t.len() implies t[i].1.len() > 0 by {
        if i == 0 {
            assert(t[0].1.len() == 4);
        } else if i == 1 {
            assert(t[1].1.len() == 4);
        } else if i == 2 {
            assert(t[2].1.len() == 3);
        } else if i == 3 {
            assert(t[3].1.len() == 3);
        } else if i == 4 {
            assert(t[4].1.len() == 2);
        } else if i == 5 {
            assert(t[5].1.len() == 3);
        } else if i == 6 {
            assert(t[6].1.len() == 3);
        } else {
            assert(t[7].1.len() == 2);
        }
    }
}

fn push_source(v: &mut Vec<String>, s: &str)
    ensures
        strings_view(final(v)@) == strings_view(old(v)@).push(s@),
{
    v.push(s.to_owned());
    proof {
        assert(strings_view(v@) =~= strings_view(old(v)@).push(s@));
    }
}

fn push_entry(t: &mut Vec<(Platform, Vec<String>)>, p: Platform, v: Vec<String>)
    ensures
        table_view(final(t)@) == table_view(old(t)@).push((p, strings_view(v@))),
{
    let ghost vv = strings_view(v@);
    t.push((p, v));
    proof {
        assert(table_view(t@) =~= table_view(old(t)@).push((p, vv)));
    }
}

/// Build the built-in default pattern table.
pub fn default_platforms() -> (r: Vec<(Platform, Vec<String>)>)
    ensures
        table_view(r@) == spec_default_platforms(),
{
    let mut r: Vec<(Platform, Vec<String>)> = Vec::new();

    let mut v: Vec<String> = Vec::new();
    push_source(&mut v, "(^|[\\._-])i686-(unknown-)?linux-musl(\\.gz|\\.xz|\\.zst|\\.tar\\.gz|\\.tar\\.xz|\\.tgz|\\.txz|\\.zip)?$");
    push_source(&mut v, "(^|[\\._-])i686-(unknown-)?linux(-gnu)?(\\.gz|\\.xz|\\.zst|\\.tar\\.gz|\\.tar\\.xz|\\.tgz|\\.txz|\\.zip)?$");
    push_source(&mut v, "(^|[\\._-])linux[\\._-](i686|x86)(-unknown)?(-gnu|-musl)?(\\.gz|\\.xz|\\.zst|\\.tar\\.gz|\\.tar\\.xz|\\.tgz|\\.txz|\\.zip)?$");
    push_source(&mut v, "(^|[\\._-])linux32(-unknown)?(-gnu|-musl)?(\\.gz|\\.xz|\\.zst|\\.tar\\.gz|\\.tar\\.xz|\\.tgz|\\.txz|\\.zip)?$");
    push_entry(&mut r, Platform::Linux32, v);

    let mut v: Vec<String> = Vec::new();
    push_source(&mut v, "(^|[\\._-])(x86_64|amd64|x64)-(unknown-)?linux-musl(\\.gz|\\.xz|\\.zst|\\.tar\\.gz|\\.tar\\.xz|\\.tgz|\\.txz|\\.zip)?$");
    push_source(&mut v, "(^|[\\._-])(x86_64|amd64|x64)-(unknown-)?linux(-gnu)?(\\.gz|\\.xz|\\.zst|\\.tar\\.gz|\\.tar\\.xz|\\.tgz|\\.txz|\\.zip)?$");
    push_source(&mut v, "(^|[\\._-])linux[\\._-](x86_64|amd64|x64)(-unknown)?(-gnu|-musl)?(\\.gz|\\.xz|\\.zst|\\.tar\\.gz|\\.tar\\.xz|\\.tgz|\\.txz|\\.zip)?$");
    push_source(&mut v, "(^|[\\._-])linux64(-unknown)?(-gnu|-musl)?(\\.gz|\\.xz|\\.zst|\\.tar\\.gz|\\.tar\\.xz|\\.tgz|\\.txz|\\.zip)?$");
    push_entry(&mut r, Platform::Linux64, v);

    let mut v: Vec<String> = Vec::new();
    push_source(&mut v, "(^|[\\._-])(arm64|aarch64)-(unknown-)?linux-musl(\\.gz|\\.xz|\\.zst|\\.tar\\.gz|\\.tar\\.xz|\\.tgz|\\.txz|\\.zip)?$");
    push_source(&mut v, "(^|[\\._-])(arm64|aarch64)-(unknown-)?linux(-gnu)?(\\.gz|\\.xz|\\.zst|\\.tar\\.gz|\\.tar\\.xz|\\.tgz|\\.txz|\\.zip)?$");
    push_source(&mut v, "(^|[\\._-])linux[\\._-](arm64|aarch64)(-unknown)?(-gnu|-musl)?(\\.gz|\\.xz|\\.zst|\\.tar\\.gz|\\.tar\\.xz|\\.tgz|\\.txz|\\.zip)?$");
    push_entry(&mut r, Platform::LinuxAarch64, v);

    let mut v: Vec<String> = Vec::new();
    push_source(&mut v, "(^|[\\._-])(amd64|x86_64|x64)-(apple-)?(darwin|macos)(\\.gz|\\.xz|\\.zst|\\.tar\\.gz|\\.tar\\.xz|\\.tgz|\\.txz|\\.zip)?$");
    push_source(&mut v, "(^|[\\._-])(darwin|macos)[\\._-](amd64|x86_64|x64)(\\.gz|\\.xz|\\.zst|\\.tar\\.gz|\\.tar\\.xz|\\.tgz|\\.txz|\\.zip)?$");
    push_source(&mut v, "(^|[\\._-])macos(\\.gz|\\.xz|\\.zst|\\.tar\\.gz|\\.tar\\.xz|\\.tgz|\\.txz|\\.zip)?$");
    push_entry(&mut r, Platform::Osx64, v);

    let mut v: Vec<String> = Vec::new();
    push_source(&mut v, "(^|[\\._-])(arm64|aarch64)-(apple-)?(darwin|macos)(\\.gz|\\.xz|\\.zst|\\.tar\\.gz|\\.tar\\.xz|\\.tgz|\\.txz|\\.zip)?$");
    push_source(&mut v, "(^|[\\._-])(darwin|macos)[\\._-](arm64|aarch64)(\\.gz|\\.xz|\\.zst|\\.tar\\.gz|\\.tar\\.xz|\\.tgz|\\.txz|\\.zip)?$");
    push_entry(&mut r, Platform::OsxArm64, v);

    let mut v: Vec<String> = Vec::new();
    push_source(&mut v, "(^|[\\._-])(x86|i686)(-pc)?-windows(-msvc)?(\\.gz|\\.xz|\\.zst|\\.zip)?$");
    push_source(&mut v, "(^|[\\._-])windows-(i686|x86)(\\.gz|\\.xz|\\.zst|\\.zip)?$");
    push_source(&mut v, "(^|[\\._-])win32(\\.gz|\\.xz|\\.zst|\\.zip)?$");
    push_entry(&mut r, Platform::Win32, v);

    let mut v: Vec<String> = Vec::new();
    push_source(&mut v, "(^|[\\._-])(amd64|x86_64|x64)(-pc)?-windows(-msvc)?(\\.gz|\\.xz|\\.zst|\\.zip)?$");
    push_source(&mut v, "(^|[\\._-])(windows|win)-(amd64|x86_64|x64)(\\.gz|\\.xz|\\.zst|\\.zip)?$");
    push_source(&mut v, "(^|[\\._-])win64(\\.gz|\\.xz|\\.zst|\\.zip)?$");
    push_entry(&mut r, Platform::Win64, v);

    let mut v: Vec<String> = Vec::new();
    push_source(&mut v, "(^|[\\._-])(arm64|aarch64)(-pc)?-windows(-msvc)?(\\.gz|\\.xz|\\.zst|\\.zip)?$");
    push_source(&mut v, "(^|[\\._-])(windows|win)-(arm64|aarch64)(\\.gz|\\.xz|\\.zst|\\.zip)?$");
    push_entry(&mut r, Platform::WinArm64, v);

    proof {
        assert(table_view(r@) =~~= spec_default_platforms());
    }
    r
}

/// A raw per-platform override value from the configuration: either a
/// single string or a list of strings.
pub enum StringOrList {
    One(String),
    Many(Vec<String>),
}

/// The override is the sentinel `"null"`: disable the platform.
pub open spec fn spec_is_null(v: StringOrList) -> bool {
    v matches StringOrList::One(s) && s@ == "null"@
}

/// The override is a prepend form: a single string ending in the marker
/// `"..."` (and not the sentinel).
pub open spec fn spec_is_prepend(v: StringOrList) -> bool {
    v matches StringOrList::One(s) && s@ != "null"@ && crate::strutil::spec_ends_with(s@, "..."@)
}

/// The text of a prepend override, without its marker.
pub open spec fn spec_prepend_text(v: StringOrList) -> Seq<char>
    recommends
        spec_is_prepend(v),
{
    match v {
        StringOrList::One(s) => s@.subrange(0, s@.len() - "..."@.len()),
        StringOrList::Many(_) => Seq::empty(),
    }
}

/// The pattern list of a replacing override.
pub open spec fn spec_replace_sources(v: StringOrList) -> Seq<Seq<char>> {
    match v {
        StringOrList::One(s) => seq![s@],
        StringOrList::Many(l) => strings_view(l@),
    }
}

/// Apply one platform override to a rule table.
///
/// `"null"` removes the platform; a prepend form requires an existing
/// entry and prepends its text, separated by `.*`, to each pattern; a
/// plain string or non-empty list replaces the entry wholesale; an empty
/// list removes the platform.
pub open spec fn spec_apply_override(
    t: Seq<(Platform, Seq<Seq<char>>)>,
    p: Platform,
    v: StringOrList,
) -> Result<Seq<(Platform, Seq<Seq<char>>)>, ConfigError> {
    if spec_is_null(v) {
        Ok(tbl_remove(t, p))
    } else if spec_is_prepend(v) {
        match tbl_get(t, p) {
            None => Err(ConfigError::PrependWithoutDefault(p)),
            Some(cur) => Ok(
                tbl_set(t, p, cur.map_values(|c: Seq<char>| spec_prepend_text(v) + ".*"@ + c)),
            ),
        }
    } else if spec_replace_sources(v).len() == 0 {
        Ok(tbl_remove(t, p))
    } else {
        Ok(tbl_set(t, p, spec_replace_sources(v)))
    }
}

/// Apply a sequence of overrides, in configuration order; the first
/// failing override aborts the merge.
pub open spec fn spec_merge(
    t: Seq<(Platform, Seq<Seq<char>>)>,
    ovr: Seq<(Platform, StringOrList)>,
) -> Result<Seq<(Platform, Seq<Seq<char>>)>, ConfigError>
    decreases ovr.len(),
{
    if ovr.len() == 0 {
        Ok(t)
    } else {
        match spec_apply_override(t, ovr[0].0, ovr[0].1) {
            Ok(t2) => spec_merge(t2, ovr.drop_first()),
            Err(e) => Err(e),
        }
    }
}

/// Applying one override preserves well-formedness of the table.
pub proof fn lemma_apply_override_wf(
    t: Seq<(Platform, Seq<Seq<char>>)>,
    p: Platform,
    v: StringOrList,
)
    requires
        tbl_wf(t),
    ensures
        spec_apply_override(t, p, v) matches Ok(t2) ==> tbl_wf(t2),
{
    if spec_is_null(v) {
        lemma_tbl_remove_props(t, p);
    } else if spec_is_prepend(v) {
        lemma_tbl_get_char(t, p);
        match tbl_get(t, p) {
            Some(cur) => {
                let mapped = cur.map_values(|c: Seq<char>| spec_prepend_text(v) + ".*"@ + c);
                assert(mapped.len() == cur.len());
                lemma_tbl_set_props(t, p, mapped);
            },
            None => {},
        }
    } else if spec_replace_sources(v).len() == 0 {
        lemma_tbl_remove_props(t, p);
    } else {
        lemma_tbl_set_props(t, p, spec_replace_sources(v));
    }
}

/// Merging preserves well-formedness of the table.
pub proof fn lemma_merge_wf(
    t: Seq<(Platform, Seq<Seq<char>>)>,
    ovr: Seq<(Platform, StringOrList)>,
)
    requires
        tbl_wf(t),
    ensures
        spec_merge(t, ovr) matches Ok(t2) ==> tbl_wf(t2),
    decreases ovr.len(),
{
    if ovr.len() == 0 {
    } else {
        lemma_apply_override_wf(t, ovr[0].0, ovr[0].1);
        match spec_apply_override(t, ovr[0].0, ovr[0].1) {
            Ok(t2) => {
                lemma_merge_wf(t2, ovr.drop_first());
            },
            Err(_) => {},
        }
    }
}

/// A platform that no override names keeps its entry through the merge.
pub proof fn lemma_merge_untouched(
    t: Seq<(Platform, Seq<Seq<char>>)>,
    ovr: Seq<(Platform, StringOrList)>,
    p: Platform,
)
    requires
        forall|i: int| 0 <= i < ovr.len() ==> (#[trigger] ovr[i]).0 != p,
    ensures
        spec_merge(t, ovr) matches Ok(t2) ==> tbl_get(t2, p) == tbl_get(t, p),
    decreases ovr.len(),
{
    if ovr.len() == 0 {
    } else {
        let q = ovr[0].0;
        let v = ovr[0].1;
        match spec_apply_override(t, q, v) {
            Ok(t1) => {
                assert(tbl_get(t1, p) == tbl_get(t, p)) by {
                    if spec_is_null(v) || spec_replace_sources(v).len() == 0
                        && !spec_is_prepend(v) {
                        lemma_tbl_remove_props(t, q);
                    } else if spec_is_prepend(v) {
                        match tbl_get(t, q) {
                            Some(cur) => {
                                lemma_tbl_set_props(
                                    t,
                                    q,
                                    cur.map_values(
                                        |c: Seq<char>| spec_prepend_text(v) + ".*"@ + c,
                                    ),
                                );
                            },
                            None => {},
                        }
                    } else {
                        lemma_tbl_set_props(t, q, spec_replace_sources(v));
                    }
                }
                assert(forall|i: int|
                    0 <= i < ovr.drop_first().len() ==> (#[trigger] ovr.drop_first()[i]).0 != p);
                lemma_merge_untouched(t1, ovr.drop_first(), p);
            },
            Err(_) => {},
        }
    }
}

/// After merging, a platform that no override names and that the table
/// does not hold stays absent.
pub proof fn lemma_merge_absent(
    t: Seq<(Platform, Seq<Seq<char>>)>,
    ovr: Seq<(Platform, StringOrList)>,
    p: Platform,
)
    requires
        !tbl_contains(t, p),
        forall|i: int| 0 <= i < ovr.len() ==> (#[trigger] ovr[i]).0 != p,
    ensures
        spec_merge(t, ovr) matches Ok(t2) ==> !tbl_contains(t2, p),
{
    lemma_merge_untouched(t, ovr, p);
    lemma_tbl_get_char(t, p);
    match spec_merge(t, ovr) {
        Ok(t2) => {
            lemma_tbl_get_char(t2, p);
        },
        Err(_) => {},
    }
}

/// An override with the value `"null"` removes its platform from the
/// effective rule set: after a merge whose overrides name each platform
/// at most once, a platform with a `"null"` override has no entry.
pub proof fn lemma_null_override_disables(
    t: Seq<(Platform, Seq<Seq<char>>)>,
    ovr: Seq<(Platform, StringOrList)>,
    k: int,
)
    requires
        0 <= k < ovr.len(),
        spec_is_null(ovr[k].1),
        forall|i: int, j: int|
            0 <= i < j < ovr.len() ==> (#[trigger] ovr[i]).0 != (#[trigger] ovr[j]).0,
    ensures
        spec_merge(t, ovr) matches Ok(t2) ==> !tbl_contains(t2, ovr[k].0),
    decreases ovr.len(),
{
    let p = ovr[k].0;
    match spec_apply_override(t, ovr[0].0, ovr[0].1) {
        Ok(t1) => {
            if k == 0 {
                lemma_tbl_remove_props(t, p);
                assert(!tbl_contains(t1, p)) by {
                    lemma_tbl_get_char(t1, p);
                    lemma_tbl_get_char(tbl_remove(t, p), p);
                }
                assert(forall|i: int|
                    0 <= i < ovr.drop_first().len() ==> (#[trigger] ovr.drop_first()[i]).0 != p);
                lemma_merge_absent(t1, ovr.drop_first(), p);
            } else {
                assert(ovr.drop_first()[k - 1] == ovr[k]);
                lemma_null_override_disables(t1, ovr.drop_first(), k - 1);
            }
        },
        Err(_) => {},
    }
}

fn clone_sources(v: &Vec<String>) -> (r: Vec<String>)
    ensures
        r@ == v@,
{
    let mut r: Vec<String> = Vec::new();
    let mut i: usize = 0;
    while i < v.len()
        invariant
            i <= v@.len(),
            r@ == v@.subrange(0, i as int),
        decreases v@.len() - i,
    {
        r.push(v[i].clone());
        proof {
            assert(r@ =~= v@.subrange(0, i + 1));
        }
        i = i + 1;
    }
    proof {
        assert(v@.subrange(0, v@.len() as int) =~= v@);
    }
    r
}

/// Find the entry for `p` in a table with distinct platforms.
fn tbl_find(t: &Vec<(Platform, Vec<String>)>, p: Platform) -> (r: Option<usize>)
    requires
        tbl_distinct(table_view(t@)),
    ensures
        match r {
            Some(i) => i < t@.len() && t@[i as int].0 == p && tbl_get(table_view(t@), p) == Some(
                strings_view(t@[i as int].1@),
            ),
            None => tbl_get(table_view(t@), p) is None && !tbl_contains(table_view(t@), p),
        },
{
    let ghost tv = table_view(t@);
    let mut i: usize = 0;
    while i < t.len()
        invariant
            tv == table_view(t@),
            tbl_distinct(tv),
            i <= t@.len(),
            forall|k: int| 0 <= k < i ==> tv[k].0 != p,
        decreases t@.len() - i,
    {
        if t[i].0 == p {
            proof {
                assert(tv[i as int].0 == p);
                assert(tbl_contains(tv, p));
                lemma_tbl_get_char(tv, p);
                let j = choose|j: int|
                    0 <= j < tv.len() && tv[j].0 == p && tv[j].1 == tbl_get(tv, p)->0;
                if j != i {
                    assert(tv[j].0 == tv[i as int].0);
                    assert(false);
                }
                assert(tbl_get(tv, p) == Some(tv[i as int].1));
                assert(tv[i as int].1 == strings_view(t@[i as int].1@));
            }
            return Some(i);
        }
        proof {
            assert(tv[i as int].0 == t@[i as int].0);
        }
        i = i + 1;
    }
    proof {
        assert(!tbl_contains(tv, p));
        lemma_tbl_get_char(tv, p);
    }
    None
}

fn tbl_remove_exec(t: Vec<(Platform, Vec<String>)>, p: Platform) -> (r: Vec<
    (Platform, Vec<String>),
>)
    ensures
        table_view(r@) == tbl_remove(table_view(t@), p),
{
    let ghost tv = table_view(t@);
    let mut out: Vec<(Platform, Vec<String>)> = Vec::new();
    let mut i: usize = 0;
    while i < t.len()
        invariant
            tv == table_view(t@),
            i <= t@.len(),
            table_view(out@) == tbl_remove(tv.subrange(0, i as int), p),
        decreases t@.len() - i,
    {
        let ghost pre = tv.subrange(0, i as int);
        let ghost cur = tv.subrange(0, i + 1);
        proof {
            assert(cur.drop_last() =~= pre);
            assert(cur.last() == tv[i as int]);
            assert(tv[i as int] == (t@[i as int].0, strings_view(t@[i as int].1@)));
        }
        let e = &t[i];
        if e.0 != p {
            let cloned = clone_sources(&e.1);
            push_entry(&mut out, e.0, cloned);
        }
        i = i + 1;
    }
    proof {
        assert(tv.subrange(0, t@.len() as int) =~= tv);
    }
    out
}

fn tbl_set_exec(t: Vec<(Platform, Vec<String>)>, p: Platform, v: Vec<String>) -> (r: Vec<
    (Platform, Vec<String>),
>)
    ensures
        table_view(r@) == tbl_set(table_view(t@), p, strings_view(v@)),
{
    let ghost tv = table_view(t@);
    let ghost vv = strings_view(v@);
    // does the table hold an entry for p?
    let mut found = false;
    let mut i: usize = 0;
    while i < t.len()
        invariant
            tv == table_view(t@),
            i <= t@.len(),
            found == exists|k: int| 0 <= k < i && tv[k].0 == p,
        decreases t@.len() - i,
    {
        if t[i].0 == p {
            proof {
                assert(tv[i as int].0 == p);
            }
            found = true;
        }
        proof {
            assert(tv[i as int].0 == t@[i as int].0);
        }
        i = i + 1;
    }
    proof {
        assert(found == tbl_contains(tv, p));
    }
    if found {
        let mut out: Vec<(Platform, Vec<String>)> = Vec::new();
        let mut i: usize = 0;
        while i < t.len()
            invariant
                tv == table_view(t@),
                vv == strings_view(v@),
                i <= t@.len(),
                table_view(out@) == tbl_replace(tv.subrange(0, i as int), p, vv),
            decreases t@.len() - i,
        {
            let ghost pre = tv.subrange(0, i as int);
            let ghost cur = tv.subrange(0, i + 1);
            proof {
                assert(cur.drop_last() =~= pre);
                assert(cur.last() == tv[i as int]);
                assert(tv[i as int] == (t@[i as int].0, strings_view(t@[i as int].1@)));
            }
            let e = &t[i];
            if e.0 == p {
                let cloned = clone_sources(&v);
                push_entry(&mut out, p, cloned);
            } else {
                let cloned = clone_sources(&e.1);
                push_entry(&mut out, e.0, cloned);
            }
            i = i + 1;
        }
        proof {
            assert(tv.subrange(0, t@.len() as int) =~= tv);
        }
        out
    } else {
        let mut out = t;
        let ghost before = table_view(out@);
        push_entry(&mut out, p, v);
        out
    }
}

/// Apply one configuration override to the working table.
fn apply_override(t: Vec<(Platform, Vec<String>)>, p: Platform, v: &StringOrList) -> (r: Result<
    Vec<(Platform, Vec<String>)>,
    ConfigError,
>)
    requires
        tbl_distinct(table_view(t@)),
    ensures
        r matches Ok(t2) ==> spec_apply_override(table_view(t@), p, *v) == Ok::<
            _,
            ConfigError,
        >(table_view(t2@)),
        r matches Err(e) ==> spec_apply_override(table_view(t@), p, *v) == Err::<
            Seq<(Platform, Seq<Seq<char>>)>,
            _,
        >(e),
{
    let ghost tv = table_view(t@);
    match v {
        StringOrList::One(s) => {
            if crate::strutil::str_eq(s.as_str(), "null") {
                Ok(tbl_remove_exec(t, p))
            } else if crate::strutil::str_ends_with(s.as_str(), "...") {
                match tbl_find(&t, p) {
                    None => Err(ConfigError::PrependWithoutDefault(p)),
                    Some(i) => {
                        let s_len = s.as_str().unicode_len();
                        let m_len = "...".unicode_len();
                        let prefix = s.as_str().substring_char(0, s_len - m_len);
                        proof {
                            assert(prefix@ == spec_prepend_text(*v));
                        }
                        let ghost cur = strings_view(t@[i as int].1@);
                        let mut nv: Vec<String> = Vec::new();
                        let n = t[i].1.len();
                        let mut j: usize = 0;
                        while j < n
                            invariant
                                i < t@.len(),
                                cur == strings_view(t@[i as int].1@),
                                n == t@[i as int].1@.len(),
                                prefix@ == spec_prepend_text(*v),
                                j <= n,
                                nv@.len() == j,
                                forall|k: int|
                                    0 <= k < j ==> #[trigger] nv@[k]@ == spec_prepend_text(*v)
                                        + ".*"@ + cur[k],
                            decreases n - j,
                        {
                            let src = &t[i].1[j];
                            let mut x = prefix.to_owned();
                            x.append(".*");
                            x.append(src.as_str());
                            proof {
                                assert(cur[j as int] == t@[i as int].1@[j as int]@);
                                assert(x@ == spec_prepend_text(*v) + ".*"@ + cur[j as int]);
                            }
                            nv.push(x);
                            j = j + 1;
                        }
                        proof {
                            assert(strings_view(nv@) =~= cur.map_values(
                                |c: Seq<char>| spec_prepend_text(*v) + ".*"@ + c,
                            ));
                        }
                        Ok(tbl_set_exec(t, p, nv))
                    },
                }
            } else {
                let mut nv: Vec<String> = Vec::new();
                nv.push(s.clone());
                proof {
                    assert(strings_view(nv@) =~= seq![s@]);
                    assert(spec_replace_sources(*v) == seq![s@]);
                    assert(seq![s@].len() == 1);
                }
                Ok(tbl_set_exec(t, p, nv))
            }
        },
        StringOrList::Many(l) => {
            if l.len() == 0 {
                proof {
                    assert(spec_replace_sources(*v) =~= Seq::<Seq<char>>::empty());
                }
                Ok(tbl_remove_exec(t, p))
            } else {
                Ok(tbl_set_exec(t, p, clone_sources(l)))
            }
        },
    }
}

/// Anchor one pattern on a package name: the asset name must start with
/// the name, anything may follow before the pattern proper.
pub open spec fn spec_anchor_pat(n: Seq<char>, c: Seq<char>) -> Seq<char> {
    "^"@ + n + ".*"@ + c
}

/// Anchor every pattern of the table on a package name.
pub open spec fn spec_anchor_table(
    n: Seq<char>,
    t: Seq<(Platform, Seq<Seq<char>>)>,
) -> Seq<(Platform, Seq<Seq<char>>)> {
    t.map_values(
        |e: (Platform, Seq<Seq<char>>)|
            (e.0, e.1.map_values(|c: Seq<char>| spec_anchor_pat(n, c))),
    )
}

/// Anchoring preserves the table's shape and well-formedness.
pub proof fn lemma_anchor_table_props(n: Seq<char>, t: Seq<(Platform, Seq<Seq<char>>)>)
    ensures
        spec_anchor_table(n, t).len() == t.len(),
        forall|i: int|
            0 <= i < t.len() ==> (#[trigger] spec_anchor_table(n, t)[i]).0 == t[i].0
                && spec_anchor_table(n, t)[i].1.len() == t[i].1.len(),
        tbl_wf(t) ==> tbl_wf(spec_anchor_table(n, t)),
{
    let a = spec_anchor_table(n, t);
    assert(a.len() == t.len());
    assert forall|i: int|
        0 <= i < t.len() implies (#[trigger] a[i]).0 == t[i].0 && a[i].1.len()
        == t[i].1.len() by {
        assert(a[i] == (t[i].0, t[i].1.map_values(|c: Seq<char>| spec_anchor_pat(n, c))));
    }
}

fn anchor_table(t: Vec<(Platform, Vec<String>)>, n: &str) -> (r: Vec<(Platform, Vec<String>)>)
    ensures
        table_view(r@) == spec_anchor_table(n@, table_view(t@)),
{
    let ghost tv = table_view(t@);
    let mut out: Vec<(Platform, Vec<String>)> = Vec::new();
    let mut i: usize = 0;
    while i < t.len()
        invariant
            tv == table_view(t@),
            i <= t@.len(),
            table_view(out@) == spec_anchor_table(n@, tv.subrange(0, i as int)),
        decreases t@.len() - i,
    {
        let e = &t[i];
        let ghost cur = strings_view(t@[i as int].1@);
        let mut nv: Vec<String> = Vec::new();
        let m = e.1.len();
        let mut j: usize = 0;
        while j < m
            invariant
                i < t@.len(),
                cur == strings_view(t@[i as int].1@),
                m == t@[i as int].1@.len(),
                j <= m,
                nv@.len() == j,
                forall|k: int|
                    0 <= k < j ==> #[trigger] nv@[k]@ == spec_anchor_pat(n@, cur[k]),
            decreases m - j,
        {
            let src = &t[i].1[j];
            let mut x = "^".to_owned();
            x.append(n);
            x.append(".*");
            x.append(src.as_str());
            proof {
                assert(cur[j as int] == t@[i as int].1@[j as int]@);
                assert(x@ == spec_anchor_pat(n@, cur[j as int]));
            }
            nv.push(x);
            j = j + 1;
        }
        proof {
            assert(strings_view(nv@) =~= cur.map_values(|c: Seq<char>| spec_anchor_pat(n@, c)));
        }
        push_entry(&mut out, e.0, nv);
        proof {
            assert(tv[i as int] == (t@[i as int].0, cur));
            assert(table_view(out@) =~= spec_anchor_table(n@, tv.subrange(0, i + 1)));
        }
        i = i + 1;
    }
    proof {
        assert(tv.subrange(0, t@.len() as int) =~= tv);
    }
    out
}

/// Every pattern text in the list compiles.
pub open spec fn sources_all_valid(ps: Seq<Seq<char>>) -> bool {
    forall|j: int| 0 <= j < ps.len() ==> regex_valid(ps[j])
}

/// The first platform, in table order, one of whose patterns does not
/// compile.
pub open spec fn spec_first_invalid(t: Seq<(Platform, Seq<Seq<char>>)>) -> Option<Platform>
    decreases t.len(),
{
    if t.len() == 0 {
        None
    } else {
        match spec_first_invalid(t.drop_last()) {
            Some(p) => Some(p),
            None => if !sources_all_valid(t.last().1) {
                Some(t.last().0)
            } else {
                None
            },
        }
    }
}

pub proof fn lemma_first_invalid_char(t: Seq<(Platform, Seq<Seq<char>>)>)
    ensures
        match spec_first_invalid(t) {
            None => forall|i: int| 0 <= i < t.len() ==> sources_all_valid((#[trigger] t[i]).1),
            Some(p) => exists|i: int|
                0 <= i < t.len() && t[i].0 == p && !sources_all_valid(t[i].1) && forall|j: int|
                    0 <= j < i ==> sources_all_valid((#[trigger] t[j]).1),
        },
    decreases t.len(),
{
    if t.len() == 0 {
    } else {
        let dl = t.drop_last();
        lemma_first_invalid_char(dl);
        match spec_first_invalid(dl) {
            Some(p) => {
                let i = choose|i: int|
                    0 <= i < dl.len() && dl[i].0 == p && !sources_all_valid(dl[i].1) && forall|
                        j: int,
                    | 0 <= j < i ==> sources_all_valid((#[trigger] dl[j]).1);
                assert(t[i] == dl[i]);
                assert forall|j: int| 0 <= j < i implies sources_all_valid((#[trigger] t[j]).1) by {
                    assert(t[j] == dl[j]);
                }
            },
            None => {
                assert forall|j: int|
                    0 <= j < t.len() - 1 implies sources_all_valid((#[trigger] t[j]).1) by {
                    assert(t[j] == dl[j]);
                }
            },
        }
    }
}

/// A package's effective rules: the per-platform ordered pattern lists,
/// compiled, after merging defaults with overrides.
pub struct PlatformRuleSet {
    pub entries: Vec<(Platform, Vec<Pattern>)>,
}

impl View for PlatformRuleSet {
    type V = Seq<(Platform, Seq<Seq<char>>)>;

    open spec fn view(&self) -> Seq<(Platform, Seq<Seq<char>>)> {
        self.entries@.map_values(
            |e: (Platform, Vec<Pattern>)|
                (e.0, e.1@.map_values(|pat: Pattern| pat.src())),
        )
    }
}

impl PlatformRuleSet {
    /// Distinct platforms, non-empty pattern lists, every pattern
    /// compiled from a valid source.
    pub open spec fn wf(self) -> bool {
        &&& tbl_wf(self@)
        &&& forall|i: int| 0 <= i < self@.len() ==> sources_all_valid((#[trigger] self@[i]).1)
    }
}

/// Compile every pattern text of the table; fail on the first platform,
/// in table order, with a pattern that does not compile.
fn compile_table(t: Vec<(Platform, Vec<String>)>) -> (r: Result<PlatformRuleSet, ConfigError>)
    ensures
        r is Ok <==> spec_first_invalid(table_view(t@)) is None,
        r matches Ok(rs) ==> rs@ == table_view(t@),
        r matches Err(e) ==> spec_first_invalid(table_view(t@)) matches Some(p) && e
            == ConfigError::InvalidPattern(p),
{
    let ghost tv = table_view(t@);
    let mut entries: Vec<(Platform, Vec<Pattern>)> = Vec::new();
    let mut i: usize = 0;
    while i < t.len()
        invariant
            tv == table_view(t@),
            i <= t@.len(),
            entries@.len() == i,
            forall|k: int|
                0 <= k < i ==> (#[trigger] entries@[k]).0 == tv[k].0 && entries@[k].1@.map_values(
                    |pat: Pattern| pat.src(),
                ) == tv[k].1,
            forall|k: int| 0 <= k < i ==> sources_all_valid((#[trigger] tv[k]).1),
        decreases t@.len() - i,
    {
        let e = &t[i];
        let ghost cur = strings_view(t@[i as int].1@);
        proof {
            assert(tv[i as int] == (t@[i as int].0, cur));
        }
        let m = e.1.len();
        let mut pats: Vec<Pattern> = Vec::new();
        let mut j: usize = 0;
        while j < m
            invariant
                tv == table_view(t@),
                i < t@.len(),
                cur == strings_view(t@[i as int].1@),
                tv[i as int] == (t@[i as int].0, cur),
                forall|k: int| 0 <= k < i ==> sources_all_valid((#[trigger] tv[k]).1),
                m == t@[i as int].1@.len(),
                j <= m,
                pats@.len() == j,
                forall|k: int|
                    0 <= k < j ==> (#[trigger] pats@[k]).src() == cur[k] && regex_valid(cur[k]),
            decreases m - j,
        {
            let src = &t[i].1[j];
            proof {
                assert(cur[j as int] == t@[i as int].1@[j as int]@);
            }
            match Pattern::compile(src.as_str()) {
                Some(pat) => {
                    pats.push(pat);
                },
                None => {
                    proof {
                        assert(!regex_valid(cur[j as int]));
                        assert(!sources_all_valid(tv[i as int].1));
                        lemma_first_invalid_char(tv);
                        match spec_first_invalid(tv) {
                            None => {
                                assert(sources_all_valid(tv[i as int].1));
                            },
                            Some(p) => {
                                let k = choose|k: int|
                                    0 <= k < tv.len() && tv[k].0 == p && !sources_all_valid(
                                        tv[k].1,
                                    ) && forall|j2: int|
                                        0 <= j2 < k ==> sources_all_valid((#[trigger] tv[j2]).1);
                                if k < i {
                                    assert(sources_all_valid(tv[k].1));
                                }
                                if k > i {
                                    assert(sources_all_valid(tv[i as int].1));
                                }
                                assert(k == i);
                                assert(p == tv[i as int].0);
                            },
                        }
                        assert(spec_first_invalid(tv) == Some(tv[i as int].0));
                        assert(tv[i as int].0 == t@[i as int].0);
                    }
                    return Err(ConfigError::InvalidPattern(t[i].0));
                },
            }
            j = j + 1;
        }
        proof {
            assert(pats@.map_values(|pat: Pattern| pat.src()) =~= cur);
            assert(sources_all_valid(cur));
        }
        entries.push((e.0, pats));
        i = i + 1;
    }
    let rs = PlatformRuleSet { entries };
    proof {
        assert(rs@ =~= tv);
        lemma_first_invalid_char(tv);
        match spec_first_invalid(tv) {
            Some(p) => {
                let k = choose|k: int|
                    0 <= k < tv.len() && tv[k].0 == p && !sources_all_valid(tv[k].1);
                assert(sources_all_valid(tv[k].1));
            },
            None => {},
        }
    }
    Ok(rs)
}

/// A package's raw configuration: an optional display-name override, a
/// repository identifier, and per-platform overrides in configuration
/// order.
pub struct TomlPackage {
    pub name: Option<String>,
    pub repository: String,
    pub platforms: Vec<(Platform, StringOrList)>,
}

/// A configured package: its display name, its repository, and its
/// effective platform rules.
pub struct Package {
    pub name: String,
    pub repository: crate::repo::Repository,
    pub platforms: PlatformRuleSet,
}

/// Anchor the whole table when a name override is declared.
pub open spec fn spec_anchor_opt(
    name: Option<String>,
    t: Seq<(Platform, Seq<Seq<char>>)>,
) -> Seq<(Platform, Seq<Seq<char>>)> {
    match name {
        Some(n) => spec_anchor_table(n@, t),
        None => t,
    }
}

/// The effective rule sources of a package configuration: the default
/// table merged with the overrides, anchored on the name override if one
/// is declared; the first platform with a pattern that does not compile
/// is a configuration error.
pub open spec fn spec_package_rules(
    name: Option<String>,
    ovr: Seq<(Platform, StringOrList)>,
) -> Result<Seq<(Platform, Seq<Seq<char>>)>, ConfigError> {
    match spec_merge(spec_default_platforms(), ovr) {
        Ok(t) => {
            let anchored = spec_anchor_opt(name, t);
            match spec_first_invalid(anchored) {
                Some(p) => Err(ConfigError::InvalidPattern(p)),
                None => Ok(anchored),
            }
        },
        Err(e) => Err(e),
    }
}

/// The whole package configuration is acceptable: the repository
/// identifier holds exactly one '/', every prepend override names a
/// platform with a default, and every effective pattern compiles.
pub open spec fn spec_package_ok(tp: TomlPackage) -> bool {
    &&& tp.repository@.contains('/')
    &&& !crate::repo::spec_has_two_slashes(tp.repository@)
    &&& spec_package_rules(tp.name, tp.platforms@) is Ok
}

/// The error a bad package configuration is rejected with: the
/// repository identifier is checked first, then the overrides, then the
/// compiled patterns.
pub open spec fn spec_package_error(tp: TomlPackage) -> ConfigError {
    if !tp.repository@.contains('/') {
        ConfigError::RepositoryMissingSeparator
    } else if crate::repo::spec_has_two_slashes(tp.repository@) {
        ConfigError::RepositoryTooManySeparators
    } else {
        match spec_package_rules(tp.name, tp.platforms@) {
            Err(e) => e,
            Ok(_) => arbitrary(),
        }
    }
}

impl Package {
    /// Compile a package from its raw configuration.
    ///
    /// Succeeds exactly when the repository identifier holds exactly one
    /// '/', every prepend override names a platform with a default, and
    /// every effective pattern compiles; the effective rules are then
    /// `spec_package_rules` of the configuration, and are well formed.
    pub fn try_from(value: &TomlPackage) -> (r: Result<Package, ConfigError>)
        ensures
            r is Ok <==> spec_package_ok(*value),
            r matches Ok(pkg) ==> {
                &&& value.repository@ == pkg.repository.owner@ + seq!['/'] + pkg.repository.repo@
                &&& !pkg.repository.owner@.contains('/')
                &&& !pkg.repository.repo@.contains('/')
                &&& pkg.name@ == (match value.name {
                    Some(n) => n@,
                    None => pkg.repository.repo@,
                })
                &&& Ok::<_, ConfigError>(pkg.platforms@) == spec_package_rules(
                    value.name,
                    value.platforms@,
                )
                &&& pkg.platforms.wf()
            },
            r matches Err(e) ==> e == spec_package_error(*value),
    {
        let repository = match crate::repo::Repository::try_from(value.repository.as_str()) {
            Ok(x) => x,
            Err(e) => {
                return Err(e);
            },
        };
        let name: String = match &value.name {
            Some(n) => n.clone(),
            None => repository.repo.clone(),
        };
        let mut table = default_platforms();
        proof {
            lemma_default_platforms_wf();
        }
        let ghost ovr = value.platforms@;
        proof {
            assert(ovr.subrange(0, ovr.len() as int) =~= ovr);
        }
        let mut idx: usize = 0;
        while idx < value.platforms.len()
            invariant
                ovr == value.platforms@,
                idx <= ovr.len(),
                value.repository@.contains('/'),
                !crate::repo::spec_has_two_slashes(value.repository@),
                value.repository@ == repository.owner@ + seq!['/'] + repository.repo@,
                !repository.owner@.contains('/'),
                !repository.repo@.contains('/'),
                name@ == (match value.name {
                    Some(n) => n@,
                    None => repository.repo@,
                }),
                tbl_wf(table_view(table@)),
                spec_merge(table_view(table@), ovr.subrange(idx as int, ovr.len() as int))
                    == spec_merge(spec_default_platforms(), ovr),
            decreases ovr.len() - idx,
        {
            let ghost pre_tv = table_view(table@);
            let ghost rem = ovr.subrange(idx as int, ovr.len() as int);
            proof {
                assert(rem[0] == ovr[idx as int]);
                assert(rem.drop_first() =~= ovr.subrange(idx + 1, ovr.len() as int));
            }
            let e = &value.platforms[idx];
            proof {
                assert(*e == ovr[idx as int]);
            }
            let table2 = match apply_override(table, e.0, &e.1) {
                Ok(x) => x,
                Err(err) => {
                    proof {
                        assert(spec_merge(pre_tv, rem) == Err::<
                            Seq<(Platform, Seq<Seq<char>>)>,
                            _,
                        >(err));
                    }
                    return Err(err);
                },
            };
            proof {
                lemma_apply_override_wf(pre_tv, ovr[idx as int].0, ovr[idx as int].1);
            }
            table = table2;
            idx = idx + 1;
        }
        proof {
            assert(ovr.subrange(ovr.len() as int, ovr.len() as int) =~= Seq::<
                (Platform, StringOrList),
            >::empty());
            assert(spec_merge(spec_default_platforms(), ovr) == Ok::<_, ConfigError>(table_view(
                table@,
            )));
        }
        let ghost merged = table_view(table@);
        let table = match &value.name {
            Some(n) => {
                let a = anchor_table(table, n.as_str());
                proof {
                    lemma_anchor_table_props(n@, merged);
                }
                a
            },
            None => table,
        };
        proof {
            assert(table_view(table@) == spec_anchor_opt(value.name, merged));
            assert(tbl_wf(table_view(table@)));
        }
        let ghost anchored_tv = table_view(table@);
        match compile_table(table) {
            Ok(platforms) => {
                proof {
                    lemma_first_invalid_char(anchored_tv);
                    assert(platforms.wf());
                }
                Ok(Package { name, repository, platforms })
            },
            Err(e) => Err(e),
        }
    }
}

/// For a package with no name override, the effective pattern list of a
/// platform that no override names equals the default table's entry for
/// it (the rule compiler changes nothing it was not asked to change).
pub proof fn lemma_no_override_keeps_default(
    name: Option<String>,
    ovr: Seq<(Platform, StringOrList)>,
    p: Platform,
)
    requires
        name is None,
        forall|i: int| 0 <= i < ovr.len() ==> (#[trigger] ovr[i]).0 != p,
    ensures
        spec_package_rules(name, ovr) matches Ok(t) ==> tbl_get(t, p) == tbl_get(
            spec_default_platforms(),
            p,
        ),
{
    lemma_merge_untouched(spec_default_platforms(), ovr, p);
}

/// For an override with the value `"null"`, the platform is absent from
/// the effective rule set (whatever the name override), provided each
/// platform is named by at most one override.
pub proof fn lemma_null_override_removes_platform(
    name: Option<String>,
    ovr: Seq<(Platform, StringOrList)>,
    k: int,
)
    requires
        0 <= k < ovr.len(),
        spec_is_null(ovr[k].1),
        forall|i: int, j: int|
            0 <= i < j < ovr.len() ==> (#[trigger] ovr[i]).0 != (#[trigger] ovr[j]).0,
    ensures
        spec_package_rules(name, ovr) matches Ok(t) ==> !tbl_contains(t, ovr[k].0),
{
    lemma_null_override_disables(spec_default_platforms(), ovr, k);
    match spec_merge(spec_default_platforms(), ovr) {
        Ok(t) => {
            let anchored = spec_anchor_opt(name, t);
            match name {
                Some(n) => {
                    lemma_anchor_table_props(n@, t);
                    assert(!tbl_contains(anchored, ovr[k].0)) by {
                        if tbl_contains(anchored, ovr[k].0) {
                            let i = choose|i: int|
                                0 <= i < anchored.len() && anchored[i].0 == ovr[k].0;
                            assert(t[i].0 == ovr[k].0);
                        }
                    }
                },
                None => {},
            }
        },
        Err(_) => {},
    }
}

} // verus!
