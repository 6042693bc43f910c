//! The asset classifier: select, for one platform's ordered pattern
//! list, the release asset that represents the platform's artifact.
//!
//! Precedence is pattern-order first, asset-order second: the first
//! pattern that matches any asset wins, and among assets the first match
//! wins. The scan is a pure function of the pattern texts and the asset
//! names.

use vstd::prelude::*;

use crate::pattern::{regex_match, Pattern};
use crate::rules::strings_view;
use crate::strutil;

verus! {

/// The mathematical content of an asset.
pub struct AssetView {
    pub name: Seq<char>,
    pub browser_download_url: Seq<char>,
    pub digest: Option<Seq<char>>,
}

/// One downloadable file attached to a release.
pub struct Asset {
    pub name: String,
    pub browser_download_url: String,
    pub digest: Option<String>,
}

impl View for Asset {
    type V = AssetView;

    open spec fn view(&self) -> AssetView {
        AssetView {
            name: self.name@,
            browser_download_url: self.browser_download_url@,
            digest: match self.digest {
                Some(d) => Some(d@),
                None => None,
            },
        }
    }
}

/// The names of a sequence of assets.
pub open spec fn asset_names(assets: Seq<Asset>) -> Seq<Seq<char>> {
    assets.map_values(|a: Asset| a.name@)
}

/// The digest of an asset, split into its algorithm tag and hex value.
/// Only a digest carrying the expected algorithm tag is recognized.
pub open spec fn spec_extract_digest(digest: Option<Seq<char>>) -> Option<(Seq<char>, Seq<char>)> {
    match digest {
        Some(d) => if strutil::spec_starts_with(d, "sha256:"@) {
            Some(("sha256"@, d.subrange("sha256:"@.len() as int, d.len() as int)))
        } else {
            None
        },
        None => None,
    }
}

pub fn extract_digest(asset: &Asset) -> (r: Option<(String, String)>)
    ensures
        match (r, spec_extract_digest(asset@.digest)) {
            (Some(av), Some(sv)) => av.0@ == sv.0 && av.1@ == sv.1,
            (None, None) => true,
            _ => false,
        },
{
    match &asset.digest {
        Some(d) => {
            if strutil::str_starts_with(d.as_str(), "sha256:") {
                let p_len = "sha256:".unicode_len();
                let d_len = d.as_str().unicode_len();
                let value = d.as_str().substring_char(p_len, d_len);
                Some(("sha256".to_owned(), value.to_owned()))
            } else {
                None
            }
        },
        None => None,
    }
}

/// The index of the first asset whose name matches the pattern text `p`.
pub open spec fn spec_first_match(p: Seq<char>, assets: Seq<Seq<char>>) -> Option<int>
    decreases assets.len(),
{
    if assets.len() == 0 {
        None
    } else if regex_match(p, assets[0]) {
        Some(0)
    } else {
        match spec_first_match(p, assets.drop_first()) {
            Some(i) => Some(i + 1),
            None => None,
        }
    }
}

pub proof fn lemma_first_match_char(p: Seq<char>, assets: Seq<Seq<char>>)
    ensures
        match spec_first_match(p, assets) {
            None => forall|i: int| 0 <= i < assets.len() ==> !regex_match(p, #[trigger] assets[i]),
            Some(i) => 0 <= i < assets.len() && regex_match(p, assets[i]) && forall|j: int|
                0 <= j < i ==> !regex_match(p, #[trigger] assets[j]),
        },
    decreases assets.len(),
{
    if assets.len() == 0 {
    } else if regex_match(p, assets[0]) {
    } else {
        let tail = assets.drop_first();
        lemma_first_match_char(p, tail);
        match spec_first_match(p, tail) {
            Some(i) => {
                assert(tail[i] == assets[i + 1]);
                assert forall|j: int| 0 <= j < i + 1 implies !regex_match(
                    p,
                    #[trigger] assets[j],
                ) by {
                    if j > 0 {
                        assert(tail[j - 1] == assets[j]);
                    }
                }
            },
            None => {
                assert forall|j: int| 0 <= j < assets.len() implies !regex_match(
                    p,
                    #[trigger] assets[j],
                ) by {
                    if j > 0 {
                        assert(tail[j - 1] == assets[j]);
                    }
                }
            },
        }
    }
}

/// The first pattern that matches any asset wins; its first matching
/// asset's index is the result.
pub open spec fn spec_match_names(ps: Seq<Seq<char>>, assets: Seq<Seq<char>>) -> Option<int>
    decreases ps.len(),
{
    if ps.len() == 0 {
        None
    } else {
        match spec_first_match(ps[0], assets) {
            Some(i) => Some(i),
            None => spec_match_names(ps.drop_first(), assets),
        }
    }
}

/// Patterns whose scan found nothing can be skipped without changing the
/// result.
pub proof fn lemma_match_names_skip(ps: Seq<Seq<char>>, assets: Seq<Seq<char>>, k: int)
    requires
        0 <= k <= ps.len(),
        forall|k2: int| 0 <= k2 < k ==> spec_first_match(#[trigger] ps[k2], assets) is None,
    ensures
        spec_match_names(ps, assets) == spec_match_names(ps.subrange(k, ps.len() as int), assets),
    decreases k,
{
    if k == 0 {
        assert(ps.subrange(0, ps.len() as int) =~= ps);
    } else {
        let tail = ps.drop_first();
        assert(spec_first_match(ps[0], assets) is None);
        assert(spec_match_names(ps, assets) == spec_match_names(tail, assets));
        assert(forall|k2: int|
            0 <= k2 < k - 1 ==> #[trigger] tail[k2] == ps[k2 + 1]);
        lemma_match_names_skip(tail, assets, k - 1);
        assert(tail.subrange(k - 1, tail.len() as int) =~= ps.subrange(k, ps.len() as int));
    }
}

/// Classification is deterministic and order-stable: the selected asset
/// index is a pure function of the pattern texts and the asset names, so
/// repeated classification of the same pair always selects the same
/// index. (The executable classifier returns exactly this function; see
/// `match_platform_names`.)
pub proof fn lemma_classification_deterministic(
    ps1: Seq<Seq<char>>,
    assets1: Seq<Seq<char>>,
    ps2: Seq<Seq<char>>,
    assets2: Seq<Seq<char>>,
)
    requires
        ps1 == ps2,
        assets1 == assets2,
    ensures
        spec_match_names(ps1, assets1) == spec_match_names(ps2, assets2),
{
}

/// The sources of a list of compiled patterns.
pub open spec fn patterns_view(ps: Seq<Pattern>) -> Seq<Seq<char>> {
    ps.map_values(|p: Pattern| p.src())
}

/// Scan the patterns in order; for each pattern scan the asset names in
/// order; the first hit wins.
pub fn match_platform_names(patterns: &Vec<Pattern>, assets: &Vec<String>) -> (r: Option<usize>)
    ensures
        (match r {
            Some(i) => Some(i as int),
            None => None,
        }) == spec_match_names(patterns_view(patterns@), strings_view(assets@)),
{
    let ghost ps = patterns_view(patterns@);
    let ghost names = strings_view(assets@);
    let mut k: usize = 0;
    while k < patterns.len()
        invariant
            ps == patterns_view(patterns@),
            names == strings_view(assets@),
            k <= patterns@.len(),
            forall|k2: int| 0 <= k2 < k ==> spec_first_match(#[trigger] ps[k2], names) is None,
        decreases patterns@.len() - k,
    {
        let p = &patterns[k];
        proof {
            assert(p.src() == ps[k as int]);
        }
        let mut i: usize = 0;
        while i < assets.len()
            invariant
                ps == patterns_view(patterns@),
                names == strings_view(assets@),
                k < patterns@.len(),
                p.src() == ps[k as int],
                forall|k2: int| 0 <= k2 < k ==> spec_first_match(#[trigger] ps[k2], names) is None,
                i <= assets@.len(),
                forall|j: int| 0 <= j < i ==> !regex_match(ps[k as int], #[trigger] names[j]),
            decreases assets@.len() - i,
        {
            proof {
                assert(assets@[i as int]@ == names[i as int]);
            }
            if p.is_match(assets[i].as_str()) {
                proof {
                    lemma_first_match_char(ps[k as int], names);
                    match spec_first_match(ps[k as int], names) {
                        None => {
                            assert(!regex_match(ps[k as int], names[i as int]));
                        },
                        Some(fi) => {
                            if fi < i {
                                assert(!regex_match(ps[k as int], names[fi]));
                            }
                            if fi > i {
                                assert(!regex_match(ps[k as int], names[i as int]));
                            }
                            assert(fi == i);
                        },
                    }
                    lemma_match_names_skip(ps, names, k as int);
                    let rest = ps.subrange(k as int, ps.len() as int);
                    assert(rest[0] == ps[k as int]);
                    assert(spec_match_names(ps, names) == Some(i as int));
                }
                return Some(i);
            }
            i = i + 1;
        }
        proof {
            lemma_first_match_char(ps[k as int], names);
            match spec_first_match(ps[k as int], names) {
                Some(fi) => {
                    assert(!regex_match(ps[k as int], names[fi]));
                },
                None => {},
            }
        }
        k = k + 1;
    }
    proof {
        lemma_match_names_skip(ps, names, ps.len() as int);
        assert(ps.subrange(ps.len() as int, ps.len() as int) =~= Seq::<Seq<char>>::empty());
    }
    None
}

/// Match one platform's patterns against a release's assets; the result
/// indexes into the asset list.
pub fn match_platform(patterns: &Vec<Pattern>, assets: &Vec<Asset>) -> (r: Option<usize>)
    ensures
        (match r {
            Some(i) => Some(i as int),
            None => None,
        }) == spec_match_names(patterns_view(patterns@), asset_names(assets@)),
        r matches Some(i) ==> i < assets@.len(),
{
    let mut names: Vec<String> = Vec::new();
    let mut i: usize = 0;
    while i < assets.len()
        invariant
            i <= assets@.len(),
            names@.len() == i,
            forall|j: int| 0 <= j < i ==> #[trigger] names@[j]@ == assets@[j].name@,
        decreases assets@.len() - i,
    {
        names.push(assets[i].name.clone());
        i = i + 1;
    }
    proof {
        assert(strings_view(names@) =~= asset_names(assets@));
    }
    let r = match_platform_names(patterns, &names);
    proof {
        match spec_match_names(patterns_view(patterns@), asset_names(assets@)) {
            Some(fi) => {
                lemma_match_names_in_range(patterns_view(patterns@), asset_names(assets@));
            },
            None => {},
        }
    }
    r
}

/// A successful scan indexes into the asset list.
pub proof fn lemma_match_names_in_range(ps: Seq<Seq<char>>, assets: Seq<Seq<char>>)
    ensures
        spec_match_names(ps, assets) matches Some(i) ==> 0 <= i < assets.len(),
    decreases ps.len(),
{
    if ps.len() == 0 {
    } else {
        match spec_first_match(ps[0], assets) {
            Some(_) => {
                lemma_first_match_char(ps[0], assets);
            },
            None => {
                lemma_match_names_in_range(ps.drop_first(), assets);
            },
        }
    }
}

} // verus!
