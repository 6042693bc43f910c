//! The run-wide configuration: the configured packages and the target
//! channel.

use vstd::prelude::*;

use crate::channel::Conda;
use crate::errors::ConfigError;
use crate::platform::Platform;
use crate::rules::{
    spec_package_error, spec_package_ok, tbl_contains, Package, TomlPackage,
};

verus! {

/// The raw configuration, as read from the configuration file.
pub struct TomlConfig {
    pub packages: Vec<TomlPackage>,
    pub conda: Conda,
}

/// The compiled configuration.
pub struct Config {
    pub packages: Vec<Package>,
    pub conda: Conda,
}

/// The compiled package matches its raw configuration: same repository,
/// the configured or inherited name, and the effective rules.
pub open spec fn spec_package_matches(tp: TomlPackage, pkg: Package) -> bool {
    &&& tp.repository@ == pkg.repository.owner@ + seq!['/'] + pkg.repository.repo@
    &&& !pkg.repository.owner@.contains('/')
    &&& !pkg.repository.repo@.contains('/')
    &&& pkg.name@ == (match tp.name {
        Some(n) => n@,
        None => pkg.repository.repo@,
    })
    &&& Ok::<_, ConfigError>(pkg.platforms@) == crate::rules::spec_package_rules(
        tp.name,
        tp.platforms@,
    )
    &&& pkg.platforms.wf()
}

impl Config {
    /// Compile every package of the raw configuration, in order; the
    /// first bad package aborts the run with its error.
    pub fn try_from(value: TomlConfig) -> (r: Result<Config, ConfigError>)
        ensures
            r is Ok <==> forall|i: int|
                0 <= i < value.packages@.len() ==> spec_package_ok(#[trigger] value.packages@[i]),
            r matches Ok(cfg) ==> {
                &&& cfg.packages@.len() == value.packages@.len()
                &&& forall|i: int|
                    0 <= i < value.packages@.len() ==> spec_package_matches(
                        #[trigger] value.packages@[i],
                        cfg.packages@[i],
                    )
                &&& cfg.conda.channel@ == value.conda.channel@
            },
            r matches Err(e) ==> exists|i: int|
                0 <= i < value.packages@.len() && !spec_package_ok(#[trigger] value.packages@[i])
                    && e == spec_package_error(value.packages@[i]) && forall|j: int|
                    0 <= j < i ==> spec_package_ok(#[trigger] value.packages@[j]),
    {
        let ghost raw = value.packages@;
        let mut packages: Vec<Package> = Vec::new();
        let mut i: usize = 0;
        let n = value.packages.len();
        while i < n
            invariant
                raw == value.packages@,
                n == raw.len(),
                i <= n,
                packages@.len() == i,
                forall|k: int|
                    0 <= k < i ==> spec_package_ok(#[trigger] raw[k]) && spec_package_matches(
                        raw[k],
                        packages@[k],
                    ),
            decreases n - i,
        {
            match Package::try_from(&value.packages[i]) {
                Ok(pkg) => {
                    packages.push(pkg);
                },
                Err(e) => {
                    proof {
                        assert(!spec_package_ok(raw[i as int]) && e == spec_package_error(
                            raw[i as int],
                        ) && forall|j: int| 0 <= j < i ==> spec_package_ok(#[trigger] raw[j]));
                    }
                    return Err(e);
                },
            }
            i = i + 1;
        }
        Ok(Config { packages, conda: value.conda })
    }

    /// Every platform that any package's rules name, without duplicates.
    pub fn all_platforms(&self) -> (r: Vec<Platform>)
        ensures
            forall|p: Platform| #[trigger]
                r@.contains(p) <==> exists|i: int|
                    0 <= i < self.packages@.len() && tbl_contains(
                        (#[trigger] self.packages@[i]).platforms@,
                        p,
                    ),
            forall|i: int, j: int| 0 <= i < j < r@.len() ==> r@[i] != r@[j],
    {
        let mut r: Vec<Platform> = Vec::new();
        let mut i: usize = 0;
        while i < self.packages.len()
            invariant
                i <= self.packages@.len(),
                forall|p: Platform| #[trigger]
                    r@.contains(p) <==> exists|k: int|
                        0 <= k < i && tbl_contains((#[trigger] self.packages@[k]).platforms@, p),
                forall|a: int, b: int| 0 <= a < b < r@.len() ==> r@[a] != r@[b],
            decreases self.packages@.len() - i,
        {
            let entries = &self.packages[i].platforms.entries;
            let ghost rules = self.packages@[i as int].platforms@;
            let m = entries.len();
            let mut j: usize = 0;
            while j < m
                invariant
                    i < self.packages@.len(),
                    rules == self.packages@[i as int].platforms@,
                    entries@ == self.packages@[i as int].platforms.entries@,
                    m == rules.len(),
                    m == entries@.len(),
                    j <= m,
                    forall|p: Platform| #[trigger]
                        r@.contains(p) <==> ((exists|k: int|
                            0 <= k < i && tbl_contains(
                                (#[trigger] self.packages@[k]).platforms@,
                                p,
                            )) || (exists|l: int| 0 <= l < j && rules[l].0 == p)),
                    forall|a: int, b: int| 0 <= a < b < r@.len() ==> r@[a] != r@[b],
                decreases m - j,
            {
                let p = entries[j].0;
                proof {
                    assert(rules[j as int].0 == p);
                }
                if !platform_vec_contains(&r, p) {
                    let ghost old_r = r@;
                    r.push(p);
                    proof {
                        assert forall|q: Platform| #[trigger] r@.contains(q) implies ((exists|
                            k: int,
                        |
                            0 <= k < i && tbl_contains(
                                (#[trigger] self.packages@[k]).platforms@,
                                q,
                            )) || (exists|l: int| 0 <= l < j + 1 && rules[l].0 == q)) by {
                            let x = choose|x: int| 0 <= x < r@.len() && r@[x] == q;
                            if x < r@.len() - 1 {
                                assert(old_r[x] == q);
                                assert(old_r.contains(q));
                            } else {
                                assert(rules[j as int].0 == q);
                            }
                        }
                        assert forall|q: Platform|
                            ((exists|k: int|
                                0 <= k < i && tbl_contains(
                                    (#[trigger] self.packages@[k]).platforms@,
                                    q,
                                )) || (exists|l: int|
                                0 <= l < j + 1 && rules[l].0 == q)) implies #[trigger] r@.contains(
                            q,
                        ) by {
                            if (exists|k: int|
                                0 <= k < i && tbl_contains(
                                    (#[trigger] self.packages@[k]).platforms@,
                                    q,
                                )) || (exists|l: int| 0 <= l < j && rules[l].0 == q) {
                                assert(old_r.contains(q));
                                let x = choose|x: int| 0 <= x < old_r.len() && old_r[x] == q;
                                assert(r@[x] == q);
                            } else {
                                assert(rules[j as int].0 == q);
                                assert(q == p);
                                assert(r@[r@.len() - 1] == p);
                            }
                        }
                        assert forall|a: int, b: int|
                            0 <= a < b < r@.len() implies r@[a] != r@[b] by {
                            if b == r@.len() - 1 {
                                assert(old_r[a] == r@[a]);
                                if r@[a] == p {
                                    assert(old_r.contains(p));
                                }
                            }
                        }
                    }
                } else {
                    proof {
                        assert forall|q: Platform| #[trigger]
                            r@.contains(q) implies ((exists|k: int|
                            0 <= k < i && tbl_contains(
                                (#[trigger] self.packages@[k]).platforms@,
                                q,
                            )) || (exists|l: int| 0 <= l < j + 1 && rules[l].0 == q)) by {}
                        assert forall|q: Platform|
                            ((exists|k: int|
                                0 <= k < i && tbl_contains(
                                    (#[trigger] self.packages@[k]).platforms@,
                                    q,
                                )) || (exists|l: int|
                                0 <= l < j + 1 && rules[l].0 == q)) implies #[trigger] r@.contains(
                            q,
                        ) by {
                            if !((exists|k: int|
                                0 <= k < i && tbl_contains(
                                    (#[trigger] self.packages@[k]).platforms@,
                                    q,
                                )) || (exists|l: int| 0 <= l < j && rules[l].0 == q)) {
                                assert(q == p);
                            }
                        }
                    }
                }
                j = j + 1;
            }
            proof {
                assert forall|q: Platform| #[trigger]
                    r@.contains(q) implies (exists|k: int|
                    0 <= k < i + 1 && tbl_contains(
                        (#[trigger] self.packages@[k]).platforms@,
                        q,
                    )) by {
                    if exists|l: int| 0 <= l < rules.len() && rules[l].0 == q {
                        assert(tbl_contains(self.packages@[i as int].platforms@, q));
                    }
                }
                assert forall|q: Platform|
                    (exists|k: int|
                        0 <= k < i + 1 && tbl_contains(
                            (#[trigger] self.packages@[k]).platforms@,
                            q,
                        )) implies #[trigger] r@.contains(q) by {
                    let k = choose|k: int|
                        0 <= k < i + 1 && tbl_contains((#[trigger] self.packages@[k]).platforms@, q);
                    if k == i {
                        let l = choose|l: int| 0 <= l < rules.len() && rules[l].0 == q;
                        assert(rules[l].0 == q);
                    }
                }
            }
            i = i + 1;
        }
        r
    }
}

fn platform_vec_contains(v: &Vec<Platform>, p: Platform) -> (r: bool)
    ensures
        r == v@.contains(p),
{
    let mut i: usize = 0;
    while i < v.len()
        invariant
            i <= v@.len(),
            forall|k: int| 0 <= k < i ==> v@[k] != p,
        decreases v@.len() - i,
    {
        if v[i] == p {
            return true;
        }
        i = i + 1;
    }
    false
}

} // verus!
