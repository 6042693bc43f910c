//! Repository identifiers of the form `owner/repo`.

use vstd::prelude::*;

use crate::errors::ConfigError;

verus! {

/// `s` holds at least two '/' characters.
pub open spec fn spec_has_two_slashes(s: Seq<char>) -> bool {
    exists|i: int, j: int| 0 <= i < j < s.len() && s[i] == '/' && s[j] == '/'
}

/// An `owner/repo` pair naming a source-code repository.
pub struct Repository {
    pub owner: String,
    pub repo: String,
}

impl Repository {
    /// Parse an identifier of the form `owner/repo`.
    ///
    /// Succeeds exactly when the identifier holds exactly one '/'; the
    /// owner is everything before it, the repository everything after.
    pub fn try_from(value: &str) -> (r: Result<Repository, ConfigError>)
        ensures
            r is Ok <==> (value@.contains('/') && !spec_has_two_slashes(value@)),
            r matches Ok(rep) ==> {
                &&& value@ == rep.owner@ + seq!['/'] + rep.repo@
                &&& !rep.owner@.contains('/')
                &&& !rep.repo@.contains('/')
            },
            r matches Err(e) ==> (e == ConfigError::RepositoryMissingSeparator <==> !value@.contains(
                '/',
            )),
            r matches Err(e) ==> (e == ConfigError::RepositoryTooManySeparators
                <==> spec_has_two_slashes(value@)),
    {
        let len = value.unicode_len();
        let mut i: usize = 0;
        let mut slash: Option<usize> = None;
        // find the first '/'
        loop
            invariant_except_break
                slash is None,
            invariant
                len == value@.len(),
                i <= len,
                forall|k: int| 0 <= k < i ==> value@[k] != '/',
            ensures
                match slash {
                    Some(s) => s < len && value@[s as int] == '/' && forall|k: int|
                        0 <= k < s ==> value@[k] != '/',
                    None => !value@.contains('/'),
                },
            decreases len - i,
        {
            if i == len {
                break;
            }
            if value.get_char(i) == '/' {
                slash = Some(i);
                break;
            }
            i = i + 1;
        }
        match slash {
            None => {
                proof {
                    assert(!spec_has_two_slashes(value@));
                }
                Err(ConfigError::RepositoryMissingSeparator)
            },
            Some(s) => {
                // look for a second '/'
                let mut j: usize = s + 1;
                let mut two: bool = false;
                loop
                    invariant_except_break
                        !two,
                    invariant
                        len == value@.len(),
                        s < len,
                        value@[s as int] == '/',
                        forall|k: int| 0 <= k < s ==> value@[k] != '/',
                        s < j <= len,
                        forall|k: int| s < k < j ==> value@[k] != '/',
                    ensures
                        two == spec_has_two_slashes(value@),
                    decreases len - j,
                {
                    if j == len {
                        proof {
                            assert(forall|k: int|
                                0 <= k < value@.len() && k != s ==> value@[k] != '/');
                            assert(!spec_has_two_slashes(value@)) by {
                                if spec_has_two_slashes(value@) {
                                    let (a, b) = choose|a: int, b: int|
                                        0 <= a < b < value@.len() && value@[a] == '/' && value@[b]
                                            == '/';
                                    assert(a == s || b == s);
                                }
                            }
                        }
                        break;
                    }
                    if value.get_char(j) == '/' {
                        proof {
                            assert(0 <= s < j < value@.len() && value@[s as int] == '/'
                                && value@[j as int] == '/');
                        }
                        two = true;
                        break;
                    }
                    j = j + 1;
                }
                if two {
                    Err(ConfigError::RepositoryTooManySeparators)
                } else {
                    let owner = value.substring_char(0, s);
                    let repo = value.substring_char(s + 1, len);
                    proof {
                        assert(value@ =~= owner@ + seq!['/'] + repo@);
                        assert(!owner@.contains('/')) by {
                            if owner@.contains('/') {
                                let k = choose|k: int|
                                    0 <= k < owner@.len() && owner@[k] == '/';
                                assert(value@[k] == '/');
                            }
                        }
                        assert(!repo@.contains('/')) by {
                            if repo@.contains('/') {
                                let k = choose|k: int| 0 <= k < repo@.len() && repo@[k] == '/';
                                assert(value@[s + 1 + k] == '/');
                            }
                        }
                        assert(value@.contains('/')) by {
                            assert(value@[s as int] == '/');
                        }
                    }
                    Ok(
                        Repository {
                            owner: owner.to_owned(),
                            repo: repo.to_owned(),
                        },
                    )
                }
            },
        }
    }
}

} // verus!
