//! Configuration-time errors. Each one aborts a run before any
//! per-release work starts.

use vstd::prelude::*;

use crate::platform::Platform;

verus! {

/// A configuration error that makes the run abort.
#[derive(Clone, Copy, Debug, PartialEq, Eq, Structural)]
pub enum ConfigError {
    /// The repository identifier has no '/' separating owner from repository.
    RepositoryMissingSeparator,
    /// The repository identifier has more than one '/'.
    RepositoryTooManySeparators,
    /// A prepend override names a platform with no default pattern list.
    PrependWithoutDefault(Platform),
    /// An override pattern for this platform does not compile.
    InvalidPattern(Platform),
    /// The channel URL does not point at the expected index host.
    NotPrefixChannel,
}

impl ConfigError {
    /// The message this error renders as.
    pub open spec fn spec_message(self) -> Seq<char> {
        match self {
            ConfigError::RepositoryMissingSeparator => {
                "can not parse into a repository: no '/' to separate the owner from the repository"@
            },
            ConfigError::RepositoryTooManySeparators => {
                "can not parse into a repository: too many '/'"@
            },
            ConfigError::PrependWithoutDefault(p) => {
                "can not prepend to default platform key "@ + p.spec_str()
            },
            ConfigError::InvalidPattern(p) => "failed to parse regex for platform "@ + p.spec_str(),
            ConfigError::NotPrefixChannel => {
                "not a prefix channel, can not generate a channel name from this URL"@
            },
        }
    }

    pub fn message(&self) -> (r: String)
        ensures
            r@ == self.spec_message(),
    {
        match self {
            ConfigError::RepositoryMissingSeparator => {
                "can not parse into a repository: no '/' to separate the owner from the repository".to_owned()
            },
            ConfigError::RepositoryTooManySeparators => {
                "can not parse into a repository: too many '/'".to_owned()
            },
            ConfigError::PrependWithoutDefault(p) => {
                let mut m = "can not prepend to default platform key ".to_owned();
                m.append(p.as_str());
                m
            },
            ConfigError::InvalidPattern(p) => {
                let mut m = "failed to parse regex for platform ".to_owned();
                m.append(p.as_str());
                m
            },
            ConfigError::NotPrefixChannel => {
                "not a prefix channel, can not generate a channel name from this URL".to_owned()
            },
        }
    }
}

} // verus!
