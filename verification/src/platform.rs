//! The closed set of platforms that assets are classified against.

use vstd::prelude::*;

verus! {

/// An OS/architecture/ABI identifier. It doubles as the key of the
/// package index: `as_str` yields the index subdirectory name.
///
/// `NoArch` marks platform-independent artifacts and `Unknown` marks
/// outcomes that could not be attributed to any platform (for example a
/// release whose tag does not parse as a version).
#[derive(Clone, Copy, Debug, PartialEq, Eq, Structural)]
pub enum Platform {
    Linux32,
    Linux64,
    LinuxAarch64,
    Osx64,
    OsxArm64,
    Win32,
    Win64,
    WinArm64,
    NoArch,
    Unknown,
}

impl Platform {
    /// The subdirectory name this platform uses in the package index.
    pub open spec fn spec_str(self) -> Seq<char> {
        match self {
            Platform::Linux32 => "linux-32"@,
            Platform::Linux64 => "linux-64"@,
            Platform::LinuxAarch64 => "linux-aarch64"@,
            Platform::Osx64 => "osx-64"@,
            Platform::OsxArm64 => "osx-arm64"@,
            Platform::Win32 => "win-32"@,
            Platform::Win64 => "win-64"@,
            Platform::WinArm64 => "win-arm64"@,
            Platform::NoArch => "noarch"@,
            Platform::Unknown => "unknown"@,
        }
    }

    pub fn as_str(&self) -> (r: &'static str)
        ensures
            r@ == self.spec_str(),
    {
        match self {
            Platform::Linux32 => "linux-32",
            Platform::Linux64 => "linux-64",
            Platform::LinuxAarch64 => "linux-aarch64",
            Platform::Osx64 => "osx-64",
            Platform::OsxArm64 => "osx-arm64",
            Platform::Win32 => "win-32",
            Platform::Win64 => "win-64",
            Platform::WinArm64 => "win-arm64",
            Platform::NoArch => "noarch",
            Platform::Unknown => "unknown",
        }
    }
}

} // verus!
