//! The existing-package oracle: whether a (platform, package name,
//! version) triple is already present in the index snapshot.

use vstd::prelude::*;

use crate::platform::Platform;
use crate::version::{conda_canon, conda_version_valid, NormalizedVersion};

verus! {

/// The mathematical content of one index record.
pub struct RecordView {
    pub subdir: Seq<char>,
    pub name: Seq<char>,
    pub version: Seq<char>,
}

/// One record of the package-index snapshot: the index subdirectory (a
/// platform name), the normalized package name, and the version string.
pub struct ExistingRecord {
    pub subdir: String,
    pub name: String,
    pub version: String,
}

impl View for ExistingRecord {
    type V = RecordView;

    open spec fn view(&self) -> RecordView {
        RecordView { subdir: self.subdir@, name: self.name@, version: self.version@ }
    }
}

/// The views of a snapshot.
pub open spec fn records_view(records: Seq<ExistingRecord>) -> Seq<RecordView> {
    records.map_values(|r: ExistingRecord| r@)
}

/// The record names this platform, package and version: the subdirectory
/// equals the platform's index name, the names are equal, and the
/// version strings denote the same index version.
pub open spec fn spec_record_matches(
    rec: RecordView,
    platform: Platform,
    name: Seq<char>,
    version: Seq<char>,
) -> bool {
    &&& rec.subdir == platform.spec_str()
    &&& rec.name == name
    &&& conda_version_valid(rec.version)
    &&& conda_version_valid(version)
    &&& conda_canon(rec.version) == conda_canon(version)
}

/// Some record of the snapshot matches the triple.
pub open spec fn spec_already_packaged(
    records: Seq<RecordView>,
    platform: Platform,
    name: Seq<char>,
    version: Seq<char>,
) -> bool {
    exists|i: int|
        0 <= i < records.len() && spec_record_matches(#[trigger] records[i], platform, name, version)
}

/// Pure lookup into the snapshot: true exactly when some record matches
/// the triple. No record is consumed or changed.
pub fn is_already_packaged(
    records: &Vec<ExistingRecord>,
    platform: Platform,
    name: &str,
    version: &NormalizedVersion,
) -> (r: bool)
    ensures
        r == spec_already_packaged(records_view(records@), platform, name@, version.version_str()),
{
    let ghost rv = records_view(records@);
    let platform_str = platform.as_str();
    let mut i: usize = 0;
    while i < records.len()
        invariant
            rv == records_view(records@),
            platform_str@ == platform.spec_str(),
            i <= records@.len(),
            forall|k: int|
                0 <= k < i ==> !spec_record_matches(
                    #[trigger] rv[k],
                    platform,
                    name@,
                    version.version_str(),
                ),
        decreases records@.len() - i,
    {
        let rec = &records[i];
        proof {
            assert(rv[i as int] == rec@);
        }
        if crate::strutil::str_eq(rec.subdir.as_str(), platform_str) && crate::strutil::str_eq(
            rec.name.as_str(),
            name,
        ) && version.same_version_as(rec.version.as_str()) {
            return true;
        }
        i = i + 1;
    }
    false
}

} // verus!
