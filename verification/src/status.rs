//! Packaging outcomes and the priority-ordered status roll-up.

use vstd::prelude::*;

use crate::platform::Platform;

verus! {

/// The terminal state of one packaging decision.
#[derive(Clone, Copy, Debug, PartialEq, Eq, Structural)]
pub enum Status {
    Failed,
    Succeeded,
    Skipped,
}

impl Status {
    /// The glyph the report prints for this status.
    pub open spec fn spec_glyph(self) -> Seq<char> {
        match self {
            Status::Failed => "\u{274c}"@,
            Status::Succeeded => "\u{2714} "@,
            Status::Skipped => "\u{2753}"@,
        }
    }

    pub fn glyph(&self) -> (r: &'static str)
        ensures
            r@ == self.spec_glyph(),
    {
        match self {
            Status::Failed => "\u{274c}",
            Status::Succeeded => "\u{2714} ",
            Status::Skipped => "\u{2753}",
        }
    }
}

/// The two-element roll-up: `Failed` dominates everything, `Succeeded`
/// dominates `Skipped`, and `Skipped` is the identity.
pub open spec fn spec_combine(a: Status, b: Status) -> Status {
    if a is Failed || b is Failed {
        Status::Failed
    } else if a is Succeeded || b is Succeeded {
        Status::Succeeded
    } else {
        Status::Skipped
    }
}

pub fn combine(a: Status, b: Status) -> (r: Status)
    ensures
        r == spec_combine(a, b),
{
    if matches!(a, Status::Failed) || matches!(b, Status::Failed) {
        Status::Failed
    } else if matches!(a, Status::Succeeded) || matches!(b, Status::Succeeded) {
        Status::Succeeded
    } else {
        Status::Skipped
    }
}

/// Roll a sequence of statuses up into one, starting from the identity.
pub open spec fn spec_rollup(ss: Seq<Status>) -> Status
    decreases ss.len(),
{
    if ss.len() == 0 {
        Status::Skipped
    } else {
        spec_combine(spec_rollup(ss.drop_last()), ss.last())
    }
}

/// `Skipped` is a two-sided identity of the combine operation.
pub proof fn lemma_combine_skipped_identity(a: Status)
    ensures
        spec_combine(a, Status::Skipped) == a,
        spec_combine(Status::Skipped, a) == a,
{
}

/// The combine operation is associative.
pub proof fn lemma_combine_assoc(a: Status, b: Status, c: Status)
    ensures
        spec_combine(spec_combine(a, b), c) == spec_combine(a, spec_combine(b, c)),
{
}

/// The combine operation is commutative.
pub proof fn lemma_combine_comm(a: Status, b: Status)
    ensures
        spec_combine(a, b) == spec_combine(b, a),
{
}

/// The roll-up of a sequence depends only on which statuses occur in it:
/// `Failed` if any element is `Failed`, else `Succeeded` if any element
/// is `Succeeded`, else `Skipped`. In particular the result is invariant
/// under reordering.
pub proof fn lemma_rollup_characterization(ss: Seq<Status>)
    ensures
        spec_rollup(ss) == if ss.contains(Status::Failed) {
            Status::Failed
        } else if ss.contains(Status::Succeeded) {
            Status::Succeeded
        } else {
            Status::Skipped
        },
    decreases ss.len(),
{
    if ss.len() == 0 {
    } else {
        lemma_rollup_characterization(ss.drop_last());
        assert(ss.contains(Status::Failed) <==> (ss.drop_last().contains(Status::Failed)
            || ss.last() == Status::Failed)) by {
            if ss.drop_last().contains(Status::Failed) {
                let i = choose|i: int|
                    0 <= i < ss.drop_last().len() && ss.drop_last()[i] == Status::Failed;
                assert(ss[i] == Status::Failed);
            }
            if ss.contains(Status::Failed) {
                let i = choose|i: int| 0 <= i < ss.len() && ss[i] == Status::Failed;
                if i < ss.len() - 1 {
                    assert(ss.drop_last()[i] == Status::Failed);
                }
            }
        }
        assert(ss.contains(Status::Succeeded) <==> (ss.drop_last().contains(Status::Succeeded)
            || ss.last() == Status::Succeeded)) by {
            if ss.drop_last().contains(Status::Succeeded) {
                let i = choose|i: int|
                    0 <= i < ss.drop_last().len() && ss.drop_last()[i] == Status::Succeeded;
                assert(ss[i] == Status::Succeeded);
            }
            if ss.contains(Status::Succeeded) {
                let i = choose|i: int| 0 <= i < ss.len() && ss[i] == Status::Succeeded;
                if i < ss.len() - 1 {
                    assert(ss.drop_last()[i] == Status::Succeeded);
                }
            }
        }
    }
}

/// The mathematical content of one packaging outcome.
pub struct OutcomeView {
    pub platform: Platform,
    pub status: Status,
    pub message: Seq<char>,
}

/// The outcome of one (release, platform) packaging decision.
pub struct PackagingStatus {
    pub platform: Platform,
    pub status: Status,
    pub message: String,
}

impl View for PackagingStatus {
    type V = OutcomeView;

    open spec fn view(&self) -> OutcomeView {
        OutcomeView { platform: self.platform, status: self.status, message: self.message@ }
    }
}

/// The outcome recorded when the release source cannot be reached.
pub open spec fn spec_github_failed() -> OutcomeView {
    OutcomeView {
        platform: Platform::Unknown,
        status: Status::Failed,
        message: "could not retrieve release information from Github"@,
    }
}

/// The outcome recorded when rendering a recipe fails.
pub open spec fn spec_recipe_generation_failed(platform: Platform) -> OutcomeView {
    OutcomeView { platform, status: Status::Failed, message: "could not generate package recipe"@ }
}

/// The outcome recorded when a release tag does not parse as a version.
pub open spec fn spec_invalid_version() -> OutcomeView {
    OutcomeView {
        platform: Platform::Unknown,
        status: Status::Failed,
        message: "could not parse version number from github release"@,
    }
}

/// The outcome recorded when the artifact is already in the index.
pub open spec fn spec_skip_platform(platform: Platform) -> OutcomeView {
    OutcomeView { platform, status: Status::Skipped, message: "already in conda"@ }
}

/// The outcome recorded when no asset matches the platform's patterns.
pub open spec fn spec_missing_platform(platform: Platform) -> OutcomeView {
    OutcomeView { platform, status: Status::Skipped, message: "platform file not found"@ }
}

/// The outcome recorded when a recipe was rendered.
pub open spec fn spec_success(platform: Platform) -> OutcomeView {
    OutcomeView { platform, status: Status::Succeeded, message: "ok"@ }
}

impl PackagingStatus {
    pub fn github_failed() -> (r: Vec<PackagingStatus>)
        ensures
            r@.len() == 1,
            r@[0]@ == spec_github_failed(),
    {
        let mut r: Vec<PackagingStatus> = Vec::new();
        r.push(
            PackagingStatus {
                platform: Platform::Unknown,
                status: Status::Failed,
                message: "could not retrieve release information from Github".to_owned(),
            },
        );
        r
    }

    pub fn recipe_generation_failed(platform: Platform) -> (r: PackagingStatus)
        ensures
            r@ == spec_recipe_generation_failed(platform),
    {
        PackagingStatus {
            platform,
            status: Status::Failed,
            message: "could not generate package recipe".to_owned(),
        }
    }

    pub fn invalid_version() -> (r: PackagingStatus)
        ensures
            r@ == spec_invalid_version(),
    {
        PackagingStatus {
            platform: Platform::Unknown,
            status: Status::Failed,
            message: "could not parse version number from github release".to_owned(),
        }
    }

    pub fn skip_platform(platform: Platform) -> (r: PackagingStatus)
        ensures
            r@ == spec_skip_platform(platform),
    {
        PackagingStatus { platform, status: Status::Skipped, message: "already in conda".to_owned() }
    }

    pub fn missing_platform(platform: Platform) -> (r: PackagingStatus)
        ensures
            r@ == spec_missing_platform(platform),
    {
        PackagingStatus {
            platform,
            status: Status::Skipped,
            message: "platform file not found".to_owned(),
        }
    }

    pub fn success(platform: Platform) -> (r: PackagingStatus)
        ensures
            r@ == spec_success(platform),
    {
        PackagingStatus { platform, status: Status::Succeeded, message: "ok".to_owned() }
    }
}

/// The mathematical content of the outcomes of one release.
pub struct VersionOutcomesView {
    pub version: Option<Seq<char>>,
    pub status: Seq<OutcomeView>,
}

/// The outcomes of one release, under its version string.
pub struct VersionPackagingStatus {
    pub version: Option<String>,
    pub status: Vec<PackagingStatus>,
}

impl View for VersionPackagingStatus {
    type V = VersionOutcomesView;

    open spec fn view(&self) -> VersionOutcomesView {
        VersionOutcomesView {
            version: match self.version {
                Some(v) => Some(v@),
                None => None,
            },
            status: self.status@.map_values(|s: PackagingStatus| s@),
        }
    }
}

} // verus!
