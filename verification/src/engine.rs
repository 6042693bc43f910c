//! The per-release packaging engine: normalize the tag, classify the
//! assets, consult the index snapshot, and plan one step per platform.
//!
//! Rendering a recipe is the caller's job (it writes files): the engine
//! emits a plan whose `Render` steps the caller carries out, and
//! `finish_plan` folds the render results back into outcomes.

use vstd::prelude::*;

use crate::classify::{asset_names, match_platform, spec_match_names, Asset, AssetView};
use crate::index::{records_view, spec_already_packaged, ExistingRecord, RecordView};
use crate::platform::Platform;
use crate::rules::{tbl_contains, Package};
use crate::status::{
    spec_invalid_version, spec_missing_platform, spec_recipe_generation_failed, spec_skip_platform,
    spec_success, OutcomeView, PackagingStatus, Status, VersionPackagingStatus,
};
use crate::version::{spec_strip_v, spec_version_ok, NormalizedVersion};

verus! {

/// The mathematical content of a release.
pub struct ReleaseView {
    pub tag_name: Seq<char>,
    pub assets: Seq<AssetView>,
}

/// One published release: its tag and its ordered asset list.
pub struct Release {
    pub tag_name: String,
    pub assets: Vec<Asset>,
}

impl View for Release {
    type V = ReleaseView;

    open spec fn view(&self) -> ReleaseView {
        ReleaseView {
            tag_name: self.tag_name@,
            assets: self.assets@.map_values(|a: Asset| a@),
        }
    }
}

/// The mathematical content of one plan step.
pub enum PlanStepView {
    Settled(OutcomeView),
    Render { platform: Platform, asset_index: int },
}

/// One step of a release plan: either an outcome that is already settled
/// (skipped, missing, or failed), or a request to render a recipe for
/// the platform from the indexed asset.
pub enum PlanStep {
    Settled(PackagingStatus),
    Render { platform: Platform, asset_index: usize },
}

impl View for PlanStep {
    type V = PlanStepView;

    open spec fn view(&self) -> PlanStepView {
        match self {
            PlanStep::Settled(o) => PlanStepView::Settled(o@),
            PlanStep::Render { platform, asset_index } => PlanStepView::Render {
                platform: *platform,
                asset_index: *asset_index as int,
            },
        }
    }
}

/// The mathematical content of a release plan.
pub struct PlanView {
    pub version: Option<Seq<char>>,
    pub steps: Seq<PlanStepView>,
}

/// The plan for one release: its normalized version string and one step
/// per decision point.
pub struct ReleasePlan {
    pub version: Option<String>,
    pub steps: Vec<PlanStep>,
}

impl View for ReleasePlan {
    type V = PlanView;

    open spec fn view(&self) -> PlanView {
        PlanView {
            version: match self.version {
                Some(v) => Some(v@),
                None => None,
            },
            steps: self.steps@.map_values(|s: PlanStep| s@),
        }
    }
}

/// The steps for the platforms whose patterns matched an asset, in rule
/// order: a skip where the index already holds the artifact, a render
/// request otherwise.
pub open spec fn spec_matched_steps(
    rules: Seq<(Platform, Seq<Seq<char>>)>,
    names: Seq<Seq<char>>,
    pkg: Seq<char>,
    ver: Seq<char>,
    records: Seq<RecordView>,
) -> Seq<PlanStepView>
    decreases rules.len(),
{
    if rules.len() == 0 {
        Seq::empty()
    } else {
        let rest = spec_matched_steps(rules.drop_last(), names, pkg, ver, records);
        let e = rules.last();
        match spec_match_names(e.1, names) {
            Some(i) => rest.push(
                if spec_already_packaged(records, e.0, pkg, ver) {
                    PlanStepView::Settled(spec_skip_platform(e.0))
                } else {
                    PlanStepView::Render { platform: e.0, asset_index: i }
                },
            ),
            None => rest,
        }
    }
}

/// The steps for the platforms whose patterns matched nothing, in rule
/// order: each is settled as "platform file not found".
pub open spec fn spec_missing_steps(
    rules: Seq<(Platform, Seq<Seq<char>>)>,
    names: Seq<Seq<char>>,
) -> Seq<PlanStepView>
    decreases rules.len(),
{
    if rules.len() == 0 {
        Seq::empty()
    } else {
        let rest = spec_missing_steps(rules.drop_last(), names);
        let e = rules.last();
        if spec_match_names(e.1, names) is None {
            rest.push(PlanStepView::Settled(spec_missing_platform(e.0)))
        } else {
            rest
        }
    }
}

/// The plan of one release: a tag that does not normalize yields the
/// single settled "could not parse version" outcome; otherwise the
/// matched platforms' steps followed by the unmatched platforms' steps.
pub open spec fn spec_release_plan(
    rules: Seq<(Platform, Seq<Seq<char>>)>,
    pkg: Seq<char>,
    tag: Seq<char>,
    names: Seq<Seq<char>>,
    records: Seq<RecordView>,
) -> PlanView {
    let v = spec_strip_v(tag);
    if !spec_version_ok(v) {
        PlanView { version: Some(v), steps: seq![PlanStepView::Settled(spec_invalid_version())] }
    } else {
        PlanView {
            version: Some(v),
            steps: spec_matched_steps(rules, names, pkg, v, records) + spec_missing_steps(
                rules,
                names,
            ),
        }
    }
}

/// Plan one release against a package's rules and the index snapshot.
pub fn evaluate_release(
    package: &Package,
    release: &Release,
    repo_packages: &Vec<ExistingRecord>,
) -> (r: ReleasePlan)
    ensures
        r@ == spec_release_plan(
            package.platforms@,
            package.name@,
            release.tag_name@,
            asset_names(release.assets@),
            records_view(repo_packages@),
        ),
{
    let ghost rules = package.platforms@;
    let ghost names = asset_names(release.assets@);
    let ghost records = records_view(repo_packages@);
    let stripped = crate::version::stripped_tag(release.tag_name.as_str());
    match NormalizedVersion::normalize_tag(release.tag_name.as_str()) {
        None => {
            let mut steps: Vec<PlanStep> = Vec::new();
            steps.push(PlanStep::Settled(PackagingStatus::invalid_version()));
            let r = ReleasePlan { version: Some(stripped.to_owned()), steps };
            proof {
                assert(r@.steps =~= seq![PlanStepView::Settled(spec_invalid_version())]);
            }
            r
        },
        Some(nv) => {
            let ghost ver = spec_strip_v(release.tag_name@);
            let mut matched: Vec<PlanStep> = Vec::new();
            let mut missing: Vec<PlanStep> = Vec::new();
            let n = package.platforms.entries.len();
            let mut i: usize = 0;
            while i < n
                invariant
                    rules == package.platforms@,
                    names == asset_names(release.assets@),
                    records == records_view(repo_packages@),
                    nv.wf(),
                    nv.version_str() == ver,
                    n == package.platforms.entries@.len(),
                    n == rules.len(),
                    i <= n,
                    matched@.map_values(|s: PlanStep| s@) == spec_matched_steps(
                        rules.subrange(0, i as int),
                        names,
                        package.name@,
                        ver,
                        records,
                    ),
                    missing@.map_values(|s: PlanStep| s@) == spec_missing_steps(
                        rules.subrange(0, i as int),
                        names,
                    ),
                decreases n - i,
            {
                let ghost pre = rules.subrange(0, i as int);
                let ghost cur = rules.subrange(0, i + 1);
                proof {
                    assert(cur.drop_last() =~= pre);
                    assert(cur.last() == rules[i as int]);
                    assert(rules[i as int] == (
                        package.platforms.entries@[i as int].0,
                        crate::classify::patterns_view(package.platforms.entries@[i as int].1@),
                    ));
                }
                let e = &package.platforms.entries[i];
                match match_platform(&e.1, &release.assets) {
                    Some(ai) => {
                        if crate::index::is_already_packaged(
                            repo_packages,
                            e.0,
                            package.name.as_str(),
                            &nv,
                        ) {
                            matched.push(PlanStep::Settled(PackagingStatus::skip_platform(e.0)));
                        } else {
                            matched.push(PlanStep::Render { platform: e.0, asset_index: ai });
                        }
                        proof {
                            assert(matched@.map_values(|s: PlanStep| s@) =~= spec_matched_steps(
                                cur,
                                names,
                                package.name@,
                                ver,
                                records,
                            ));
                            assert(missing@.map_values(|s: PlanStep| s@) =~= spec_missing_steps(
                                cur,
                                names,
                            ));
                        }
                    },
                    None => {
                        missing.push(PlanStep::Settled(PackagingStatus::missing_platform(e.0)));
                        proof {
                            assert(matched@.map_values(|s: PlanStep| s@) =~= spec_matched_steps(
                                cur,
                                names,
                                package.name@,
                                ver,
                                records,
                            ));
                            assert(missing@.map_values(|s: PlanStep| s@) =~= spec_missing_steps(
                                cur,
                                names,
                            ));
                        }
                    },
                }
                i = i + 1;
            }
            proof {
                assert(rules.subrange(0, rules.len() as int) =~= rules);
            }
            let version = nv.as_str().to_owned();
            let mut steps = matched;
            let ghost matched_view = steps@.map_values(|s: PlanStep| s@);
            let ghost missing_view = missing@.map_values(|s: PlanStep| s@);
            steps.append(&mut missing);
            proof {
                assert(steps@.map_values(|s: PlanStep| s@) =~= matched_view + missing_view);
            }
            ReleasePlan { version: Some(version), steps }
        },
    }
}

/// Plan every release of a package: one plan per release, in release
/// order, each the pure function of the rules, the release and the
/// snapshot.
pub fn generate_packaging_data(
    package: &Package,
    releases: &Vec<Release>,
    repo_packages: &Vec<ExistingRecord>,
) -> (r: Vec<ReleasePlan>)
    ensures
        r@.len() == releases@.len(),
        forall|i: int|
            0 <= i < releases@.len() ==> (#[trigger] r@[i])@ == spec_release_plan(
                package.platforms@,
                package.name@,
                releases@[i].tag_name@,
                asset_names(releases@[i].assets@),
                records_view(repo_packages@),
            ),
{
    let mut r: Vec<ReleasePlan> = Vec::new();
    let mut i: usize = 0;
    while i < releases.len()
        invariant
            i <= releases@.len(),
            r@.len() == i,
            forall|k: int|
                0 <= k < i ==> (#[trigger] r@[k])@ == spec_release_plan(
                    package.platforms@,
                    package.name@,
                    releases@[k].tag_name@,
                    asset_names(releases@[k].assets@),
                    records_view(repo_packages@),
                ),
        decreases releases@.len() - i,
    {
        let plan = evaluate_release(package, &releases[i], repo_packages);
        r.push(plan);
        i = i + 1;
    }
    r
}

/// The outcomes of a finished plan: settled steps keep their outcome; a
/// render step becomes "ok" where the render succeeded and "could not
/// generate package recipe" where it failed.
pub open spec fn spec_finish_steps(steps: Seq<PlanStepView>, oks: Seq<bool>) -> Seq<OutcomeView> {
    Seq::new(
        steps.len(),
        |i: int|
            match steps[i] {
                PlanStepView::Settled(o) => o,
                PlanStepView::Render { platform, asset_index } => if oks[i] {
                    spec_success(platform)
                } else {
                    spec_recipe_generation_failed(platform)
                },
            },
    )
}

fn clone_status(s: &PackagingStatus) -> (r: PackagingStatus)
    ensures
        r@ == s@,
{
    PackagingStatus { platform: s.platform, status: s.status, message: s.message.clone() }
}

/// Fold the render results back into the plan: `render_ok[i]` is read
/// only where step `i` is a render request.
pub fn finish_plan(plan: &ReleasePlan, render_ok: &Vec<bool>) -> (r: VersionPackagingStatus)
    requires
        render_ok@.len() == plan.steps@.len(),
    ensures
        r@.version == plan@.version,
        r@.status == spec_finish_steps(plan@.steps, render_ok@),
{
    let version: Option<String> = match &plan.version {
        Some(v) => Some(v.clone()),
        None => None,
    };
    let mut status: Vec<PackagingStatus> = Vec::new();
    let mut i: usize = 0;
    while i < plan.steps.len()
        invariant
            render_ok@.len() == plan.steps@.len(),
            i <= plan.steps@.len(),
            status@.len() == i,
            forall|k: int|
                0 <= k < i ==> (#[trigger] status@[k])@ == spec_finish_steps(
                    plan@.steps,
                    render_ok@,
                )[k],
        decreases plan.steps@.len() - i,
    {
        match &plan.steps[i] {
            PlanStep::Settled(o) => {
                status.push(clone_status(o));
            },
            PlanStep::Render { platform, asset_index: _ } => {
                if render_ok[i] {
                    status.push(PackagingStatus::success(*platform));
                } else {
                    status.push(PackagingStatus::recipe_generation_failed(*platform));
                }
            },
        }
        proof {
            assert(plan@.steps[i as int] == plan.steps@[i as int]@);
        }
        i = i + 1;
    }
    let r = VersionPackagingStatus { version, status };
    proof {
        assert(r@.status =~= spec_finish_steps(plan@.steps, render_ok@));
    }
    r
}

/// The platform an outcome or render step is attributed to.
pub open spec fn spec_step_platform(s: PlanStepView) -> Platform {
    match s {
        PlanStepView::Settled(o) => o.platform,
        PlanStepView::Render { platform, asset_index } => platform,
    }
}

/// Every step of a matched-steps sequence names a platform of the rules.
proof fn lemma_matched_steps_platforms(
    rules: Seq<(Platform, Seq<Seq<char>>)>,
    names: Seq<Seq<char>>,
    pkg: Seq<char>,
    ver: Seq<char>,
    records: Seq<RecordView>,
)
    ensures
        forall|j: int|
            0 <= j < spec_matched_steps(rules, names, pkg, ver, records).len()
                ==> tbl_contains(rules, spec_step_platform(
                #[trigger] spec_matched_steps(rules, names, pkg, ver, records)[j],
            )),
    decreases rules.len(),
{
    if rules.len() == 0 {
    } else {
        let dl = rules.drop_last();
        lemma_matched_steps_platforms(dl, names, pkg, ver, records);
        let rest = spec_matched_steps(dl, names, pkg, ver, records);
        let all = spec_matched_steps(rules, names, pkg, ver, records);
        assert forall|j: int| 0 <= j < all.len() implies tbl_contains(
            rules,
            spec_step_platform(#[trigger] all[j]),
        ) by {
            if j < rest.len() {
                assert(all[j] == rest[j]);
                let p = spec_step_platform(rest[j]);
                let k = choose|k: int| 0 <= k < dl.len() && dl[k].0 == p;
                assert(rules[k].0 == p);
            } else {
                assert(rules[rules.len() - 1].0 == spec_step_platform(all[j]));
            }
        }
    }
}

/// Every step of a missing-steps sequence names a platform of the rules.
proof fn lemma_missing_steps_platforms(rules: Seq<(Platform, Seq<Seq<char>>)>, names: Seq<Seq<char>>)
    ensures
        forall|j: int|
            0 <= j < spec_missing_steps(rules, names).len() ==> tbl_contains(
                rules,
                spec_step_platform(#[trigger] spec_missing_steps(rules, names)[j]),
            ),
    decreases rules.len(),
{
    if rules.len() == 0 {
    } else {
        let dl = rules.drop_last();
        lemma_missing_steps_platforms(dl, names);
        let rest = spec_missing_steps(dl, names);
        let all = spec_missing_steps(rules, names);
        assert forall|j: int| 0 <= j < all.len() implies tbl_contains(
            rules,
            spec_step_platform(#[trigger] all[j]),
        ) by {
            if j < rest.len() {
                assert(all[j] == rest[j]);
                let p = spec_step_platform(rest[j]);
                let k = choose|k: int| 0 <= k < dl.len() && dl[k].0 == p;
                assert(rules[k].0 == p);
            } else {
                assert(rules[rules.len() - 1].0 == spec_step_platform(all[j]));
            }
        }
    }
}

/// A platform absent from the rule set gets no outcome of any kind: no
/// step of any release plan names it. (An unparseable tag's single
/// failure outcome is attributed to `Unknown`.)
pub proof fn lemma_no_outcome_for_absent_platform(
    rules: Seq<(Platform, Seq<Seq<char>>)>,
    pkg: Seq<char>,
    tag: Seq<char>,
    names: Seq<Seq<char>>,
    records: Seq<RecordView>,
    p: Platform,
)
    requires
        !tbl_contains(rules, p),
        p != Platform::Unknown,
    ensures
        forall|j: int|
            0 <= j < spec_release_plan(rules, pkg, tag, names, records).steps.len()
                ==> spec_step_platform(
                #[trigger] spec_release_plan(rules, pkg, tag, names, records).steps[j],
            ) != p,
{
    let plan = spec_release_plan(rules, pkg, tag, names, records);
    let v = spec_strip_v(tag);
    if !spec_version_ok(v) {
        assert(plan.steps.len() == 1);
        assert(spec_step_platform(plan.steps[0]) == Platform::Unknown);
    } else {
        lemma_matched_steps_platforms(rules, names, pkg, v, records);
        lemma_missing_steps_platforms(rules, names);
        let ms = spec_matched_steps(rules, names, pkg, v, records);
        let xs = spec_missing_steps(rules, names);
        assert forall|j: int| 0 <= j < plan.steps.len() implies spec_step_platform(
            #[trigger] plan.steps[j],
        ) != p by {
            if j < ms.len() {
                assert(plan.steps[j] == ms[j]);
            } else {
                assert(plan.steps[j] == xs[j - ms.len()]);
            }
        }
    }
}

/// A platform disabled by a `"null"` override gets no outcome of any
/// kind for that package: compile the configuration, plan any release
/// against any snapshot — no step names the platform. (The `Unknown`
/// platform is excluded: a release whose tag does not normalize gets its
/// single failure outcome under `Unknown`, whatever the overrides say.)
pub proof fn lemma_null_override_no_outcome(
    name: Option<String>,
    ovr: Seq<(Platform, crate::rules::StringOrList)>,
    k: int,
    pkg: Seq<char>,
    tag: Seq<char>,
    names: Seq<Seq<char>>,
    records: Seq<RecordView>,
)
    requires
        0 <= k < ovr.len(),
        crate::rules::spec_is_null(ovr[k].1),
        forall|i: int, j: int|
            0 <= i < j < ovr.len() ==> (#[trigger] ovr[i]).0 != (#[trigger] ovr[j]).0,
        ovr[k].0 != Platform::Unknown,
    ensures
        crate::rules::spec_package_rules(name, ovr) matches Ok(rules) ==> forall|j: int|
            0 <= j < spec_release_plan(rules, pkg, tag, names, records).steps.len()
                ==> spec_step_platform(
                #[trigger] spec_release_plan(rules, pkg, tag, names, records).steps[j],
            ) != ovr[k].0,
{
    crate::rules::lemma_null_override_removes_platform(name, ovr, k);
    match crate::rules::spec_package_rules(name, ovr) {
        Ok(rules) => {
            lemma_no_outcome_for_absent_platform(rules, pkg, tag, names, records, ovr[k].0);
        },
        Err(_) => {},
    }
}

/// Every matched step is a skip when the index already holds every
/// matched artifact.
proof fn lemma_matched_steps_all_skipped(
    rules: Seq<(Platform, Seq<Seq<char>>)>,
    names: Seq<Seq<char>>,
    pkg: Seq<char>,
    ver: Seq<char>,
    records: Seq<RecordView>,
)
    requires
        forall|k: int|
            #![trigger rules[k]]
            0 <= k < rules.len() && spec_match_names(rules[k].1, names) is Some
                ==> spec_already_packaged(records, rules[k].0, pkg, ver),
    ensures
        forall|j: int|
            0 <= j < spec_matched_steps(rules, names, pkg, ver, records).len() ==> ((
            #[trigger] spec_matched_steps(rules, names, pkg, ver, records)[j]
            ) matches PlanStepView::Settled(o) && o.status == Status::Skipped),
    decreases rules.len(),
{
    if rules.len() == 0 {
    } else {
        let dl = rules.drop_last();
        assert(forall|k: int|
            #![trigger dl[k]]
            0 <= k < dl.len() ==> dl[k] == rules[k]);
        lemma_matched_steps_all_skipped(dl, names, pkg, ver, records);
        let rest = spec_matched_steps(dl, names, pkg, ver, records);
        let all = spec_matched_steps(rules, names, pkg, ver, records);
        assert forall|j: int| 0 <= j < all.len() implies (#[trigger] all[j]) matches
            PlanStepView::Settled(o) && o.status == Status::Skipped by {
            if j < rest.len() {
                assert(all[j] == rest[j]);
            } else {
                assert(rules[rules.len() - 1] == rules.last());
            }
        }
    }
}

/// Every missing step is a skip.
proof fn lemma_missing_steps_all_skipped(
    rules: Seq<(Platform, Seq<Seq<char>>)>,
    names: Seq<Seq<char>>,
)
    ensures
        forall|j: int|
            0 <= j < spec_missing_steps(rules, names).len() ==> ((
            #[trigger] spec_missing_steps(rules, names)[j]
            ) matches PlanStepView::Settled(o) && o.status == Status::Skipped),
    decreases rules.len(),
{
    if rules.len() == 0 {
    } else {
        let dl = rules.drop_last();
        lemma_missing_steps_all_skipped(dl, names);
        let rest = spec_missing_steps(dl, names);
        let all = spec_missing_steps(rules, names);
        assert forall|j: int| 0 <= j < all.len() implies (#[trigger] all[j]) matches
            PlanStepView::Settled(o) && o.status == Status::Skipped by {
            if j < rest.len() {
                assert(all[j] == rest[j]);
            }
        }
    }
}

/// Idempotence: planning a release whose tag normalizes, against a
/// snapshot that already holds every artifact the classifier matches for
/// it (as a second run against an index fed by the first run does),
/// settles every step as Skipped — nothing is rendered, nothing fails.
pub proof fn lemma_second_run_only_skipped(
    rules: Seq<(Platform, Seq<Seq<char>>)>,
    pkg: Seq<char>,
    tag: Seq<char>,
    names: Seq<Seq<char>>,
    records: Seq<RecordView>,
)
    requires
        spec_version_ok(spec_strip_v(tag)),
        forall|k: int|
            #![trigger rules[k]]
            0 <= k < rules.len() && spec_match_names(rules[k].1, names) is Some
                ==> spec_already_packaged(records, rules[k].0, pkg, spec_strip_v(tag)),
    ensures
        forall|j: int|
            0 <= j < spec_release_plan(rules, pkg, tag, names, records).steps.len() ==> ((
            #[trigger] spec_release_plan(rules, pkg, tag, names, records).steps[j]
            ) matches PlanStepView::Settled(o) && o.status == Status::Skipped),
{
    let v = spec_strip_v(tag);
    let plan = spec_release_plan(rules, pkg, tag, names, records);
    lemma_matched_steps_all_skipped(rules, names, pkg, v, records);
    lemma_missing_steps_all_skipped(rules, names);
    let ms = spec_matched_steps(rules, names, pkg, v, records);
    let xs = spec_missing_steps(rules, names);
    assert forall|j: int| 0 <= j < plan.steps.len() implies (#[trigger] plan.steps[j]) matches
        PlanStepView::Settled(o) && o.status == Status::Skipped by {
        if j < ms.len() {
            assert(plan.steps[j] == ms[j]);
        } else {
            assert(plan.steps[j] == xs[j - ms.len()]);
        }
    }
}

} // verus!
