use octoconda::classify::{extract_digest, Asset};
use octoconda::engine::{
    evaluate_release, finish_plan, generate_packaging_data, PlanStep, Release, ReleasePlan,
};
use octoconda::index::ExistingRecord;
use octoconda::platform::Platform;
use octoconda::rules::{Package, StringOrList, TomlPackage};
use octoconda::status::Status;

fn asset(name: &str) -> Asset {
    Asset {
        name: name.to_string(),
        browser_download_url: format!("https://example.invalid/{name}"),
        digest: None,
    }
}

fn simple_package() -> Package {
    let toml = TomlPackage {
        name: None,
        repository: "owner/pkg".to_string(),
        platforms: Vec::new(),
    };
    Package::try_from(&toml).unwrap()
}

fn release(tag: &str, names: &[&str]) -> Release {
    Release {
        tag_name: tag.to_string(),
        assets: names.iter().map(|n| asset(n)).collect(),
    }
}

fn step_platform(step: &PlanStep) -> Platform {
    match step {
        PlanStep::Settled(o) => o.platform,
        PlanStep::Render { platform, .. } => *platform,
    }
}

#[test]
fn unparseable_tag_fails_the_release() {
    let package = simple_package();
    let rel = release("nightly", &["pkg-x86_64-unknown-linux-musl.tar.gz"]);
    let plan = evaluate_release(&package, &rel, &Vec::new());
    assert_eq!(plan.version.as_deref(), Some("nightly"));
    assert_eq!(plan.steps.len(), 1);
    match &plan.steps[0] {
        PlanStep::Settled(o) => {
            assert_eq!(o.platform, Platform::Unknown);
            assert!(matches!(o.status, Status::Failed));
            assert_eq!(o.message, "could not parse version number from github release");
        },
        PlanStep::Render { .. } => panic!("an unparseable tag must not render"),
    }
}

#[test]
fn already_indexed_artifact_is_skipped_without_rendering() {
    let package = simple_package();
    let rel = release("v1.2.3", &["pkg-1.2.3-x86_64-unknown-linux-musl.tar.gz"]);
    let records = vec![ExistingRecord {
        subdir: "linux-64".to_string(),
        name: "pkg".to_string(),
        version: "1.2.3".to_string(),
    }];
    let plan = evaluate_release(&package, &rel, &records);
    assert_eq!(plan.version.as_deref(), Some("1.2.3"));
    for step in &plan.steps {
        assert!(
            matches!(step, PlanStep::Settled(_)),
            "no renderer call may occur for an already-indexed artifact"
        );
    }
    let linux = plan
        .steps
        .iter()
        .find(|s| step_platform(s) == Platform::Linux64)
        .expect("the matched platform has an outcome");
    match linux {
        PlanStep::Settled(o) => {
            assert!(matches!(o.status, Status::Skipped));
            assert_eq!(o.message, "already in conda");
        },
        PlanStep::Render { .. } => unreachable!(),
    }
}

#[test]
fn new_artifact_is_rendered() {
    let package = simple_package();
    let rel = release("v1.2.3", &["pkg-1.2.3-x86_64-unknown-linux-musl.tar.gz"]);
    let plan = evaluate_release(&package, &rel, &Vec::new());
    let renders: Vec<&PlanStep> = plan
        .steps
        .iter()
        .filter(|s| matches!(s, PlanStep::Render { .. }))
        .collect();
    assert_eq!(renders.len(), 1);
    match renders[0] {
        PlanStep::Render { platform, asset_index } => {
            assert_eq!(*platform, Platform::Linux64);
            assert_eq!(*asset_index, 0);
        },
        PlanStep::Settled(_) => unreachable!(),
    }
}

#[test]
fn null_override_emits_no_outcome_for_the_platform() {
    let toml = TomlPackage {
        name: None,
        repository: "owner/pkg".to_string(),
        platforms: vec![(Platform::Win64, StringOrList::One("null".to_string()))],
    };
    let package = Package::try_from(&toml).unwrap();
    let rel = release(
        "v1.2.3",
        &[
            "pkg-1.2.3-x86_64-pc-windows-msvc.zip",
            "pkg-1.2.3-x86_64-unknown-linux-musl.tar.gz",
        ],
    );
    let plans = generate_packaging_data(&package, &vec![rel], &Vec::new());
    assert_eq!(plans.len(), 1);
    for step in &plans[0].steps {
        assert_ne!(
            step_platform(step),
            Platform::Win64,
            "no outcome of any kind may name a disabled platform"
        );
    }
}

#[test]
fn finish_plan_folds_render_results_into_outcomes() {
    let package = simple_package();
    let rel = release(
        "v1.2.3",
        &[
            "pkg-1.2.3-x86_64-unknown-linux-musl.tar.gz",
            "pkg-1.2.3-aarch64-apple-darwin.tar.gz",
        ],
    );
    let plan = evaluate_release(&package, &rel, &Vec::new());
    let mut render_ok = Vec::new();
    let mut seen_first_render = false;
    for step in &plan.steps {
        match step {
            PlanStep::Render { .. } => {
                // fail the first render, succeed the second
                render_ok.push(seen_first_render);
                seen_first_render = true;
            },
            PlanStep::Settled(_) => render_ok.push(true),
        }
    }
    let finished = finish_plan(&plan, &render_ok);
    assert_eq!(finished.version.as_deref(), Some("1.2.3"));
    assert_eq!(finished.status.len(), plan.steps.len());
    let failed: Vec<_> = finished
        .status
        .iter()
        .filter(|o| matches!(o.status, Status::Failed))
        .collect();
    assert_eq!(failed.len(), 1);
    assert_eq!(failed[0].message, "could not generate package recipe");
    let succeeded: Vec<_> = finished
        .status
        .iter()
        .filter(|o| matches!(o.status, Status::Succeeded))
        .collect();
    assert_eq!(succeeded.len(), 1);
    assert_eq!(succeeded[0].message, "ok");
}

#[test]
fn second_run_against_fed_index_only_skips() {
    let package = simple_package();
    let releases = vec![release(
        "v1.2.3",
        &[
            "pkg-1.2.3-x86_64-unknown-linux-musl.tar.gz",
            "pkg-1.2.3-aarch64-apple-darwin.tar.gz",
        ],
    )];

    // first run: render everything that is planned, and feed the index
    let plans = generate_packaging_data(&package, &releases, &Vec::new());
    let mut records: Vec<ExistingRecord> = Vec::new();
    for plan in &plans {
        for step in &plan.steps {
            if let PlanStep::Render { platform, .. } = step {
                records.push(ExistingRecord {
                    subdir: platform.as_str().to_string(),
                    name: "pkg".to_string(),
                    version: plan.version.clone().unwrap(),
                });
            }
        }
    }
    assert!(!records.is_empty());

    // second run: nothing to do anywhere
    let plans2: Vec<ReleasePlan> = generate_packaging_data(&package, &releases, &records);
    for plan in &plans2 {
        for step in &plan.steps {
            match step {
                PlanStep::Settled(o) => assert!(matches!(o.status, Status::Skipped)),
                PlanStep::Render { .. } => panic!("a second run must not render"),
            }
        }
    }
}

#[test]
fn digest_is_split_into_algorithm_and_value() {
    let mut a = asset("pkg.tar.gz");
    a.digest = Some("sha256:0123abcd".to_string());
    let (algo, value) = extract_digest(&a).unwrap();
    assert_eq!(algo, "sha256");
    assert_eq!(value, "0123abcd");

    let mut b = asset("pkg.tar.gz");
    b.digest = Some("md5:ffff".to_string());
    assert!(extract_digest(&b).is_none());

    assert!(extract_digest(&asset("pkg.tar.gz")).is_none());
}
