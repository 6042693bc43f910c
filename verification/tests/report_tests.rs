use octoconda::platform::Platform;
use octoconda::report::report_results;
use octoconda::status::{combine, PackagingStatus, Status, VersionPackagingStatus};

#[test]
fn combine_has_skipped_identity_and_failed_dominance() {
    assert_eq!(combine(Status::Skipped, Status::Skipped), Status::Skipped);
    assert_eq!(combine(Status::Skipped, Status::Succeeded), Status::Succeeded);
    assert_eq!(combine(Status::Succeeded, Status::Skipped), Status::Succeeded);
    assert_eq!(combine(Status::Failed, Status::Succeeded), Status::Failed);
    assert_eq!(combine(Status::Succeeded, Status::Failed), Status::Failed);
    assert_eq!(combine(Status::Skipped, Status::Failed), Status::Failed);
}

#[test]
fn combine_is_associative_on_all_inputs() {
    let all = [Status::Failed, Status::Succeeded, Status::Skipped];
    for a in all {
        for b in all {
            for c in all {
                assert_eq!(combine(combine(a, b), c), combine(a, combine(b, c)));
            }
        }
    }
}

#[test]
fn report_prints_versions_with_inline_skips() {
    let status = vec![(
        "foo".to_string(),
        vec![VersionPackagingStatus {
            version: Some("1.2.3".to_string()),
            status: vec![
                PackagingStatus::success(Platform::Linux64),
                PackagingStatus::skip_platform(Platform::Osx64),
            ],
        }],
    )];
    let report = report_results(&status);
    assert_eq!(
        report,
        "\u{2714} : foo (1 packages)\n    1.2.3 skipped: osx-64\n        \u{2714} : linux-64 ok\n"
    );
}

#[test]
fn report_rolls_failures_up_to_the_package_line() {
    let status = vec![(
        "bar".to_string(),
        vec![VersionPackagingStatus {
            version: Some("2.0".to_string()),
            status: vec![
                PackagingStatus::recipe_generation_failed(Platform::Win64),
                PackagingStatus::success(Platform::Linux64),
            ],
        }],
    )];
    let report = report_results(&status);
    assert_eq!(
        report,
        "\u{274c}: bar (1 packages)\n    2.0\n        \u{274c}: win-64 could not generate package recipe\n        \u{2714} : linux-64 ok\n"
    );
}

#[test]
fn report_of_only_skips_rolls_up_to_skipped() {
    let status = vec![(
        "baz".to_string(),
        vec![VersionPackagingStatus {
            version: Some("0.1".to_string()),
            status: vec![
                PackagingStatus::missing_platform(Platform::Win32),
                PackagingStatus::missing_platform(Platform::Win64),
            ],
        }],
    )];
    let report = report_results(&status);
    assert_eq!(report, "\u{2753}: baz (1 packages)\n    0.1 skipped: win-32, win-64\n");
}

#[test]
fn github_failure_is_one_unknown_outcome() {
    let outcomes = PackagingStatus::github_failed();
    assert_eq!(outcomes.len(), 1);
    assert_eq!(outcomes[0].platform, Platform::Unknown);
    assert!(matches!(outcomes[0].status, Status::Failed));
    assert_eq!(outcomes[0].message, "could not retrieve release information from Github");
}

#[test]
fn report_counts_versions_per_package() {
    let status = vec![(
        "multi".to_string(),
        vec![
            VersionPackagingStatus {
                version: Some("1.0".to_string()),
                status: vec![PackagingStatus::missing_platform(Platform::Linux64)],
            },
            VersionPackagingStatus {
                version: Some("1.1".to_string()),
                status: vec![PackagingStatus::missing_platform(Platform::Linux64)],
            },
        ],
    )];
    let report = report_results(&status);
    assert!(report.starts_with("\u{2753}: multi (2 packages)\n"));
}
