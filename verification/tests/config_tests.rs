use octoconda::channel::Conda;
use octoconda::config::{Config, TomlConfig};
use octoconda::errors::ConfigError;
use octoconda::platform::Platform;
use octoconda::repo::Repository;
use octoconda::rules::{Package, StringOrList, TomlPackage};

fn toml_package(repository: &str, platforms: Vec<(Platform, StringOrList)>) -> TomlPackage {
    TomlPackage { name: None, repository: repository.to_string(), platforms }
}

#[test]
fn repository_parses_owner_and_repo() {
    let r = Repository::try_from("tobias/octoconda").unwrap();
    assert_eq!(r.owner, "tobias");
    assert_eq!(r.repo, "octoconda");
}

#[test]
fn repository_without_separator_is_rejected() {
    let e = match Repository::try_from("octoconda") {
        Err(e) => e,
        Ok(_) => panic!("expected an error"),
    };
    assert_eq!(e, ConfigError::RepositoryMissingSeparator);
}

#[test]
fn repository_with_two_separators_is_rejected() {
    let e = match Repository::try_from("a/b/c") {
        Err(e) => e,
        Ok(_) => panic!("expected an error"),
    };
    assert_eq!(e, ConfigError::RepositoryTooManySeparators);
}

#[test]
fn package_without_override_keeps_the_default_table() {
    let plain = Package::try_from(&toml_package("o/r", Vec::new())).unwrap();
    // the default table holds eight platforms, each with its defaults
    assert_eq!(plain.platforms.entries.len(), 8);
    let with_unrelated_override = Package::try_from(&toml_package(
        "o/r",
        vec![(Platform::Win32, StringOrList::One("null".to_string()))],
    ))
    .unwrap();
    let linux_plain = plain
        .platforms
        .entries
        .iter()
        .find(|e| e.0 == Platform::Linux64)
        .unwrap();
    let linux_overridden = with_unrelated_override
        .platforms
        .entries
        .iter()
        .find(|e| e.0 == Platform::Linux64)
        .unwrap();
    assert_eq!(linux_plain.1.len(), linux_overridden.1.len());
    for (a, b) in linux_plain.1.iter().zip(linux_overridden.1.iter()) {
        assert_eq!(a.source_str(), b.source_str());
    }
}

#[test]
fn null_override_removes_the_platform() {
    let package = Package::try_from(&toml_package(
        "o/r",
        vec![(Platform::Win64, StringOrList::One("null".to_string()))],
    ))
    .unwrap();
    assert!(package.platforms.entries.iter().all(|e| e.0 != Platform::Win64));
    assert_eq!(package.platforms.entries.len(), 7);
}

#[test]
fn string_override_replaces_the_pattern_list() {
    let package = Package::try_from(&toml_package(
        "o/r",
        vec![(Platform::Linux64, StringOrList::One("-mine\\.tar\\.gz$".to_string()))],
    ))
    .unwrap();
    let linux = package
        .platforms
        .entries
        .iter()
        .find(|e| e.0 == Platform::Linux64)
        .unwrap();
    assert_eq!(linux.1.len(), 1);
    assert_eq!(linux.1[0].source_str(), "-mine\\.tar\\.gz$");
}

#[test]
fn list_override_replaces_wholesale_and_empty_list_disables() {
    let package = Package::try_from(&toml_package(
        "o/r",
        vec![
            (
                Platform::Linux64,
                StringOrList::Many(vec!["first$".to_string(), "second$".to_string()]),
            ),
            (Platform::Osx64, StringOrList::Many(Vec::new())),
        ],
    ))
    .unwrap();
    let linux = package
        .platforms
        .entries
        .iter()
        .find(|e| e.0 == Platform::Linux64)
        .unwrap();
    assert_eq!(linux.1.len(), 2);
    assert_eq!(linux.1[0].source_str(), "first$");
    assert_eq!(linux.1[1].source_str(), "second$");
    assert!(package.platforms.entries.iter().all(|e| e.0 != Platform::Osx64));
}

#[test]
fn prepend_override_prefixes_every_default() {
    let plain = Package::try_from(&toml_package("o/r", Vec::new())).unwrap();
    let defaults: Vec<String> = plain
        .platforms
        .entries
        .iter()
        .find(|e| e.0 == Platform::OsxArm64)
        .unwrap()
        .1
        .iter()
        .map(|p| p.source_str().to_string())
        .collect();
    let package = Package::try_from(&toml_package(
        "o/r",
        vec![(Platform::OsxArm64, StringOrList::One("mytool...".to_string()))],
    ))
    .unwrap();
    let entry = package
        .platforms
        .entries
        .iter()
        .find(|e| e.0 == Platform::OsxArm64)
        .unwrap();
    assert_eq!(entry.1.len(), defaults.len());
    for (pat, default) in entry.1.iter().zip(defaults.iter()) {
        assert_eq!(pat.source_str(), format!("mytool.*{default}"));
    }
}

#[test]
fn prepend_to_absent_platform_is_a_configuration_error() {
    let e = match Package::try_from(&toml_package(
        "o/r",
        vec![(Platform::NoArch, StringOrList::One("mytool...".to_string()))],
    )) {
        Err(e) => e,
        Ok(_) => panic!("expected an error"),
    };
    assert_eq!(e, ConfigError::PrependWithoutDefault(Platform::NoArch));
}

#[test]
fn invalid_override_pattern_is_a_configuration_error() {
    let e = match Package::try_from(&toml_package(
        "o/r",
        vec![(Platform::Linux64, StringOrList::One("[".to_string()))],
    )) {
        Err(e) => e,
        Ok(_) => panic!("expected an error"),
    };
    assert_eq!(e, ConfigError::InvalidPattern(Platform::Linux64));
}

#[test]
fn name_override_anchors_every_pattern() {
    let toml = TomlPackage {
        name: Some("mytool".to_string()),
        repository: "o/r".to_string(),
        platforms: Vec::new(),
    };
    let package = Package::try_from(&toml).unwrap();
    assert_eq!(package.name, "mytool");
    for (_, patterns) in &package.platforms.entries {
        for p in patterns {
            assert!(p.source_str().starts_with("^mytool.*"));
        }
    }
}

#[test]
fn package_name_defaults_to_the_repository_name() {
    let package = Package::try_from(&toml_package("owner/mything", Vec::new())).unwrap();
    assert_eq!(package.name, "mything");
}

#[test]
fn config_compiles_all_packages_and_collects_platforms() {
    let config = Config::try_from(TomlConfig {
        packages: vec![
            toml_package("o/one", Vec::new()),
            toml_package(
                "o/two",
                vec![(Platform::Linux64, StringOrList::One("null".to_string()))],
            ),
        ],
        conda: Conda { channel: "mychannel".to_string() },
    })
    .unwrap();
    assert_eq!(config.packages.len(), 2);
    let platforms = config.all_platforms();
    // the union still holds every default platform: package one has all
    assert_eq!(platforms.len(), 8);
    let mut sorted: Vec<&str> = platforms.iter().map(|p| p.as_str()).collect();
    sorted.sort_unstable();
    assert_eq!(
        sorted,
        vec![
            "linux-32",
            "linux-64",
            "linux-aarch64",
            "osx-64",
            "osx-arm64",
            "win-32",
            "win-64",
            "win-arm64",
        ],
    );
}

#[test]
fn config_stops_at_the_first_bad_package() {
    let e = match Config::try_from(TomlConfig {
        packages: vec![
            toml_package("o/one", Vec::new()),
            toml_package("badrepository", Vec::new()),
        ],
        conda: Conda { channel: "mychannel".to_string() },
    }) {
        Err(e) => e,
        Ok(_) => panic!("expected an error"),
    };
    assert_eq!(e, ConfigError::RepositoryMissingSeparator);
}

#[test]
fn plain_channel_name_is_kept() {
    let conda = Conda { channel: "mychannel".to_string() };
    assert_eq!(conda.short_channel().unwrap(), "mychannel");
    assert_eq!(conda.full_channel().unwrap(), "https://prefix.dev/mychannel");
}

#[test]
fn prefix_channel_url_shortens_to_its_path() {
    let conda = Conda { channel: "https://prefix.dev/my-channel".to_string() };
    assert_eq!(conda.short_channel().unwrap(), "/my-channel");
}

#[test]
fn foreign_channel_url_is_rejected() {
    let conda = Conda { channel: "https://example.com/my-channel".to_string() };
    assert_eq!(conda.short_channel().unwrap_err(), ConfigError::NotPrefixChannel);
    assert_eq!(conda.full_channel().unwrap_err(), ConfigError::NotPrefixChannel);
}

#[test]
fn errors_render_their_messages() {
    assert_eq!(
        ConfigError::PrependWithoutDefault(Platform::NoArch).message(),
        "can not prepend to default platform key noarch"
    );
    assert_eq!(
        ConfigError::InvalidPattern(Platform::Linux64).message(),
        "failed to parse regex for platform linux-64"
    );
}
