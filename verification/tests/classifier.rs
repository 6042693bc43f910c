use octoconda::classify::match_platform_names;
use octoconda::pattern::Pattern;
use octoconda::platform::Platform;
use octoconda::rules::{Package, TomlPackage};

fn get_default_patterns() -> Vec<(Platform, Vec<Pattern>)> {
    let toml = TomlPackage {
        name: None,
        repository: "foo/bar".to_string(),
        platforms: Vec::new(),
    };
    let package: Package = Package::try_from(&toml).unwrap();
    package.platforms.entries
}

fn to_strings(names: &[&str]) -> Vec<String> {
    names.iter().map(|n| n.to_string()).collect()
}

fn assert_platform(patterns: &Vec<Pattern>, assets: &Vec<String>, expected: Option<usize>) {
    let result = match_platform_names(patterns, assets);

    if let Some(index) = &result {
        println!("    Matched: \"{}\" (index: {index})", assets[*index]);
    } else {
        println!("    No match found");
    }

    if let Some(index) = &expected {
        println!("    Expected: \"{}\"", assets[*index]);
    } else {
        println!("    No match expected");
    }

    assert_eq!(result, expected);
}

fn platform_match_test(platforms: &[(Platform, usize)], names: &[&str]) {
    let assets = to_strings(names);
    let table = get_default_patterns();

    for (platform, expected) in platforms {
        println!("Testing for platform {} (expected index: {expected})", platform.as_str());
        let entry = table
            .iter()
            .find(|e| e.0 == *platform)
            .expect("platform has a default entry");
        assert_platform(&entry.1, &assets, Some(*expected));
    }

    for (platform, patterns) in &table {
        if platforms.iter().any(|(p, _)| p == platform) {
            continue;
        }
        println!("Testing for platform {} (defaulted to None)", platform.as_str());
        assert_platform(patterns, &assets, None);
    }
}

fn zoxide_names() -> Vec<&'static str> {
    vec![
        "zoxide-0.9.8-aarch64-apple-darwin.tar.gz",
        "zoxide-0.9.8-aarch64-linux-android.tar.gz",
        "zoxide-0.9.8-aarch64-pc-windows-msvc.zip",
        "zoxide-0.9.8-aarch64-unknown-linux-musl.tar.gz",
        "zoxide-0.9.8-arm-unknown-linux-musleabihf.tar.gz",
        "zoxide-0.9.8-armv7-unknown-linux-musleabihf.tar.gz",
        "zoxide-0.9.8-i686-unknown-linux-musl.tar.gz",
        "zoxide-0.9.8-x86_64-apple-darwin.tar.gz",
        "zoxide-0.9.8-x86_64-pc-windows-msvc.zip",
        "zoxide-0.9.8-x86_64-unknown-linux-musl.tar.gz",
        "Source code",
    ]
}

fn atuin_names() -> Vec<&'static str> {
    vec![
        "atuin-aarch64-apple-darwin-update",
        "atuin-aarch64-apple-darwin.tar.gz",
        "atuin-aarch64-apple-darwin.tar.gz.sha256",
        "atuin-aarch64-unknown-linux-gnu-update",
        "atuin-aarch64-unknown-linux-gnu.tar.gz",
        "atuin-aarch64-unknown-linux-gnu.tar.gz.sha256",
        "atuin-aarch64-unknown-linux-musl-update",
        "atuin-aarch64-unknown-linux-musl.tar.gz",
        "atuin-aarch64-unknown-linux-musl.tar.gz.sha256",
        "atuin-installer.sh",
        "atuin-x86_64-apple-darwin-update",
        "atuin-x86_64-apple-darwin.tar.gz",
        "atuin-x86_64-apple-darwin.tar.gz.sha256",
        "atuin-x86_64-unknown-linux-gnu-update",
        "atuin-x86_64-unknown-linux-gnu.tar.gz",
        "atuin-x86_64-unknown-linux-gnu.tar.gz.sha256",
        "atuin-x86_64-unknown-linux-musl-update",
        "atuin-x86_64-unknown-linux-musl.tar.gz",
        "atuin-x86_64-unknown-linux-musl.tar.gz.sha256",
        "dist-listing.json",
        "sha256.sum",
        "source.tar.gz",
        "source.tar.gz.sha256",
        "Source code (zip)",
        "Source code (tar.gz)",
    ]
}

fn asm_lsp_names() -> Vec<&'static str> {
    vec![
        "asm-lsp-aarch64-apple-darwin.tar.gz",
        "asm-lsp-x86_64-apple-darwin.tar.gz",
        "asm-lsp-x86_64-unknown-linux-gnu.tar.gz",
    ]
}

fn cargo_binstall_names() -> Vec<&'static str> {
    vec![
        "cargo-binstall-aarch64-apple-darwin.full.zip",
        "cargo-binstall-aarch64-apple-darwin.full.zip.sig",
        "cargo-binstall-aarch64-apple-darwin.zip",
        "cargo-binstall-aarch64-apple-darwin.zip.sig",
        "cargo-binstall-aarch64-pc-windows-msvc.full.zip",
        "cargo-binstall-aarch64-pc-windows-msvc.full.zip.sig",
        "cargo-binstall-aarch64-pc-windows-msvc.zip",
        "cargo-binstall-aarch64-pc-windows-msvc.zip.sig",
        "cargo-binstall-aarch64-unknown-linux-gnu.full.tgz",
        "cargo-binstall-aarch64-unknown-linux-gnu.full.tgz.sig",
        "cargo-binstall-aarch64-unknown-linux-gnu.tgz",
        "cargo-binstall-aarch64-unknown-linux-gnu.tgz.sig",
        "cargo-binstall-aarch64-unknown-linux-musl.full.tgz",
        "cargo-binstall-aarch64-unknown-linux-musl.full.tgz.sig",
        "cargo-binstall-aarch64-unknown-linux-musl.tgz",
        "cargo-binstall-aarch64-unknown-linux-musl.tgz.sig",
        "cargo-binstall-armv7-unknown-linux-gnueabihf.full.tgz",
        "cargo-binstall-armv7-unknown-linux-gnueabihf.full.tgz.sig",
        "cargo-binstall-armv7-unknown-linux-gnueabihf.tgz",
        "cargo-binstall-armv7-unknown-linux-gnueabihf.tgz.sig",
        "cargo-binstall-armv7-unknown-linux-musleabihf.full.tgz",
        "cargo-binstall-armv7-unknown-linux-musleabihf.full.tgz.sig",
        "cargo-binstall-armv7-unknown-linux-musleabihf.tgz",
        "cargo-binstall-armv7-unknown-linux-musleabihf.tgz.sig",
        "cargo-binstall-universal-apple-darwin.full.zip",
        "cargo-binstall-universal-apple-darwin.full.zip.sig",
        "cargo-binstall-universal-apple-darwin.zip",
        "cargo-binstall-universal-apple-darwin.zip.sig",
        "cargo-binstall-x86_64-apple-darwin.full.zip",
        "cargo-binstall-x86_64-apple-darwin.full.zip.sig",
        "cargo-binstall-x86_64-apple-darwin.zip",
        "cargo-binstall-x86_64-apple-darwin.zip.sig",
        "cargo-binstall-x86_64-pc-windows-msvc.full.zip",
        "cargo-binstall-x86_64-pc-windows-msvc.full.zip.sig",
        "cargo-binstall-x86_64-pc-windows-msvc.zip",
        "cargo-binstall-x86_64-pc-windows-msvc.zip.sig",
        "cargo-binstall-x86_64-unknown-linux-gnu.full.tgz",
        "cargo-binstall-x86_64-unknown-linux-gnu.full.tgz.sig",
        "cargo-binstall-x86_64-unknown-linux-gnu.tgz",
        "cargo-binstall-x86_64-unknown-linux-gnu.tgz.sig",
        "cargo-binstall-x86_64-unknown-linux-musl.full.tgz",
        "cargo-binstall-x86_64-unknown-linux-musl.full.tgz.sig",
        "cargo-binstall-x86_64-unknown-linux-musl.tgz",
        "cargo-binstall-x86_64-unknown-linux-musl.tgz.sig",
        "minisign.pub",
    ]
}

fn bottom_names() -> Vec<&'static str> {
    vec![
        "bottom-0.11.4-1.x86_64.rpm",
        "bottom-musl-0.11.4-1.x86_64.rpm",
        "bottom-musl_0.11.4-1_amd64.deb",
        "bottom-musl_0.11.4-1_arm64.deb",
        "bottom-musl_0.11.4-1_armhf.deb",
        "bottom.desktop",
        "bottom_0.11.4-1_amd64.deb",
        "bottom_0.11.4-1_arm64.deb",
        "bottom_0.11.4-1_armhf.deb",
        "bottom_aarch64-apple-darwin.tar.gz",
        "bottom_aarch64-pc-windows-msvc.tar.gz",
        "bottom_aarch64-unknown-linux-gnu.tar.gz",
        "bottom_aarch64-unknown-linux-musl.tar.gz",
        "bottom_aarch64_installer.msi",
        "bottom_armv7-unknown-linux-gnueabihf.tar.gz",
        "bottom_armv7-unknown-linux-musleabihf.tar.gz",
        "bottom_i686-pc-windows-msvc.zip",
        "bottom_i686-unknown-linux-gnu.tar.gz",
        "bottom_i686-unknown-linux-musl.tar.gz",
        "bottom_powerpc64le-unknown-linux-gnu.tar.gz",
        "bottom_riscv64gc-unknown-linux-gnu.tar.gz",
        "bottom_x86_64-apple-darwin.tar.gz",
        "bottom_x86_64-pc-windows-gnu.zip",
        "bottom_x86_64-pc-windows-msvc.zip",
        "bottom_x86_64-unknown-freebsd-13.5.tar.gz",
        "bottom_x86_64-unknown-freebsd-14.3.tar.gz",
        "bottom_x86_64-unknown-freebsd-15.0.tar.gz",
        "bottom_x86_64-unknown-linux-gnu-2-17.tar.gz",
        "bottom_x86_64-unknown-linux-gnu.tar.gz",
        "bottom_x86_64-unknown-linux-musl.tar.gz",
        "bottom_x86_64_installer.msi",
        "choco.zip",
        "completion.tar.gz",
        "manpage.tar.gz",
    ]
}

fn jjui_names() -> Vec<&'static str> {
    vec![
        "jjui-0.9.6-darwin-amd64.zip",
        "jjui-0.9.6-darwin-arm64.zip",
        "jjui-0.9.6-linux-amd64.zip",
        "jjui-0.9.6-linux-arm64.zip",
        "jjui-0.9.6-windows-amd64.zip",
        "jjui-0.9.6-windows-arm64.zip",
    ]
}

fn caligula_names() -> Vec<&'static str> {
    vec![
        "caligula-aarch64-darwin",
        "caligula-aarch64-linux",
        "caligula-x86_64-darwin",
        "caligula-x86_64-linux",
    ]
}

fn neovim_names() -> Vec<&'static str> {
    vec![
        "nvim-linux-arm64.appimage",
        "nvim-linux-arm64.appimage.zsync",
        "nvim-linux-arm64.tar.gz",
        "nvim-linux-x86_64.appimage",
        "nvim-linux-x86_64.appimage.zsync",
        "nvim-linux-x86_64.tar.gz",
        "nvim-macos-arm64.tar.gz",
        "nvim-macos-x86_64.tar.gz",
        "nvim-win-arm64.msi",
        "nvim-win-arm64.zip",
        "nvim-win64.msi",
        "nvim-win64.zip",
    ]
}

fn neovim_names_old() -> Vec<&'static str> {
    vec![
        "nvim-linux64.tar.gz",
        "nvim-macos.tar.gz",
        "nvim-win32.zip",
        "nvim-win64.zip",
        "nvim.appimage",
        "nvim.appimage.zsync",
    ]
}

fn shellcheck_names() -> Vec<&'static str> {
    vec![
        "shellcheck-v0.11.0.darwin.aarch64.tar.xz",
        "shellcheck-v0.11.0.darwin.x86_64.tar.xz",
        "shellcheck-v0.11.0.linux.aarch64.tar.xz",
        "shellcheck-v0.11.0.linux.armv6hf.tar.xz",
        "shellcheck-v0.11.0.linux.riscv64.tar.xz",
        "shellcheck-v0.11.0.linux.x86_64.tar.xz",
        "shellcheck-v0.11.0.zip",
    ]
}

fn glsl_analyzer_names() -> Vec<&'static str> {
    vec![
        "aarch64-linux-musl.zip",
        "aarch64-macos.zip",
        "aarch64-windows.zip",
        "x86_64-linux-musl.zip",
        "x86_64-macos.zip",
        "x86_64-windows.zip",
    ]
}

#[test]
fn test_zoxide_names() {
    platform_match_test(
        &[
            (Platform::Linux32, 6),
            (Platform::Linux64, 9),
            (Platform::LinuxAarch64, 3),
            (Platform::Osx64, 7),
            (Platform::OsxArm64, 0),
            (Platform::Win64, 8),
            (Platform::WinArm64, 2),
        ],
        &zoxide_names(),
    );
}

#[test]
fn test_atuin_names() {
    platform_match_test(
        &[
            (Platform::Linux64, 17),
            (Platform::LinuxAarch64, 7),
            (Platform::Osx64, 11),
            (Platform::OsxArm64, 1),
        ],
        &atuin_names(),
    );
}

#[test]
fn test_asm_lsp_names() {
    platform_match_test(
        &[
            (Platform::Linux64, 2),
            (Platform::Osx64, 1),
            (Platform::OsxArm64, 0),
        ],
        &asm_lsp_names(),
    );
}

#[test]
fn test_cargo_binstall_names() {
    platform_match_test(
        &[
            (Platform::LinuxAarch64, 14),
            (Platform::Linux64, 42),
            (Platform::Osx64, 30),
            (Platform::OsxArm64, 2),
            (Platform::Win64, 34),
            (Platform::WinArm64, 6),
        ],
        &cargo_binstall_names(),
    );
}

#[test]
fn test_bottom_names() {
    platform_match_test(
        &[
            (Platform::LinuxAarch64, 12),
            (Platform::Linux32, 18),
            (Platform::Linux64, 29),
            (Platform::Osx64, 21),
            (Platform::OsxArm64, 9),
            (Platform::Win32, 16),
            (Platform::Win64, 23),
        ],
        &bottom_names(),
    );
}

#[test]
fn test_jjui_names() {
    platform_match_test(
        &[
            (Platform::LinuxAarch64, 3),
            (Platform::Linux64, 2),
            (Platform::Osx64, 0),
            (Platform::OsxArm64, 1),
            (Platform::Win64, 4),
            (Platform::WinArm64, 5),
        ],
        &jjui_names(),
    );
}

#[test]
fn test_caligula_names() {
    platform_match_test(
        &[
            (Platform::LinuxAarch64, 1),
            (Platform::Linux64, 3),
            (Platform::Osx64, 2),
            (Platform::OsxArm64, 0),
        ],
        &caligula_names(),
    );
}

#[test]
fn test_neovim_names() {
    platform_match_test(
        &[
            (Platform::LinuxAarch64, 2),
            (Platform::Linux64, 5),
            (Platform::Osx64, 7),
            (Platform::OsxArm64, 6),
            (Platform::Win64, 11),
            (Platform::WinArm64, 9),
        ],
        &neovim_names(),
    );
}

#[test]
fn test_neovim_names_old() {
    platform_match_test(
        &[
            (Platform::Linux64, 0),
            (Platform::Osx64, 1),
            (Platform::Win32, 2),
            (Platform::Win64, 3),
        ],
        &neovim_names_old(),
    );
}

#[test]
fn test_shellcheck_names() {
    platform_match_test(
        &[
            (Platform::LinuxAarch64, 2),
            (Platform::Linux64, 5),
            (Platform::OsxArm64, 0),
            (Platform::Osx64, 1),
        ],
        &shellcheck_names(),
    );
}

#[test]
fn test_glsl_analyzer_names() {
    platform_match_test(
        &[
            (Platform::LinuxAarch64, 0),
            (Platform::Linux64, 3),
            (Platform::OsxArm64, 1),
            (Platform::Osx64, 4),
            (Platform::WinArm64, 2),
            (Platform::Win64, 5),
        ],
        &glsl_analyzer_names(),
    );
}

#[test]
fn default_rules_classify_both_archive_platforms() {
    // asset list with one musl linux build and one arm mac build: the
    // linux x86_64 platform selects index 0, the mac arm platform index
    // 1, and every other platform finds nothing
    platform_match_test(
        &[(Platform::Linux64, 0), (Platform::OsxArm64, 1)],
        &[
            "pkg-0.9.8-x86_64-unknown-linux-musl.tar.gz",
            "pkg-0.9.8-aarch64-apple-darwin.tar.gz",
        ],
    );
}

#[test]
fn classification_is_repeatable() {
    let table = get_default_patterns();
    let assets = to_strings(&zoxide_names());
    let entry = table.iter().find(|e| e.0 == Platform::Linux64).unwrap();
    let first = match_platform_names(&entry.1, &assets);
    let second = match_platform_names(&entry.1, &assets);
    assert_eq!(first, Some(9));
    assert_eq!(first, second);
}
