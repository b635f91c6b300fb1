use mini_ai_1c::installer::{
    asset_sha256_digest, check_launcher_size, check_launcher_version_output,
    github_release_error_message, is_launcher_file_name, lower_hex, safe_archive_destination,
    sanitized_release_version, select_windows_asset, verify_asset_digest, verify_digest_hex,
    DownloadProgress, DownloadProgressTracker, GitHubAsset, GitHubRelease,
    TemporaryInstallArtifacts,
};

fn release_with_assets(names: &[&str]) -> GitHubRelease {
    GitHubRelease {
        tag_name: "v1.0.5".to_string(),
        assets: names
            .iter()
            .map(|name| GitHubAsset {
                name: (*name).to_string(),
                browser_download_url: format!("https://example.invalid/{name}"),
                size: 42,
                digest: Some(
                    "sha256:d927af45d3fcb009399a1fa0d4ae56969ab4c0414a71eb81054b4b4e2c5fd86e"
                        .to_string(),
                ),
            })
            .collect(),
    }
}

#[test]
fn selects_official_windows_distribution_instead_of_legacy_jar() {
    let release = release_with_assets(&[
        "bsl-language-server-1.0.5-exec.jar",
        "bsl-language-server_linux.tar.gz",
        "bsl-language-server_win.zip",
    ]);

    let asset = select_windows_asset(&release).expect("Windows asset must be selected");

    assert_eq!(asset.name, "bsl-language-server_win.zip");
}

#[test]
fn verifies_github_sha256_digest_and_rejects_modified_bytes() {
    let digest = "sha256:d927af45d3fcb009399a1fa0d4ae56969ab4c0414a71eb81054b4b4e2c5fd86e";

    assert!(verify_asset_digest(b"bsl-language-server", digest).is_ok());
    assert!(verify_asset_digest(b"modified", digest).is_err());
}

#[test]
fn archive_entries_cannot_escape_install_directory() {
    let install_dir = r"C:\MiniAI1C\bin\bsl-language-server-1.0.5";

    assert!(safe_archive_destination(install_dir, "bsl-language-server/app/server.jar").is_ok());
    assert!(safe_archive_destination(install_dir, "../../outside.exe").is_err());
    assert!(safe_archive_destination(install_dir, r"C:\outside.exe").is_err());
}

#[test]
fn temporary_install_artifacts_keep_their_paths() {
    let artifacts = TemporaryInstallArtifacts::new(
        "/tmp/x/server.zip".to_string(),
        "/tmp/x/server.installing".to_string(),
    );
    assert_eq!(artifacts.archive_path, "/tmp/x/server.zip");
    assert_eq!(artifacts.staging_dir, "/tmp/x/server.installing");
}

#[test]
fn missing_asset_and_digest_errors() {
    let release = release_with_assets(&["bsl-language-server.jar"]);
    assert_eq!(
        select_windows_asset(&release).unwrap_err(),
        "Could not find bsl-language-server_win.zip in the latest release"
    );
    let mut asset = release.assets[0].clone_for_test();
    asset.digest = None;
    assert_eq!(
        asset_sha256_digest(&asset).unwrap_err(),
        "GitHub release asset 'bsl-language-server.jar' does not provide a SHA-256 digest"
    );
}

trait CloneForTest {
    fn clone_for_test(&self) -> Self;
}

impl CloneForTest for GitHubAsset {
    fn clone_for_test(&self) -> Self {
        GitHubAsset {
            name: self.name.clone(),
            browser_download_url: self.browser_download_url.clone(),
            size: self.size,
            digest: self.digest.clone(),
        }
    }
}

#[test]
fn digest_comparison_ignores_case_and_needs_the_sha256_prefix() {
    assert!(verify_digest_hex("ABCDEF", "sha256:abcdef").is_ok());
    assert_eq!(
        verify_digest_hex("abc", "md5:abc").unwrap_err(),
        "Unsupported release asset digest: md5:abc"
    );
    assert_eq!(
        verify_digest_hex("abc", "sha256:abd").unwrap_err(),
        "BSL Language Server checksum mismatch: expected abd, got abc"
    );
    assert_eq!(lower_hex(&[0x00, 0x0f, 0xa5, 0xff]), "000fa5ff");
}

#[test]
fn archive_destination_normalises_entries() {
    assert_eq!(
        safe_archive_destination("/opt/bsl", "./a//b/./c.txt").unwrap(),
        "/opt/bsl/a/b/c.txt"
    );
    assert_eq!(safe_archive_destination("/opt/bsl/", "a").unwrap(), "/opt/bsl/a");
    assert_eq!(safe_archive_destination("/opt/bsl", "/etc/passwd").unwrap_err(), "Unsafe archive entry: /etc/passwd");
    assert_eq!(safe_archive_destination("/opt/bsl", "./").unwrap_err(), "Archive entry path is empty");
    assert_eq!(safe_archive_destination("/opt/bsl", "a/../b").unwrap_err(), "Unsafe archive entry: a/../b");
    assert_eq!(safe_archive_destination("/opt/bsl", "C:x").unwrap_err(), "Unsafe archive entry: C:x");
    assert!(safe_archive_destination("/opt/bsl", "C:/x").is_err());
    assert!(safe_archive_destination("/opt/bsl", "a/d:/x").is_err());
    assert!(safe_archive_destination("/opt/bsl", "a/1:b").is_ok());
}

#[test]
fn release_tags_give_safe_versions() {
    assert_eq!(sanitized_release_version(" v1.0.5 "), Ok("1.0.5".to_string()));
    assert_eq!(sanitized_release_version("vv2.0-rc_1"), Ok("2.0-rc_1".to_string()));
    assert_eq!(
        sanitized_release_version("v1.0/../x"),
        Err("Unsafe BSL Language Server release tag: v1.0/../x".to_string())
    );
    assert!(sanitized_release_version("v").is_err());
}

#[test]
fn download_progress_is_reported_every_five_percent() {
    let mut t = DownloadProgressTracker::new(200);
    assert!(t.record_chunk(4).is_none());
    let p = t.record_chunk(6).unwrap();
    assert_eq!((p.progress, p.total, p.percent), (10, 200, 5));
    assert!(t.record_chunk(2).is_none());
    assert!(t.finish().is_err());
    let _ = t.record_chunk(188);
    let done: DownloadProgress = t.finish().unwrap();
    assert_eq!(done.percent, 100);
    let mut short = DownloadProgressTracker::new(10);
    let _ = short.record_chunk(3);
    assert_eq!(
        short.finish().unwrap_err(),
        "BSL Language Server download size mismatch: expected 10, got 3"
    );
}

#[test]
fn release_api_errors_and_launcher_checks() {
    assert!(github_release_error_message(403, "403 Forbidden", "").contains("rate limit"));
    assert_eq!(
        github_release_error_message(500, "500 Internal Server Error", "boom"),
        "GitHub API вернул ошибку 500 Internal Server Error\nСкачайте JAR вручную: https://github.com/1c-syntax/bsl-language-server/releases/latest"
    );
    assert!(is_launcher_file_name("BSL-Language-Server.EXE"));
    assert!(!is_launcher_file_name("bsl-language-server.jar"));
    assert!(check_launcher_size("x.exe", 1024).is_err());
    assert!(check_launcher_size("x.exe", 65536).is_ok());
    assert!(check_launcher_version_output("version: 1.0.5", "", "1.0.5").is_ok());
    assert_eq!(
        check_launcher_version_output(" v0.9 ", "", "1.0.5").unwrap_err(),
        "Installed BSL Language Server version does not match release 1.0.5: v0.9"
    );
}
