use pilothub::package_managers::runtime::{
    apm_asset_name, runtime_marker_version, safe_relative_path, verify_checksum, RuntimeError,
};

#[test]
fn resolves_supported_release_assets() {
    assert_eq!(
        apm_asset_name("macos", "aarch64").unwrap(),
        "apm-darwin-arm64.tar.gz"
    );
    assert_eq!(
        apm_asset_name("windows", "x86_64").unwrap(),
        "apm-windows-x86_64.zip"
    );
    assert!(apm_asset_name("windows", "aarch64").is_err());
}

#[test]
fn rejects_checksum_mismatch() {
    let error = verify_checksum(b"archive", "deadbeef archive.tar.gz").unwrap_err();
    assert!(error.to_string().contains("checksum mismatch"));
}

#[test]
fn rejects_archive_path_traversal() {
    assert!(safe_relative_path("../apm").is_err());
    assert!(safe_relative_path("/tmp/apm").is_err());
}

#[test]
fn a_runtime_marker_reads_back_the_version_written() {
    assert_eq!(runtime_marker_version("v0.9.1").unwrap(), "v0.9.1");
    assert_eq!(runtime_marker_version(" v0.9.1\n").unwrap(), "v0.9.1");
    assert_eq!(runtime_marker_version("  "), Err(RuntimeError::InvalidVersion));
    assert_eq!(runtime_marker_version("../v1"), Err(RuntimeError::InvalidVersion));
}
