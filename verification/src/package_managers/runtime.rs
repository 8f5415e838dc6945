//! The PilotHub-managed Microsoft APM runtime: release assets, checksum
//! verification, archive entry safety and the runtime marker.
use vstd::prelude::*;
use crate::digest::{hex_encode, hex_lower, sha256, sha256_digest};
use crate::paths::{has_only_normal_components, join_path, join_str, only_normal};
use crate::text::{
    chars_of, concat_str, ends_with, eq_ignore_ascii_case, first_token, first_word, has_suffix,
    is_ws, owned, same_ignoring_ascii_case, str_eq, string_of, trim, trim_end_ws, trim_start_ws, trim_ws,
};
use super::apm::ApmAdapter;

verus! {

/// An installed APM runtime: its release version and the path of its binary.
#[derive(Debug, Clone, PartialEq, Eq)]
pub struct ManagedApmRuntime {
    pub version: String,
    pub binary_path: String,
}

impl ManagedApmRuntime {
    /// An adapter that runs this runtime's binary.
    pub fn adapter(&self) -> (r: ApmAdapter)
        ensures
            r@ == self.binary_path@,
    {
        ApmAdapter::new(self.binary_path.as_str())
    }
}

/// A GitHub release: its tag and downloadable assets.
#[derive(Debug, Clone, PartialEq, Eq)]
pub struct GithubRelease {
    pub tag_name: String,
    pub assets: Vec<GithubReleaseAsset>,
}

/// One downloadable asset of a release.
#[derive(Debug, Clone, PartialEq, Eq)]
pub struct GithubReleaseAsset {
    pub name: String,
    pub browser_download_url: String,
}

/// Archive formats that APM releases use.
#[derive(Debug, Clone, Copy, PartialEq, Eq)]
pub enum ArchiveFormat {
    TarGz,
    Zip,
}

/// The type of an archive entry.
#[derive(Debug, Clone, Copy, PartialEq, Eq)]
pub enum ArchiveEntryKind {
    Directory,
    File,
    Other,
}

/// Why an APM runtime operation failed.
#[derive(Debug, Clone, PartialEq, Eq)]
pub enum RuntimeError {
    InvalidVersion,
    EmptyChecksum,
    ChecksumMismatch,
    EscapedDestination,
    UnsupportedEntryType,
    UnsupportedPlatform { os: String, arch: String },
    MissingAsset { name: String },
    UnsupportedArchive { name: String },
    UnreadableArchive { message: String },
}

impl RuntimeError {
    /// The text of the error.
    pub open spec fn message(self) -> Seq<char> {
        match self {
            RuntimeError::InvalidVersion => "invalid Microsoft APM release version"@,
            RuntimeError::EmptyChecksum => "Microsoft APM checksum file is empty"@,
            RuntimeError::ChecksumMismatch => "Microsoft APM SHA-256 checksum mismatch"@,
            RuntimeError::EscapedDestination => "Microsoft APM archive entry escaped destination"@,
            RuntimeError::UnsupportedEntryType => "Microsoft APM archive contains an unsupported entry type"@,
            RuntimeError::UnsupportedPlatform { os, arch } => "Microsoft APM does not publish an asset for "@
                + os@ + "/"@ + arch@,
            RuntimeError::MissingAsset { name } => "Microsoft APM release is missing asset "@ + name@,
            RuntimeError::UnsupportedArchive { name } => "unsupported Microsoft APM archive format: "@
                + name@,
            RuntimeError::UnreadableArchive { message } => "read Microsoft APM archive: "@ + message@,
        }
    }

    /// The text of the error.
    pub fn to_string(&self) -> (r: String)
        ensures
            r@ == self.message(),
    {
        match self {
            RuntimeError::InvalidVersion => owned("invalid Microsoft APM release version"),
            RuntimeError::EmptyChecksum => owned("Microsoft APM checksum file is empty"),
            RuntimeError::ChecksumMismatch => owned("Microsoft APM SHA-256 checksum mismatch"),
            RuntimeError::EscapedDestination => owned("Microsoft APM archive entry escaped destination"),
            RuntimeError::UnsupportedEntryType => owned(
                "Microsoft APM archive contains an unsupported entry type",
            ),
            RuntimeError::UnsupportedPlatform { os, arch } => {
                let a = concat_str("Microsoft APM does not publish an asset for ", os.as_str());
                let b = concat_str(a.as_str(), "/");
                concat_str(b.as_str(), arch.as_str())
            },
            RuntimeError::MissingAsset { name } => concat_str(
                "Microsoft APM release is missing asset ",
                name.as_str(),
            ),
            RuntimeError::UnsupportedArchive { name } => concat_str(
                "unsupported Microsoft APM archive format: ",
                name.as_str(),
            ),
            RuntimeError::UnreadableArchive { message } => concat_str(
                "read Microsoft APM archive: ",
                message.as_str(),
            ),
        }
    }
}

/// The directory under `home` where PilotHub keeps APM runtimes.
pub fn managed_apm_root(home: &str) -> (r: String)
    ensures
        r@ == join_path(home@, ".pilothub/package-managers/apm"@),
{
    join_str(home, ".pilothub/package-managers/apm")
}

/// The release asset that APM publishes for an operating system and
/// architecture (as `std::env::consts::OS` and `ARCH` name them).
pub open spec fn asset_for(os: Seq<char>, arch: Seq<char>) -> Option<Seq<char>> {
    if os == "macos"@ && arch == "aarch64"@ {
        Some("apm-darwin-arm64.tar.gz"@)
    } else if os == "macos"@ && arch == "x86_64"@ {
        Some("apm-darwin-x86_64.tar.gz"@)
    } else if os == "linux"@ && arch == "aarch64"@ {
        Some("apm-linux-arm64.tar.gz"@)
    } else if os == "linux"@ && arch == "x86_64"@ {
        Some("apm-linux-x86_64.tar.gz"@)
    } else if os == "windows"@ && arch == "x86_64"@ {
        Some("apm-windows-x86_64.zip"@)
    } else {
        None
    }
}

/// How APM's releases name an operating system: `darwin` for macOS, else
/// the name Rust gives it.
pub open spec fn release_os_name(os: Seq<char>) -> Seq<char> {
    if os == "macos"@ {
        "darwin"@
    } else {
        os
    }
}

/// How APM's releases name an architecture: `arm64` for `aarch64`, else
/// the name Rust gives it.
pub open spec fn release_arch_name(arch: Seq<char>) -> Seq<char> {
    if arch == "aarch64"@ {
        "arm64"@
    } else {
        arch
    }
}

/// The archive extension of APM's releases: `.zip` on Windows, else
/// `.tar.gz`.
pub open spec fn release_extension(os: Seq<char>) -> Seq<char> {
    if os == "windows"@ {
        ".zip"@
    } else {
        ".tar.gz"@
    }
}

/// The asset chosen for a platform is the release built for that platform:
/// `apm-<os>-<arch><extension>` in APM's names for the operating system and
/// architecture; and there is one for macOS and Linux on `aarch64` and
/// `x86_64`, and for Windows on `x86_64`, and for no other platform.
pub proof fn law_asset_names_the_platform(os: Seq<char>, arch: Seq<char>)
    ensures
        asset_for(os, arch) matches Some(n) ==> n == "apm-"@ + release_os_name(os) + "-"@ + release_arch_name(arch)
            + release_extension(os),
        asset_for(os, arch) is Some <==> ((os == "macos"@ || os == "linux"@) && (arch == "aarch64"@ || arch
            == "x86_64"@)) || (os == "windows"@ && arch == "x86_64"@),
{
    reveal_strlit("macos");
    reveal_strlit("linux");
    reveal_strlit("windows");
    reveal_strlit("aarch64");
    reveal_strlit("x86_64");
    reveal_strlit("darwin");
    reveal_strlit("arm64");
    reveal_strlit("apm-");
    reveal_strlit("-");
    reveal_strlit(".zip");
    reveal_strlit(".tar.gz");
    reveal_strlit("apm-darwin-arm64.tar.gz");
    reveal_strlit("apm-darwin-x86_64.tar.gz");
    reveal_strlit("apm-linux-arm64.tar.gz");
    reveal_strlit("apm-linux-x86_64.tar.gz");
    reveal_strlit("apm-windows-x86_64.zip");
    if os == "macos"@ && arch == "aarch64"@ {
        assert("apm-darwin-arm64.tar.gz"@ =~= "apm-"@ + "darwin"@ + "-"@ + "arm64"@ + ".tar.gz"@);
    } else if os == "macos"@ && arch == "x86_64"@ {
        assert("apm-darwin-x86_64.tar.gz"@ =~= "apm-"@ + "darwin"@ + "-"@ + "x86_64"@ + ".tar.gz"@);
    } else if os == "linux"@ && arch == "aarch64"@ {
        assert("apm-linux-arm64.tar.gz"@ =~= "apm-"@ + "linux"@ + "-"@ + "arm64"@ + ".tar.gz"@);
    } else if os == "linux"@ && arch == "x86_64"@ {
        assert("apm-linux-x86_64.tar.gz"@ =~= "apm-"@ + "linux"@ + "-"@ + "x86_64"@ + ".tar.gz"@);
    } else if os == "windows"@ && arch == "x86_64"@ {
        assert("apm-windows-x86_64.zip"@ =~= "apm-"@ + "windows"@ + "-"@ + "x86_64"@ + ".zip"@);
    }
}

/// The release asset name for a platform, or an error naming the platform.
pub fn apm_asset_name(os: &str, arch: &str) -> (r: Result<String, RuntimeError>)
    ensures
        match r {
            Ok(name) => asset_for(os@, arch@) == Some(name@),
            Err(e) => asset_for(os@, arch@) is None && (e matches RuntimeError::UnsupportedPlatform {
                os: o,
                arch: a,
            } && o@ == os@ && a@ == arch@),
        },
{
    if str_eq(os, "macos") && str_eq(arch, "aarch64") {
        Ok(owned("apm-darwin-arm64.tar.gz"))
    } else if str_eq(os, "macos") && str_eq(arch, "x86_64") {
        Ok(owned("apm-darwin-x86_64.tar.gz"))
    } else if str_eq(os, "linux") && str_eq(arch, "aarch64") {
        Ok(owned("apm-linux-arm64.tar.gz"))
    } else if str_eq(os, "linux") && str_eq(arch, "x86_64") {
        Ok(owned("apm-linux-x86_64.tar.gz"))
    } else if str_eq(os, "windows") && str_eq(arch, "x86_64") {
        Ok(owned("apm-windows-x86_64.zip"))
    } else {
        Err(RuntimeError::UnsupportedPlatform { os: owned(os), arch: owned(arch) })
    }
}

/// The name of the checksum asset that accompanies an archive asset.
pub fn checksum_asset_name(archive_name: &str) -> (r: String)
    ensures
        r@ == archive_name@ + ".sha256"@,
{
    concat_str(archive_name, ".sha256")
}

/// The download URL of the first asset of `release` named `name`.
pub fn release_asset_url(release: &GithubRelease, name: &str) -> (r: Result<String, RuntimeError>)
    ensures
        match r {
            Ok(url) => exists|i: int|
                0 <= i < release.assets@.len() && #[trigger] release.assets@[i].name@ == name@
                    && (forall|j: int| 0 <= j < i ==> release.assets@[j].name@ != name@)
                    && url@ == release.assets@[i].browser_download_url@,
            Err(e) => (forall|i: int|
                0 <= i < release.assets@.len() ==> #[trigger] release.assets@[i].name@ != name@)
                && (e matches RuntimeError::MissingAsset { name: n } && n@ == name@),
        },
{
    let mut i: usize = 0;
    while i < release.assets.len()
        invariant
            i <= release.assets.len(),
            forall|j: int| 0 <= j < i ==> release.assets@[j].name@ != name@,
        decreases release.assets.len() - i,
    {
        if str_eq(release.assets[i].name.as_str(), name) {
            return Ok(release.assets[i].browser_download_url.clone());
        }
        i = i + 1;
    }
    Err(RuntimeError::MissingAsset { name: owned(name) })
}

/// A release version is usable as a directory name: non-empty and made of
/// normal path components only.
pub open spec fn valid_version(version: Seq<char>) -> bool {
    version.len() > 0 && only_normal(version)
}

/// Refuses a version that is empty or that would leave the runtime root.
pub fn validate_version(version: &str) -> (r: Result<(), RuntimeError>)
    ensures
        r is Ok <==> valid_version(version@),
        r matches Err(e) ==> e == RuntimeError::InvalidVersion,
{
    let v = chars_of(version);
    if v.len() == 0 || !has_only_normal_components(&v) {
        Err(RuntimeError::InvalidVersion)
    } else {
        Ok(())
    }
}

/// The version named by the runtime marker file's content (trimmed), when
/// it is a valid version.
pub fn runtime_marker_version(content: &str) -> (r: Result<String, RuntimeError>)
    ensures
        match r {
            Ok(v) => v@ == trim_ws(content@) && valid_version(v@),
            Err(e) => !valid_version(trim_ws(content@)) && e == RuntimeError::InvalidVersion,
        },
{
    let c = chars_of(content);
    let t = trim(&c);
    let version = string_of(&t);
    validate_version(version.as_str())?;
    Ok(version)
}

/// A runtime marker written with a valid version that has no surrounding
/// whitespace reads back as that same version: trimming leaves it as it
/// is, and it is still valid.
pub proof fn law_marker_round_trip(version: Seq<char>)
    requires
        valid_version(version),
        !is_ws(version[0]),
        !is_ws(version.last()),
    ensures
        trim_ws(version) == version,
        valid_version(trim_ws(version)),
{
    assert(trim_start_ws(version) == version);
    assert(trim_end_ws(version) == version);
}

/// Whether a checksum file's first word matches a digest, ignoring ASCII
/// case: the error when the file has no word, or when the word is not the
/// digest's hex form.
pub open spec fn checksum_result(digest: Seq<u8>, checksum: Seq<char>) -> Result<(), RuntimeError> {
    match first_token(checksum) {
        None => Err(RuntimeError::EmptyChecksum),
        Some(expected) => if eq_ignore_ascii_case(hex_lower(digest), expected) {
            Ok(())
        } else {
            Err(RuntimeError::ChecksumMismatch)
        },
    }
}

/// Compares a computed digest with the first word of a checksum file.
pub fn checksum_matches(digest: &[u8], checksum: &str) -> (r: Result<(), RuntimeError>)
    ensures
        r == checksum_result(digest@, checksum@),
{
    let c = chars_of(checksum);
    match first_word(&c) {
        None => Err(RuntimeError::EmptyChecksum),
        Some(expected) => {
            let actual = hex_encode(digest);
            let actual_chars = chars_of(actual.as_str());
            if same_ignoring_ascii_case(&actual_chars, &expected) {
                Ok(())
            } else {
                Err(RuntimeError::ChecksumMismatch)
            }
        },
    }
}

/// Checks `bytes` against a published SHA-256 checksum file.
pub fn verify_checksum(bytes: &[u8], checksum: &str) -> (r: Result<(), RuntimeError>)
    ensures
        r == checksum_result(sha256(bytes@), checksum@),
{
    let c = chars_of(checksum);
    if first_word(&c).is_none() {
        return Err(RuntimeError::EmptyChecksum);
    }
    let digest = sha256_digest(bytes);
    checksum_matches(digest.as_slice(), checksum)
}

/// An archive entry path that stays inside the destination.
pub fn safe_relative_path(path: &str) -> (r: Result<String, RuntimeError>)
    ensures
        match r {
            Ok(p) => only_normal(path@) && p@ == path@,
            Err(e) => !only_normal(path@) && e == RuntimeError::EscapedDestination,
        },
{
    let v = chars_of(path);
    if !has_only_normal_components(&v) {
        return Err(RuntimeError::EscapedDestination);
    }
    Ok(owned(path))
}

/// The archive format named by an asset's file extension.
pub fn archive_format(name: &str) -> (r: Result<ArchiveFormat, RuntimeError>)
    ensures
        match r {
            Ok(ArchiveFormat::TarGz) => ends_with(name@, ".tar.gz"@),
            Ok(ArchiveFormat::Zip) => !ends_with(name@, ".tar.gz"@) && ends_with(name@, ".zip"@),
            Err(e) => !ends_with(name@, ".tar.gz"@) && !ends_with(name@, ".zip"@) && (e
                matches RuntimeError::UnsupportedArchive { name: n } && n@ == name@),
        },
{
    let v = chars_of(name);
    if has_suffix(&v, &chars_of(".tar.gz")) {
        Ok(ArchiveFormat::TarGz)
    } else if has_suffix(&v, &chars_of(".zip")) {
        Ok(ArchiveFormat::Zip)
    } else {
        Err(RuntimeError::UnsupportedArchive { name: owned(name) })
    }
}

/// Where a tar entry is extracted: under `destination` when its path stays
/// inside, and only for directories and regular files.
pub fn tar_entry_target(destination: &str, entry_path: &str, kind: ArchiveEntryKind) -> (r: Result<
    String,
    RuntimeError,
>)
    ensures
        match r {
            Ok(t) => only_normal(entry_path@) && kind != ArchiveEntryKind::Other && t@ == join_path(
                destination@,
                entry_path@,
            ),
            Err(e) => if !only_normal(entry_path@) {
                e == RuntimeError::EscapedDestination
            } else {
                kind == ArchiveEntryKind::Other && e == RuntimeError::UnsupportedEntryType
            },
        },
{
    let relative = safe_relative_path(entry_path)?;
    match kind {
        ArchiveEntryKind::Other => Err(RuntimeError::UnsupportedEntryType),
        _ => Ok(join_str(destination, relative.as_str())),
    }
}

} // verus!
