//! Reading APM release archives (zip, and tar inside gzip) into plain
//! entries, and where each entry is extracted.
use vstd::prelude::*;
use std::io::Read;
use flate2::read::GzDecoder;
use crate::paths::{
    below_destination, join_path, join_str, lemma_only_normal_never_climbs, never_climbs,
    never_climbs_path, only_normal,
};
use crate::text::chars_of;
use super::runtime::{tar_entry_target, ArchiveEntryKind, ArchiveFormat, RuntimeError};

verus! {

/// One entry of an archive: its path (for zip entries, the path the zip
/// crate finds enclosed in the destination, none when it would escape),
/// whether it is a directory or a regular file, its Unix mode when the
/// archive records one, and its contents.
#[derive(Debug, Clone, PartialEq, Eq)]
pub struct ArchiveEntry {
    pub name: Option<String>,
    pub is_dir: bool,
    pub is_file: bool,
    pub mode: Option<u32>,
    pub data: Vec<u8>,
}

/// An archive entry as plain values.
pub type ArchiveEntryView = (Option<Seq<char>>, bool, bool, Option<u32>, Seq<u8>);

/// The plain values of an archive entry.
pub open spec fn entry_view(e: ArchiveEntry) -> ArchiveEntryView {
    (
        match e.name {
            Some(n) => Some(n@),
            None => None,
        },
        e.is_dir,
        e.is_file,
        e.mode,
        e.data@,
    )
}

/// The plain values of the entries of an archive.
pub open spec fn entry_views(es: Seq<ArchiveEntry>) -> Seq<ArchiveEntryView> {
    es.map_values(|e: ArchiveEntry| entry_view(e))
}

/// The plain values of what reading an archive gave.
pub open spec fn read_view(r: Result<Vec<ArchiveEntry>, String>) -> Result<Seq<ArchiveEntryView>, Seq<char>> {
    match r {
        Ok(es) => Ok(entry_views(es@)),
        Err(m) => Err(m@),
    }
}

/// The entries, in archive order, that the zip crate reads from `bytes`, or
/// the text of its error.
pub uninterp spec fn zip_entries_of(bytes: Seq<u8>) -> Result<Seq<ArchiveEntryView>, Seq<char>>;

/// The entries, in archive order, that the tar crate reads from `bytes`
/// decompressed by flate2's gzip decoder as it reads, or the text of the
/// error.
pub uninterp spec fn tar_gz_entries_of(bytes: Seq<u8>) -> Result<Seq<ArchiveEntryView>, Seq<char>>;

/// Calls `zip::ZipArchive::new` on `bytes` and, for each index below
/// `len`, `by_index`, then `enclosed_name`, `is_dir`, `is_file`,
/// `unix_mode` and the entry's contents.
/// Trusted: the result is what `zip_entries_of` names for these bytes.
#[verifier::external_body]
pub(crate) fn read_zip_entries(bytes: &[u8]) -> (r: Result<Vec<ArchiveEntry>, String>)
    ensures
        read_view(r) == zip_entries_of(bytes@),
{
    let mut archive = zip::ZipArchive::new(std::io::Cursor::new(bytes)).map_err(|e| e.to_string())?;
    let mut entries = Vec::new();
    for index in 0..archive.len() {
        let mut file = archive.by_index(index).map_err(|e| e.to_string())?;
        let mut data = Vec::new();
        file.read_to_end(&mut data).map_err(|e| e.to_string())?;
        let name = file.enclosed_name().map(|p| p.to_string_lossy().into_owned());
        let (is_dir, is_file, mode) = (file.is_dir(), file.is_file(), file.unix_mode());
        entries.push(ArchiveEntry { name, is_dir, is_file, mode, data });
    }
    Ok(entries)
}

/// Calls `tar::Archive::entries` on `bytes` read through
/// `flate2::read::GzDecoder` and, for each entry, its `path`, its header's
/// `entry_type` (`is_dir`, `is_file`) and `mode`, and its contents.
/// Trusted: the result is what `tar_gz_entries_of` names for these bytes.
#[verifier::external_body]
pub(crate) fn read_tar_gz_entries(bytes: &[u8]) -> (r: Result<Vec<ArchiveEntry>, String>)
    ensures
        read_view(r) == tar_gz_entries_of(bytes@),
{
    let text = |e: std::io::Error| e.to_string();
    let mut entries = Vec::new();
    for entry in tar::Archive::new(GzDecoder::new(bytes)).entries().map_err(text)? {
        let mut entry = entry.map_err(text)?;
        let name = Some(entry.path().map_err(text)?.to_string_lossy().into_owned());
        let (kind, mode) = (entry.header().entry_type(), entry.header().mode().ok());
        let mut data = Vec::new();
        entry.read_to_end(&mut data).map_err(text)?;
        entries.push(ArchiveEntry { name, is_dir: kind.is_dir(), is_file: kind.is_file(), mode, data });
    }
    Ok(entries)
}

/// What reading an archive of `format` gives.
pub open spec fn archive_read_of(format: ArchiveFormat, bytes: Seq<u8>) -> Result<Seq<ArchiveEntryView>, Seq<char>> {
    match format {
        ArchiveFormat::Zip => zip_entries_of(bytes),
        ArchiveFormat::TarGz => tar_gz_entries_of(bytes),
    }
}

/// Reads the entries of an archive of `format`; a read error becomes
/// `UnreadableArchive` with its text.
pub fn read_archive(format: ArchiveFormat, bytes: &[u8]) -> (r: Result<Vec<ArchiveEntry>, RuntimeError>)
    ensures
        match archive_read_of(format, bytes@) {
            Ok(es) => (r matches Ok(got) && entry_views(got@) == es),
            Err(m) => (r matches Err(RuntimeError::UnreadableArchive { message }) && message@ == m),
        },
{
    let read = match format {
        ArchiveFormat::Zip => read_zip_entries(bytes),
        ArchiveFormat::TarGz => read_tar_gz_entries(bytes),
    };
    match read {
        Ok(es) => Ok(es),
        Err(message) => Err(RuntimeError::UnreadableArchive { message }),
    }
}

/// The kind of an entry: a directory, else a regular file, else another
/// kind.
pub open spec fn entry_kind(e: ArchiveEntryView) -> ArchiveEntryKind {
    if e.1 {
        ArchiveEntryKind::Directory
    } else if e.2 {
        ArchiveEntryKind::File
    } else {
        ArchiveEntryKind::Other
    }
}

/// Where a zip entry goes: its enclosed path joined below `destination`
/// when that path never climbs above the destination (what the zip crate's
/// `enclosed_name` also requires); an entry without such a path escapes the
/// destination.
pub open spec fn zip_target(destination: Seq<char>, e: ArchiveEntryView) -> Result<Seq<char>, RuntimeError> {
    match e.0 {
        Some(n) => if never_climbs(n) {
            Ok(join_path(destination, n))
        } else {
            Err(RuntimeError::EscapedDestination)
        },
        None => Err(RuntimeError::EscapedDestination),
    }
}

/// Where a tar entry goes: its path joined below `destination` when the path
/// stays inside and the entry is a directory or a regular file.
pub open spec fn tar_target(destination: Seq<char>, e: ArchiveEntryView) -> Result<Seq<char>, RuntimeError> {
    match e.0 {
        None => Err(RuntimeError::EscapedDestination),
        Some(n) => if !only_normal(n) {
            Err(RuntimeError::EscapedDestination)
        } else if entry_kind(e) == ArchiveEntryKind::Other {
            Err(RuntimeError::UnsupportedEntryType)
        } else {
            Ok(join_path(destination, n))
        },
    }
}

/// Where an entry of an archive of `format` goes.
pub open spec fn entry_target(format: ArchiveFormat, destination: Seq<char>, e: ArchiveEntryView) -> Result<Seq<char>, RuntimeError> {
    match format {
        ArchiveFormat::Zip => zip_target(destination, e),
        ArchiveFormat::TarGz => tar_target(destination, e),
    }
}

/// `r` gives every entry of `es`, in order, its target below
/// `destination`, or the error of the first entry that has none.
pub open spec fn targets_match(
    format: ArchiveFormat,
    destination: Seq<char>,
    es: Seq<ArchiveEntryView>,
    r: Result<Vec<String>, RuntimeError>,
) -> bool {
    match r {
        Ok(ts) => ts.len() == es.len() && forall|i: int|
            0 <= i < es.len() ==> #[trigger] entry_target(format, destination, es[i]) == Ok::<Seq<char>, RuntimeError>(
                ts@[i]@,
            ),
        Err(e) => exists|k: int|
            0 <= k < es.len() && (forall|j: int| 0 <= j < k ==> #[trigger] entry_target(format, destination, es[j]) is Ok)
                && #[trigger] entry_target(format, destination, es[k]) == Err::<Seq<char>, RuntimeError>(e),
    }
}

/// The target of one entry.
fn one_target(format: ArchiveFormat, destination: &str, e: &ArchiveEntry) -> (r: Result<String, RuntimeError>)
    ensures
        match r {
            Ok(t) => entry_target(format, destination@, entry_view(*e)) == Ok::<Seq<char>, RuntimeError>(t@),
            Err(x) => entry_target(format, destination@, entry_view(*e)) == Err::<Seq<char>, RuntimeError>(x),
        },
{
    let name = match &e.name {
        Some(n) => n,
        None => return Err(RuntimeError::EscapedDestination),
    };
    match format {
        ArchiveFormat::Zip => if never_climbs_path(&chars_of(name.as_str())) {
            Ok(join_str(destination, name.as_str()))
        } else {
            Err(RuntimeError::EscapedDestination)
        },
        ArchiveFormat::TarGz => {
            let kind = if e.is_dir {
                ArchiveEntryKind::Directory
            } else if e.is_file {
                ArchiveEntryKind::File
            } else {
                ArchiveEntryKind::Other
            };
            tar_entry_target(destination, name.as_str(), kind)
        },
    }
}

/// Where each entry of an archive of `format` is extracted below
/// `destination`, in archive order; the first entry that would escape the
/// destination (or, in a tar archive, is neither a directory nor a regular
/// file) fails the whole archive with its error.
pub fn entry_targets(format: ArchiveFormat, destination: &str, entries: &[ArchiveEntry]) -> (r: Result<Vec<String>, RuntimeError>)
    ensures
        targets_match(format, destination@, entry_views(entries@), r),
{
    let ghost es = entry_views(entries@);
    let mut ts: Vec<String> = Vec::new();
    let mut i: usize = 0;
    while i < entries.len()
        invariant
            i <= entries.len(),
            es == entry_views(entries@),
            ts.len() == i,
            forall|j: int| 0 <= j < i ==> #[trigger] entry_target(format, destination@, es[j])
                == Ok::<Seq<char>, RuntimeError>(ts@[j]@),
        decreases entries.len() - i,
    {
        match one_target(format, destination, &entries[i]) {
            Ok(t) => {
                ts.push(t);
            },
            Err(x) => {
                assert(entry_target(format, destination@, es[i as int]) == Err::<Seq<char>, RuntimeError>(x));
                assert(forall|j: int| 0 <= j < i ==> #[trigger] entry_target(format, destination@, es[j]) is Ok);
                return Err(x);
            },
        }
        i = i + 1;
    }
    Ok(ts)
}

/// Where each entry of a zip archive is extracted: entry `i` goes to its
/// enclosed path joined below `destination`; the first entry without an
/// enclosed path, or whose path would climb above the destination, fails
/// with `EscapedDestination`.
pub fn zip_entry_targets(destination: &str, entries: &[ArchiveEntry]) -> (r: Result<Vec<String>, RuntimeError>)
    ensures
        targets_match(ArchiveFormat::Zip, destination@, entry_views(entries@), r),
{
    entry_targets(ArchiveFormat::Zip, destination, entries)
}

/// Where each entry of a tar archive is extracted: entry `i` goes where
/// `tar_entry_target` puts it; the first entry it refuses fails the
/// archive with that error.
pub fn tar_entry_targets(destination: &str, entries: &[ArchiveEntry]) -> (r: Result<Vec<String>, RuntimeError>)
    ensures
        targets_match(ArchiveFormat::TarGz, destination@, entry_views(entries@), r),
{
    entry_targets(ArchiveFormat::TarGz, destination, entries)
}

/// Every target an extraction gives lies inside the destination: it is
/// the destination joined with a relative path that never climbs above it,
/// for zip and for tar archives alike.
pub proof fn law_extracted_files_stay_below(
    format: ArchiveFormat,
    destination: Seq<char>,
    es: Seq<ArchiveEntryView>,
    r: Result<Vec<String>, RuntimeError>,
)
    requires
        targets_match(format, destination, es, r),
    ensures
        r matches Ok(ts) ==> forall|i: int| 0 <= i < ts@.len() ==> below_destination(#[trigger] ts@[i]@, destination),
{
    if let Ok(ts) = r {
        assert forall|i: int| 0 <= i < ts@.len() implies below_destination(#[trigger] ts@[i]@, destination) by {
            assert(entry_target(format, destination, es[i]) == Ok::<Seq<char>, RuntimeError>(ts@[i]@));
            let n = es[i].0->0;
            if format == ArchiveFormat::TarGz {
                lemma_only_normal_never_climbs(n);
            }
            assert(never_climbs(n) && ts@[i]@ == join_path(destination, n));
        }
    }
}

/// What extracting an archive of `format` below `destination` writes: the
/// archive's entries, in order, each with its target; the archive's read
/// error, or the error of the first entry without a target, fails the whole
/// archive.
pub fn extract_archive(format: ArchiveFormat, bytes: &[u8], destination: &str) -> (r: Result<
    (Vec<ArchiveEntry>, Vec<String>),
    RuntimeError,
>)
    ensures
        match archive_read_of(format, bytes@) {
            Err(m) => (r matches Err(RuntimeError::UnreadableArchive { message }) && message@ == m),
            Ok(es) => match r {
                Ok((got, ts)) => entry_views(got@) == es && targets_match(format, destination@, es, Ok(ts)),
                Err(e) => targets_match(format, destination@, es, Err(e)),
            },
        },
        r matches Ok((_, ts)) ==> forall|i: int|
            0 <= i < ts@.len() ==> below_destination(#[trigger] ts@[i]@, destination@),
{
    let entries = read_archive(format, bytes)?;
    let targets = entry_targets(format, destination, entries.as_slice());
    proof {
        law_extracted_files_stay_below(format, destination@, entry_views(entries@), targets);
    }
    let targets = targets?;
    Ok((entries, targets))
}

/// What extracting a zip archive below `destination` writes (see
/// `extract_archive`).
pub fn extract_zip(bytes: &[u8], destination: &str) -> (r: Result<(Vec<ArchiveEntry>, Vec<String>), RuntimeError>)
    ensures
        match zip_entries_of(bytes@) {
            Err(m) => (r matches Err(RuntimeError::UnreadableArchive { message }) && message@ == m),
            Ok(es) => match r {
                Ok((got, ts)) => entry_views(got@) == es && targets_match(ArchiveFormat::Zip, destination@, es, Ok(ts)),
                Err(e) => targets_match(ArchiveFormat::Zip, destination@, es, Err(e)),
            },
        },
        r matches Ok((_, ts)) ==> forall|i: int|
            0 <= i < ts@.len() ==> below_destination(#[trigger] ts@[i]@, destination@),
{
    extract_archive(ArchiveFormat::Zip, bytes, destination)
}

/// What extracting a gzip-compressed tar archive below `destination`
/// writes (see `extract_archive`).
pub fn extract_tar_gz(bytes: &[u8], destination: &str) -> (r: Result<(Vec<ArchiveEntry>, Vec<String>), RuntimeError>)
    ensures
        match archive_read_of(ArchiveFormat::TarGz, bytes@) {
            Err(m) => (r matches Err(RuntimeError::UnreadableArchive { message }) && message@ == m),
            Ok(es) => match r {
                Ok((got, ts)) => entry_views(got@) == es && targets_match(ArchiveFormat::TarGz, destination@, es, Ok(ts)),
                Err(e) => targets_match(ArchiveFormat::TarGz, destination@, es, Err(e)),
            },
        },
        r matches Ok((_, ts)) ==> forall|i: int|
            0 <= i < ts@.len() ==> below_destination(#[trigger] ts@[i]@, destination@),
{
    extract_archive(ArchiveFormat::TarGz, bytes, destination)
}

/// The permission bits an extracted file gets: a zip entry's recorded Unix
/// mode as it is; a tar entry's mode without the bits above `0o777`.
pub open spec fn file_mode_of(format: ArchiveFormat, mode: Option<u32>) -> Option<u32> {
    match mode {
        None => None,
        Some(m) => match format {
            ArchiveFormat::Zip => Some(m),
            ArchiveFormat::TarGz => Some(m & 0o777u32),
        },
    }
}

/// The permission bits to give the file extracted from `entry`.
pub fn file_mode(format: ArchiveFormat, entry: &ArchiveEntry) -> (r: Option<u32>)
    ensures
        r == file_mode_of(format, entry.mode),
{
    match entry.mode {
        None => None,
        Some(m) => match format {
            ArchiveFormat::Zip => Some(m),
            ArchiveFormat::TarGz => Some(m & 0o777u32),
        },
    }
}

} // verus!
