use std::io::{Cursor, Write};

use pilothub::package_managers::archive::{
    entry_targets, extract_tar_gz, extract_zip, file_mode, read_archive, tar_entry_targets,
    zip_entry_targets, ArchiveEntry,
};
use pilothub::package_managers::runtime::{ArchiveFormat, RuntimeError};

fn zip_bytes(entries: &[(&str, Option<&[u8]>)]) -> Vec<u8> {
    let mut writer = zip::ZipWriter::new(Cursor::new(Vec::new()));
    let options = zip::write::SimpleFileOptions::default()
        .compression_method(zip::CompressionMethod::Stored)
        .unix_permissions(0o755);
    for (name, data) in entries {
        match data {
            None => writer.add_directory(*name, options).unwrap(),
            Some(bytes) => {
                writer.start_file(*name, options).unwrap();
                writer.write_all(bytes).unwrap();
            }
        }
    }
    writer.finish().unwrap().into_inner()
}

fn tar_gz_bytes(entries: &[(&str, tar::EntryType, &[u8])]) -> Vec<u8> {
    let mut builder = tar::Builder::new(Vec::new());
    for (name, kind, data) in entries {
        let mut header = tar::Header::new_gnu();
        header.set_entry_type(*kind);
        header.set_mode(0o100755);
        header.set_size(data.len() as u64);
        if *kind == tar::EntryType::Symlink {
            header.set_link_name("target").unwrap();
        }
        builder.append_data(&mut header, *name, *data).unwrap();
    }
    let raw = builder.into_inner().unwrap();
    let mut encoder = flate2::write::GzEncoder::new(Vec::new(), flate2::Compression::default());
    encoder.write_all(&raw).unwrap();
    encoder.finish().unwrap()
}

fn entry(name: Option<&str>, is_dir: bool, is_file: bool) -> ArchiveEntry {
    ArchiveEntry {
        name: name.map(str::to_string),
        is_dir,
        is_file,
        mode: None,
        data: Vec::new(),
    }
}

#[test]
fn zip_entries_are_read_and_placed_below_the_destination() {
    let bytes = zip_bytes(&[("bin/", None), ("bin/apm", Some(b"#!/bin/sh\n"))]);
    let entries = read_archive(ArchiveFormat::Zip, &bytes).unwrap();
    assert_eq!(entries.len(), 2);
    assert!(entries[0].name.as_deref().unwrap().starts_with("bin"));
    assert!(entries[0].is_dir);
    assert_eq!(entries[1].name.as_deref(), Some("bin/apm"));
    assert!(!entries[1].is_dir && entries[1].is_file);
    assert_eq!(entries[1].data, b"#!/bin/sh\n".to_vec());
    assert_eq!(file_mode(ArchiveFormat::Zip, &entries[1]).map(|m| m & 0o777), Some(0o755));
    let targets = zip_entry_targets("/tmp/staging", &entries).unwrap();
    assert!(targets[0].starts_with("/tmp/staging/bin"));
    assert_eq!(targets[1], "/tmp/staging/bin/apm");
}

#[test]
fn zip_entries_that_escape_fail_the_archive() {
    let bytes = zip_bytes(&[("apm", Some(b"x")), ("../evil", Some(b"y"))]);
    let entries = read_archive(ArchiveFormat::Zip, &bytes).unwrap();
    assert_eq!(entries[1].name, None);
    assert_eq!(
        zip_entry_targets("/tmp/staging", &entries),
        Err(RuntimeError::EscapedDestination)
    );
    assert_eq!(
        zip_entry_targets("/tmp/staging", &[entry(Some("a"), false, true), entry(None, false, true)]),
        Err(RuntimeError::EscapedDestination)
    );
}

#[test]
fn tar_gz_entries_are_read_and_placed_below_the_destination() {
    let bytes = tar_gz_bytes(&[
        ("apm", tar::EntryType::Directory, b""),
        ("apm/apm", tar::EntryType::Regular, b"binary"),
    ]);
    let entries = read_archive(ArchiveFormat::TarGz, &bytes).unwrap();
    assert_eq!(entries.len(), 2);
    assert!(entries[0].is_dir);
    assert!(entries[1].is_file);
    assert_eq!(entries[1].data, b"binary".to_vec());
    assert_eq!(file_mode(ArchiveFormat::TarGz, &entries[1]), Some(0o755));
    assert_eq!(
        tar_entry_targets("/tmp/staging", &entries).unwrap(),
        vec!["/tmp/staging/apm".to_string(), "/tmp/staging/apm/apm".to_string()]
    );
}

#[test]
fn tar_entries_that_escape_or_are_links_fail_the_archive() {
    let bytes = tar_gz_bytes(&[
        ("apm", tar::EntryType::Regular, b"binary"),
        ("link", tar::EntryType::Symlink, b""),
    ]);
    let entries = read_archive(ArchiveFormat::TarGz, &bytes).unwrap();
    assert!(!entries[1].is_dir && !entries[1].is_file);
    assert_eq!(
        tar_entry_targets("/tmp/staging", &entries),
        Err(RuntimeError::UnsupportedEntryType)
    );
    assert_eq!(
        tar_entry_targets(
            "/tmp/staging",
            &[entry(Some("../apm"), false, true), entry(Some("x"), false, false)]
        ),
        Err(RuntimeError::EscapedDestination)
    );
    assert_eq!(
        entry_targets(ArchiveFormat::TarGz, "/tmp/staging", &[entry(Some("x"), false, false)]),
        Err(RuntimeError::UnsupportedEntryType)
    );
    assert_eq!(
        entry_targets(ArchiveFormat::Zip, "/tmp/staging", &[entry(Some("x"), false, false)]),
        Ok(vec!["/tmp/staging/x".to_string()])
    );
}

#[test]
fn unreadable_archives_are_reported() {
    match read_archive(ArchiveFormat::Zip, b"not a zip archive") {
        Err(RuntimeError::UnreadableArchive { message }) => assert!(!message.is_empty()),
        other => panic!("unexpected {other:?}"),
    }
    let error = read_archive(ArchiveFormat::TarGz, b"not gzip").unwrap_err();
    assert!(error.to_string().starts_with("read Microsoft APM archive: "));
}

#[test]
fn extracting_gives_each_entry_with_its_target() {
    let (entries, targets) =
        extract_zip(&zip_bytes(&[("apm", Some(b"binary"))]), "/tmp/staging").unwrap();
    assert_eq!(entries[0].data, b"binary".to_vec());
    assert_eq!(targets, vec!["/tmp/staging/apm".to_string()]);
    let (entries, targets) = extract_tar_gz(
        &tar_gz_bytes(&[("apm/apm", tar::EntryType::Regular, b"binary")]),
        "/tmp/staging",
    )
    .unwrap();
    assert_eq!(entries[0].data, b"binary".to_vec());
    assert_eq!(targets, vec!["/tmp/staging/apm/apm".to_string()]);
    assert_eq!(
        extract_zip(&zip_bytes(&[("../evil", Some(b"x"))]), "/tmp/staging"),
        Err(RuntimeError::EscapedDestination)
    );
    assert!(matches!(
        extract_tar_gz(b"not gzip", "/tmp/staging"),
        Err(RuntimeError::UnreadableArchive { .. })
    ));
}

#[test]
fn zip_paths_that_climb_above_the_destination_are_refused() {
    assert_eq!(
        zip_entry_targets("/dest", &[entry(Some("../outside"), false, true)]),
        Err(RuntimeError::EscapedDestination)
    );
    assert_eq!(
        zip_entry_targets("/dest", &[entry(Some("a/../../b"), false, true)]),
        Err(RuntimeError::EscapedDestination)
    );
    assert_eq!(
        zip_entry_targets("/dest", &[entry(Some("/etc/passwd"), false, true)]),
        Err(RuntimeError::EscapedDestination)
    );
    assert_eq!(
        zip_entry_targets(
            "/dest",
            &[entry(Some("a/../b"), false, true), entry(Some("./c"), false, true)]
        ),
        Ok(vec!["/dest/a/../b".to_string(), "/dest/./c".to_string()])
    );
}

#[test]
fn extracts_safe_zip_archive() {
    let mut writer = zip::ZipWriter::new(Cursor::new(Vec::new()));
    writer
        .start_file("apm-windows-x86_64/apm.exe", zip::write::SimpleFileOptions::default())
        .unwrap();
    writer.write_all(b"binary").unwrap();
    let bytes = writer.finish().unwrap().into_inner();
    let (entries, targets) = extract_zip(&bytes, "/tmp/destination").unwrap();
    assert_eq!(targets, vec!["/tmp/destination/apm-windows-x86_64/apm.exe".to_string()]);
    assert_eq!(entries[0].data, b"binary".to_vec());
}
