use std::io::Write;

use ldraw_viewer::store::{ArchiveEntry, IngestionError, Ingested, PartLibrary};

fn entry(name: &str, data: &[u8]) -> ArchiveEntry {
    ArchiveEntry { name: name.to_string(), data: data.to_vec() }
}

fn zip_of(files: &[(&str, &[u8])]) -> Vec<u8> {
    let mut w = zip::ZipWriter::new(std::io::Cursor::new(Vec::new()));
    for (name, data) in files {
        w.start_file(*name, zip::write::SimpleFileOptions::default()).unwrap();
        w.write_all(data).unwrap();
    }
    w.finish().unwrap().into_inner()
}

#[test]
fn lookup_by_backslash_name_end_to_end() {
    let bytes = zip_of(&[("parts/8/4-4cyli.dat", b"0 cylinder\n1 16 0 0 0\n"), ("readme.txt", b"x")]);
    let lib = PartLibrary::new(bytes).unwrap();
    assert_eq!(lib.len(), 1);
    assert_eq!(lib.get_part("8\\4-4cyli.dat").unwrap(), b"0 cylinder\n1 16 0 0 0\n".to_vec());
    assert_eq!(lib.get_part("8/4-4cyli.dat").unwrap(), b"0 cylinder\n1 16 0 0 0\n".to_vec());
}

#[test]
fn missing_name_is_not_found() {
    let bytes = zip_of(&[("parts/3001.dat", b"brick")]);
    let lib = PartLibrary::new(bytes).unwrap();
    let err = lib.get_part("s\\missing.dat").unwrap_err();
    assert_eq!(err.name, "s/missing.dat");
    assert!(lib.get_part("parts/3001.dat").is_err());
}

#[test]
fn invalid_archive_is_an_ingestion_error() {
    assert_eq!(PartLibrary::new(b"not a zip".to_vec()).unwrap_err(), IngestionError::InvalidArchive);
    assert_eq!(PartLibrary::new(Vec::new()).unwrap_err(), IngestionError::InvalidArchive);
}

#[test]
fn archive_duplicates_are_reported_last_wins() {
    let bytes = zip_of(&[("ldraw/car.ldr", b"first"), ("models/car.ldr", b"second"), ("parts/3001.dat", b"b")]);
    let lib = PartLibrary::new(bytes).unwrap();
    assert_eq!(lib.len(), 2);
    assert_eq!(lib.get_part("car.ldr").unwrap(), b"second".to_vec());
    assert_eq!(lib.duplicates().clone(), vec!["car.ldr".to_string()]);
}

#[test]
fn duplicate_entries_keep_one_mapping_and_one_warning() {
    let lib = PartLibrary::from_entries(&vec![entry("parts/3001.dat", b"old"), entry("p/3001.dat", b"new")]);
    assert_eq!(lib.len(), 1);
    assert_eq!(lib.get_part("3001.dat").unwrap(), b"new".to_vec());
    assert_eq!(lib.duplicates().len(), 1);
    assert_eq!(lib.duplicates()[0], "3001.dat");
}

#[test]
fn ingest_reports_each_outcome() {
    let mut lib = PartLibrary::empty();
    assert_eq!(lib.ingest("ldraw/notes.txt", b"n".to_vec()), Ingested::Ignored);
    assert_eq!(lib.ingest("parts/3001.dat", b"a".to_vec()), Ingested::Added);
    assert_eq!(lib.ingest("parts/3002.dat", b"c".to_vec()), Ingested::Added);
    assert_eq!(lib.ingest("3001.dat", b"b".to_vec()), Ingested::Duplicate);
    assert_eq!(lib.len(), 2);
    assert_eq!(lib.get_part("3001.dat").unwrap(), b"b".to_vec());
    assert!(lib.get_part("notes.txt").is_err());
}

#[test]
fn keys_are_case_sensitive() {
    let lib = PartLibrary::from_entries(&vec![entry("parts/Brick.dat", b"B"), entry("parts/brick.dat", b"b")]);
    assert_eq!(lib.len(), 2);
    assert!(lib.duplicates().is_empty());
    assert_eq!(lib.get_part("Brick.dat").unwrap(), b"B".to_vec());
    assert!(lib.get_part("BRICK.dat").is_err());
}

#[test]
fn empty_library_finds_nothing() {
    let lib = PartLibrary::from_entries(&Vec::new());
    assert_eq!(lib.len(), 0);
    assert!(lib.get_part("").is_err());
}

#[test]
fn members_without_safe_path_are_skipped() {
    let bytes = zip_of(&[("../evil.dat", b"e"), ("parts/ok.dat", b"ok")]);
    let lib = PartLibrary::new(bytes).unwrap();
    assert_eq!(lib.len(), 1);
    assert_eq!(lib.get_part("ok.dat").unwrap(), b"ok".to_vec());
    assert!(lib.get_part("../evil.dat").is_err());
    assert!(lib.get_part("evil.dat").is_err());
}

#[test]
fn add_member_handles_each_reader_outcome() {
    let mut lib = PartLibrary::empty();
    assert_eq!(lib.add_member(0, Some((Some("parts/a.dat".to_string()), b"a".to_vec()))).unwrap(), Ingested::Added);
    assert_eq!(lib.add_member(1, Some((None, b"x".to_vec()))).unwrap(), Ingested::Ignored);
    assert_eq!(lib.add_member(2, Some((Some("p/a.dat".to_string()), b"b".to_vec()))).unwrap(), Ingested::Duplicate);
    assert_eq!(lib.add_member(3, None).unwrap_err(), IngestionError::UnreadableMember { index: 3 });
    assert_eq!(lib.len(), 1);
    assert_eq!(lib.get_part("a.dat").unwrap(), b"b".to_vec());
    assert_eq!(lib.duplicates().clone(), vec!["a.dat".to_string()]);
}
