use ldraw_viewer::bridge::{
    finish_remote_fetch, load_colors, load_part, reassemble, resolution_of, Location, RemoteFetch,
    ResolutionError,
};
use std::io::Write;

use ldraw_viewer::store::{ArchiveEntry, NotFound, PartLibrary};

fn library() -> PartLibrary {
    PartLibrary::from_entries(&vec![
        ArchiveEntry { name: "ldraw/LDConfig.ldr".to_string(), data: b"0 colors".to_vec() },
        ArchiveEntry { name: "parts/8/4-4cyli.dat".to_string(), data: b"cyl".to_vec() },
    ])
}

#[test]
fn chunks_are_joined_in_order() {
    let chunks = vec![b"AB".to_vec(), b"CD".to_vec(), b"EF".to_vec()];
    assert_eq!(reassemble(&chunks), b"ABCDEF".to_vec());
}

#[test]
fn empty_stream_gives_empty_buffer() {
    assert_eq!(reassemble(&Vec::new()), Vec::<u8>::new());
    assert_eq!(finish_remote_fetch(&RemoteFetch::Complete(Vec::new())).unwrap(), Vec::<u8>::new());
}

#[test]
fn remote_outcomes_map_to_resolution() {
    let ok = RemoteFetch::Complete(vec![b"A".to_vec(), Vec::new(), b"BC".to_vec()]);
    assert_eq!(finish_remote_fetch(&ok).unwrap(), b"ABC".to_vec());
    assert_eq!(finish_remote_fetch(&RemoteFetch::NotFound).unwrap_err(), ResolutionError::FileNotFound);
    assert_eq!(finish_remote_fetch(&RemoteFetch::Broken).unwrap_err(), ResolutionError::Stream);
}

#[test]
fn store_miss_becomes_file_not_found() {
    let miss: Result<Vec<u8>, NotFound> = Err(NotFound { name: "x.dat".to_string() });
    assert_eq!(resolution_of(miss).unwrap_err(), ResolutionError::FileNotFound);
    assert_eq!(resolution_of(Ok(b"z".to_vec())).unwrap(), b"z".to_vec());
}

#[test]
fn load_part_resolves_through_the_store() {
    let lib = library();
    let (location, bytes) = load_part(&lib, "8\\4-4cyli.dat", true).unwrap();
    assert_eq!(location, Location::Library);
    assert_eq!(bytes, b"cyl".to_vec());
    let (_, same) = load_part(&lib, "8/4-4cyli.dat", false).unwrap();
    assert_eq!(same, b"cyl".to_vec());
}

#[test]
fn load_part_of_missing_name_fails_without_panic() {
    let lib = library();
    assert_eq!(load_part(&lib, "nope.dat", true).unwrap_err(), ResolutionError::FileNotFound);
    assert_eq!(load_part(&lib, "\\\\garbled\u{0}", false).unwrap_err(), ResolutionError::FileNotFound);
}

#[test]
fn load_colors_reads_the_color_table() {
    assert_eq!(load_colors(&library()).unwrap(), b"0 colors".to_vec());
    assert_eq!(load_colors(&PartLibrary::empty()).unwrap_err(), ResolutionError::FileNotFound);
}

#[test]
fn missing_archive_entry_end_to_end() {
    let mut w = zip::ZipWriter::new(std::io::Cursor::new(Vec::new()));
    w.start_file("ldraw/parts/3001.dat", zip::write::SimpleFileOptions::default()).unwrap();
    w.write_all(b"brick").unwrap();
    let lib = PartLibrary::new(w.finish().unwrap().into_inner()).unwrap();
    let miss = lib.get_part("3001.dat");
    assert_eq!(miss.clone().unwrap_err().name, "3001.dat");
    assert_eq!(resolution_of(miss).unwrap_err(), ResolutionError::FileNotFound);
    assert_eq!(load_part(&lib, "parts\\3001.dat", true).unwrap().1, b"brick".to_vec());
}
