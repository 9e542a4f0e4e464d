use std::collections::HashMap;

use media_sort::metadata_parser::datetime_parser::read_datetime;
use media_sort::models::{Action, Config, FileTypes, MediaType};
use media_sort::sorting::{get_file_hash, numbered_name, process_document, process_files, process_media, IndexedFile};
use media_sort::timestamp::DateTimeUtc;

fn config() -> Config {
    Config {
        source_dir: "/src".to_string(),
        doc_dir: "/dest/doc".to_string(),
        image_dir: "/dest/image".to_string(),
        video_dir: "/dest/video".to_string(),
        file_exts: vec![
            ("docx".to_string(), FileTypes::DOCUMENT),
            ("jpg".to_string(), FileTypes::IMAGE),
            ("avi".to_string(), FileTypes::VIDEO),
        ],
    }
}

fn file(hash: u64, path: &str, ext: &str, taken: Option<DateTimeUtc>) -> IndexedFile {
    IndexedFile {
        hash,
        path: path.to_string(),
        file_name: path.rsplit('/').next().unwrap().to_string(),
        ext: ext.to_string(),
        taken,
    }
}

fn exif_jpeg(date: &[u8], scan: &[u8]) -> Vec<u8> {
    let mut b = vec![0xFF, 0xD8, 0xFF, 0xE1, 0x00, 0x40];
    b.extend_from_slice(b"Exif\0\0II");
    b.extend_from_slice(&[0x2a, 0, 8, 0, 0, 0, 1, 0]);
    b.extend_from_slice(&[0x03, 0x90, 2, 0, date.len() as u8, 0, 0, 0, 26, 0, 0, 0]);
    b.extend_from_slice(&[0, 0, 0, 0]);
    b.extend_from_slice(date);
    b.extend_from_slice(&[0xFF, 0xDA]);
    b.extend_from_slice(scan);
    b
}

fn strings(a: &[(Action, String, String)]) -> Vec<(Action, &str, &str)> {
    a.iter().map(|(k, s, d)| (*k, s.as_str(), d.as_str())).collect()
}

#[test]
fn destination_folders() {
    assert_eq!(
        config().get_destination_folders(),
        vec!["/dest/doc", "/dest/image", "/dest/image_temp", "/dest/video", "/dest/video_temp"]
    );
}

#[test]
fn file_type_lookup() {
    let c = config();
    assert_eq!(c.file_type(&"jpg".to_string()), Some(FileTypes::IMAGE));
    assert_eq!(c.file_type(&"docx".to_string()), Some(FileTypes::DOCUMENT));
    assert_eq!(c.file_type(&"txt".to_string()), None);
}

#[test]
fn jpeg_hash_ignores_metadata() {
    let a = exif_jpeg(b"2021:06:15 10:30:00\0", b"pixels");
    let b = exif_jpeg(b"1999:01:01 00:00:00\0", b"pixels");
    assert_ne!(a, b);
    assert_eq!(get_file_hash(&a), get_file_hash(&b));
}

#[test]
fn jpeg_hash_follows_scan_data() {
    let a = exif_jpeg(b"2021:06:15 10:30:00\0", b"pixels");
    let b = exif_jpeg(b"2021:06:15 10:30:00\0", b"pixelz");
    assert_ne!(get_file_hash(&a), get_file_hash(&b));
}

#[test]
fn jpeg_hash_is_the_hash_of_the_scan_data() {
    let a = exif_jpeg(b"2021:06:15 10:30:00\0", b"pixels");
    assert_eq!(get_file_hash(&a), Some(xxhash_rust::xxh3::xxh3_64(b"pixels")));
}

#[test]
fn other_files_hash_whole() {
    let data = b"%PDF-1.4 document".to_vec();
    assert_eq!(get_file_hash(&data), Some(xxhash_rust::xxh3::xxh3_64(&data)));
    assert_eq!(get_file_hash(&vec![1, 2]), Some(xxhash_rust::xxh3::xxh3_64(&[1, 2])));
}

#[test]
fn jpeg_without_scan_marker_has_no_hash() {
    assert_eq!(get_file_hash(&vec![0xFF, 0xD8, 0xFF, 0xE0, 0, 0x10, 1, 2, 3]), None);
    assert_eq!(get_file_hash(&vec![0xFF, 0xD8, 0xFF, 0xE0, 0xFF, 0xDA, 1]), None);
}

#[test]
fn dated_jpeg_goes_to_image_dir() {
    let data = exif_jpeg(b"2021:06:15 10:30:00\0", b"pixels");
    let f = file(1, "/src/holiday.JPG", "jpg", read_datetime(&data));
    let existing: HashMap<u64, String> = HashMap::new();
    let actions = process_files(&vec![f], &config(), Some(&existing));
    assert_eq!(
        strings(&actions),
        vec![(Action::Copy, "/src/holiday.JPG", "/dest/image/IMG_20210615_103000.jpg")]
    );
}

#[test]
fn dated_avi_goes_to_video_dir() {
    let mut riff = b"RIFF\x40\0\0\0AVI LIST\x26\0\0\0hdrlIDIT\x1a\0\0\0".to_vec();
    riff.extend_from_slice(b"Mon Jan 02 03:04:05 2006\n\0");
    let f = file(2, "/src/clip.avi", "avi", read_datetime(&riff));
    let r = process_media(&config(), MediaType::VIDEO, &f, true, true).unwrap();
    assert_eq!((r.0, r.1.as_str(), r.2.as_str()), (Action::Copy, "/src/clip.avi", "/dest/video/VID_20060102_030405.avi"));
}

#[test]
fn undated_media_goes_to_quarantine() {
    let f = file(3, "/src/scan.jpg", "jpg", None);
    let r = process_media(&config(), MediaType::IMAGE, &f, true, true).unwrap();
    assert_eq!((r.0, r.1.as_str(), r.2.as_str()), (Action::Copy, "/src/scan.jpg", "/dest/image_temp/scan.jpg"));
}

#[test]
fn filed_media_is_moved_and_placed_media_stays() {
    let t = DateTimeUtc { year: 2021, month: 6, day: 15, hour: 10, minute: 30, second: 0 };
    let misplaced = file(4, "/dest/image_temp/a.jpg", "jpg", Some(t));
    let placed = file(5, "/dest/image/IMG_20210615_103000.jpg", "jpg", Some(t));
    let actions = process_files(&vec![misplaced, placed], &config(), None);
    assert_eq!(
        strings(&actions),
        vec![(Action::Move, "/dest/image_temp/a.jpg", "/dest/image/IMG_20210615_103000.jpg")]
    );
}

#[test]
fn media_missing_from_its_index_is_deleted_when_filed() {
    let f = file(6, "/dest/image/x.jpg", "jpg", None);
    let r = process_media(&config(), MediaType::IMAGE, &f, false, false).unwrap();
    assert_eq!((r.0, r.1.as_str(), r.2.as_str()), (Action::Delete, "/dest/image/x.jpg", "/dest/image/x.jpg"));
    assert!(process_media(&config(), MediaType::IMAGE, &f, false, true).is_none());
}

#[test]
fn new_document_is_copied_by_name() {
    let t = DateTimeUtc { year: 2021, month: 6, day: 15, hour: 10, minute: 30, second: 0 };
    for taken in [None, Some(t)] {
        let f = file(7, "/src/work/report.docx", "docx", taken);
        let existing: HashMap<u64, String> = HashMap::new();
        let actions = process_files(&vec![f], &config(), Some(&existing));
        assert_eq!(strings(&actions), vec![(Action::Copy, "/src/work/report.docx", "/dest/doc/report.docx")]);
    }
}

#[test]
fn filed_documents_stay() {
    let f = file(8, "/dest/doc/report.docx", "docx", None);
    assert!(process_document(&config(), &f, false).is_none());
    assert!(process_files(&vec![f], &config(), None).is_empty());
}

#[test]
fn duplicates_of_filed_files_get_no_action() {
    let mut existing: HashMap<u64, String> = HashMap::new();
    existing.insert(42, "/dest/image/IMG_20210615_103000.jpg".to_string());
    let dup = file(42, "/src/copy.jpg", "jpg", None);
    let fresh = file(43, "/src/other.jpg", "jpg", None);
    let actions = process_files(&vec![dup, fresh], &config(), Some(&existing));
    assert_eq!(strings(&actions), vec![(Action::Copy, "/src/other.jpg", "/dest/image_temp/other.jpg")]);
}

#[test]
fn unknown_extensions_get_no_action() {
    let f = file(9, "/src/notes.txt", "txt", None);
    let existing: HashMap<u64, String> = HashMap::new();
    assert!(process_files(&vec![f], &config(), Some(&existing)).is_empty());
}

#[test]
fn collision_names_count_up() {
    let stem = "IMG_20210615_103000".to_string();
    let ext = "jpg".to_string();
    assert_eq!(numbered_name(&stem, &ext, 1), "IMG_20210615_103000(1).jpg");
    assert_eq!(numbered_name(&stem, &ext, 12), "IMG_20210615_103000(12).jpg");
}
