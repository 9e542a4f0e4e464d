use media_sort::metadata_parser::datetime_parser::read_datetime;
use media_sort::metadata_parser::riff_parser::{self, ChunkType};
use media_sort::metadata_parser::{exif_parser, quicktime_parser};
use media_sort::timestamp::DateTimeUtc;
use media_sort::util::io::StepableBuffReader;

fn dt(year: i32, month: u32, day: u32, hour: u32, minute: u32, second: u32) -> DateTimeUtc {
    DateTimeUtc { year, month, day, hour, minute, second }
}

/// A JPEG whose EXIF block is in the given byte order and holds `date` in
/// its first IFD, or only an unrelated tag when `date` is empty.
fn jpeg(big_endian: bool, date: &[u8]) -> Vec<u8> {
    let u16b = |v: u16| if big_endian { v.to_be_bytes().to_vec() } else { v.to_le_bytes().to_vec() };
    let u32b = |v: u32| if big_endian { v.to_be_bytes().to_vec() } else { v.to_le_bytes().to_vec() };
    let mut b = vec![0xFF, 0xD8, 0xFF, 0xE1, 0x00, 0x40];
    b.extend_from_slice(b"Exif\0\0");
    b.extend_from_slice(if big_endian { b"MM" } else { b"II" });
    b.extend(u16b(0x2a));
    b.extend(u32b(8));
    b.extend(u16b(1));
    if date.is_empty() {
        b.extend(u16b(0x010f));
        b.extend(u16b(2));
        b.extend(u32b(4));
        b.extend(u32b(0));
    } else {
        b.extend(u16b(0x9003));
        b.extend(u16b(2));
        b.extend(u32b(date.len() as u32));
        b.extend(u32b(26));
    }
    b.extend_from_slice(&[0, 0, 0, 0]);
    b.extend_from_slice(date);
    b.extend_from_slice(&[0xFF, 0xDA, 1, 2, 3, 4]);
    b
}

fn chunk(tag: &[u8], payload: &[u8]) -> Vec<u8> {
    let mut b = tag.to_vec();
    b.extend((payload.len() as u32).to_le_bytes());
    b.extend_from_slice(payload);
    b
}

fn list(kind: &[u8], children: &[u8]) -> Vec<u8> {
    let mut payload = kind.to_vec();
    payload.extend_from_slice(children);
    chunk(b"LIST", &payload)
}

fn riff(body: &[u8]) -> Vec<u8> {
    let mut payload = b"AVI ".to_vec();
    payload.extend_from_slice(body);
    chunk(b"RIFF", &payload)
}

fn atom(tag: &[u8], payload: &[u8]) -> Vec<u8> {
    let mut b = ((payload.len() + 8) as u32).to_be_bytes().to_vec();
    b.extend_from_slice(tag);
    b.extend_from_slice(payload);
    b
}

fn quicktime(seconds: u32) -> Vec<u8> {
    let mut mdhd = vec![0, 0, 0, 0];
    mdhd.extend(seconds.to_be_bytes());
    mdhd.extend(seconds.to_be_bytes());
    mdhd.extend(600u32.to_be_bytes());
    let mut b = atom(b"ftyp", b"isom\0\0\x02\0");
    b.extend(atom(b"free", &[]));
    let moov = atom(b"moov", &[atom(b"mvhd", &[0; 12]), atom(b"trak", &atom(b"mdia", &atom(b"mdhd", &mdhd)))].concat());
    b.extend(moov);
    b
}

#[test]
fn exif_little_endian_date() {
    let data = jpeg(false, b"2021:06:15 10:30:00\0");
    assert_eq!(read_datetime(&data), Some(dt(2021, 6, 15, 10, 30, 0)));
    let mut reader = StepableBuffReader::new(&data);
    assert_eq!(exif_parser::parse_datetime(&mut reader), Some(dt(2021, 6, 15, 10, 30, 0)));
}

#[test]
fn exif_big_endian_date() {
    assert_eq!(read_datetime(&jpeg(true, b"2021:06:15 10:30:00\0")), Some(dt(2021, 6, 15, 10, 30, 0)));
}

#[test]
fn exif_without_date_tag_gives_none() {
    assert_eq!(read_datetime(&jpeg(false, b"")), None);
    assert_eq!(read_datetime(&jpeg(true, b"")), None);
}

#[test]
fn exif_with_zero_offset_gives_none() {
    let mut data = jpeg(false, b"2021:06:15 10:30:00\0");
    data[30..34].copy_from_slice(&[0, 0, 0, 0]);
    assert_eq!(read_datetime(&data), None);
}

#[test]
fn exif_sub_ifd_pointer_is_followed() {
    // First IFD: a pointer to a sub-IFD at TIFF offset 22, which holds the date.
    let mut b = vec![0xFF, 0xD8, 0xFF, 0xE1, 0x00, 0x40];
    b.extend_from_slice(b"Exif\0\0II");
    b.extend_from_slice(&[0x2a, 0, 8, 0, 0, 0, 1, 0]);
    b.extend_from_slice(&[0x69, 0x87, 4, 0, 1, 0, 0, 0, 22, 0, 0, 0]);
    b.extend_from_slice(&[1, 0]);
    b.extend_from_slice(&[0x03, 0x90, 2, 0, 20, 0, 0, 0, 40, 0, 0, 0]);
    b.extend_from_slice(&[0, 0, 0, 0]);
    b.extend_from_slice(b"2019:01:02 03:04:05\0");
    assert_eq!(read_datetime(&b), Some(dt(2019, 1, 2, 3, 4, 5)));
}

#[test]
fn exif_second_level_pointer_is_not_followed() {
    // First IFD points to a sub-IFD at 22, which points to another at 36
    // holding the date; only one level is followed.
    let mut b = vec![0xFF, 0xD8, 0xFF, 0xE1, 0x00, 0x40];
    b.extend_from_slice(b"Exif\0\0II");
    b.extend_from_slice(&[0x2a, 0, 8, 0, 0, 0, 1, 0]);
    b.extend_from_slice(&[0x69, 0x87, 4, 0, 1, 0, 0, 0, 22, 0, 0, 0]);
    b.extend_from_slice(&[1, 0]);
    b.extend_from_slice(&[0x69, 0x87, 4, 0, 1, 0, 0, 0, 36, 0, 0, 0]);
    b.extend_from_slice(&[1, 0]);
    b.extend_from_slice(&[0x03, 0x90, 2, 0, 20, 0, 0, 0, 54, 0, 0, 0]);
    b.extend_from_slice(&[0, 0, 0, 0]);
    b.extend_from_slice(b"2019:01:02 03:04:05\0");
    assert_eq!(read_datetime(&b), None);
}

#[test]
fn truncated_exif_gives_none() {
    let data = jpeg(false, b"2021:06:15 10:30:00\0");
    assert_eq!(read_datetime(&data[..30].to_vec()), None);
}

#[test]
fn riff_idit_date() {
    let body = list(b"hdrl", &chunk(b"IDIT", b"Mon Jan 02 03:04:05 2006\n\0"));
    let data = riff(&body);
    assert_eq!(read_datetime(&data), Some(dt(2006, 1, 2, 3, 4, 5)));
    let mut reader = StepableBuffReader::new(&data);
    assert!(reader.compare_bytes(b"RIFF".to_vec()));
    assert_eq!(riff_parser::parse_datetime(&mut reader), Some(dt(2006, 1, 2, 3, 4, 5)));
}

#[test]
fn riff_skips_other_chunks() {
    let mut body = chunk(b"JUNK", &[0; 12]);
    body.extend(list(b"hdrl", &[chunk(b"avih", &[0; 8]), chunk(b"IDIT", b"2010:05:06 07:08:09\0")].concat()));
    assert_eq!(read_datetime(&riff(&body)), Some(dt(2010, 5, 6, 7, 8, 9)));
}

#[test]
fn riff_movi_before_header_gives_none() {
    let mut body = list(b"movi", &chunk(b"00dc", &[0; 8]));
    body.extend(list(b"hdrl", &chunk(b"IDIT", b"Mon Jan 02 03:04:05 2006\n\0")));
    assert_eq!(read_datetime(&riff(&body)), None);
}

#[test]
fn riff_without_idit_gives_none() {
    let body = list(b"hdrl", &chunk(b"avih", &[0; 8]));
    assert_eq!(read_datetime(&riff(&body)), None);
}

#[test]
fn find_chunk_reports_payload() {
    let body = list(b"hdrl", &chunk(b"IDIT", b"abcd"));
    let mut reader = StepableBuffReader::new(&body);
    let found = riff_parser::find_chunk(&mut reader, vec![ChunkType::list_hdrl(), ChunkType::idit()], body.len())
        .unwrap()
        .unwrap();
    assert_eq!(found.start_index, 20);
    assert_eq!(found.size, 4);
    assert_eq!(reader.read(4), b"abcd".to_vec());
}

#[test]
fn get_chunk_reads_container_and_leaf() {
    let data = list(b"hdrl", &chunk(b"IDIT", b"ab"));
    let mut reader = StepableBuffReader::new(&data);
    let c = riff_parser::get_chunk(&mut reader).unwrap();
    assert!(c.container);
    assert_eq!(&c.id, b"hdrl");
    assert_eq!(c.size, 10);
    let leaf = riff_parser::get_chunk(&mut reader).unwrap();
    assert!(!leaf.container);
    assert_eq!(&leaf.id, b"IDIT");
    assert_eq!(leaf.size, 2);
}

#[test]
fn quicktime_media_header_date() {
    // 1623753000 seconds after 1970 is 2021-06-15 10:30:00 UTC.
    let data = quicktime(2_082_844_800 + 1_623_753_000);
    assert_eq!(quicktime_parser::parse_datetime(&data), Some(dt(2021, 6, 15, 10, 30, 0)));
    assert_eq!(read_datetime(&data), Some(dt(2021, 6, 15, 10, 30, 0)));
}

#[test]
fn quicktime_epoch_is_1904() {
    assert_eq!(quicktime_parser::parse_datetime(&quicktime(1)), Some(dt(1904, 1, 1, 0, 0, 1)));
}

#[test]
fn quicktime_zero_seconds_gives_none() {
    assert_eq!(read_datetime(&quicktime(0)), None);
}

#[test]
fn quicktime_without_media_header_gives_none() {
    let mut data = atom(b"ftyp", b"isom");
    data.extend(atom(b"moov", &atom(b"trak", &[])));
    assert_eq!(read_datetime(&data), None);
}

#[test]
fn unknown_signatures_give_none() {
    assert_eq!(read_datetime(&vec![]), None);
    assert_eq!(read_datetime(&vec![0xFF, 0xD8]), None);
    assert_eq!(read_datetime(&b"PK\x03\x04 some zip data".to_vec()), None);
    assert_eq!(read_datetime(&(0..=255u8).collect::<Vec<u8>>()), None);
    assert_eq!(read_datetime(&vec![0x89, b'P', b'N', b'G', 0x0d, 0x0a, 0x1a, 0x0a]), None);
}
