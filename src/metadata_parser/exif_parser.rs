use vstd::prelude::*;
use crate::timestamp::DateTimeUtc;
use crate::util::io::{in_order, matches_at, u32_of, StepableBuffReader, CHUNK_SIZE};
use crate::util::{date_of_bytes, parse_date_bytes};

verus! {

/// JPEG start of image followed by a JFIF APP0 marker.
pub open spec fn exif_sign_1() -> Seq<u8> {
    seq![0xFFu8, 0xD8, 0xFF, 0xE0]
}

/// JPEG start of image followed by an EXIF APP1 marker.
pub open spec fn exif_sign_2() -> Seq<u8> {
    seq![0xFFu8, 0xD8, 0xFF, 0xE1]
}

pub open spec fn jfif_tag() -> Seq<u8> {
    seq![0x00u8, 0x10, 0x4a, 0x46, 0x49, 0x46, 0x00, 0x01]
}

/// `Exif`
pub open spec fn exif_tag() -> Seq<u8> {
    seq![0x45u8, 0x78, 0x69, 0x66]
}

/// `MM`
pub open spec fn big_endian_tag() -> Seq<u8> {
    seq![0x4du8, 0x4d]
}

/// `II`
pub open spec fn little_endian_tag() -> Seq<u8> {
    seq![0x49u8, 0x49]
}

pub open spec fn tiff_magic() -> Seq<u8> {
    seq![0x00u8, 0x2a]
}

pub open spec fn first_ifd_offset() -> Seq<u8> {
    seq![0x00u8, 0x00, 0x00, 0x08]
}

pub open spec fn ifd_pointer_tag() -> Seq<u8> {
    seq![0x87u8, 0x69]
}

pub open spec fn date_time_tag() -> Seq<u8> {
    seq![0x90u8, 0x03]
}

pub open spec fn end_tag() -> Seq<u8> {
    seq![0x00u8, 0x00, 0x00, 0x00]
}

pub fn exif_sign_1_bytes() -> (r: Vec<u8>)
    ensures
        r@ == exif_sign_1(),
{
    let r = vec![0xFFu8, 0xD8, 0xFF, 0xE0];
    assert(r@ =~= exif_sign_1());
    r
}

pub fn exif_sign_2_bytes() -> (r: Vec<u8>)
    ensures
        r@ == exif_sign_2(),
{
    let r = vec![0xFFu8, 0xD8, 0xFF, 0xE1];
    assert(r@ =~= exif_sign_2());
    r
}

/// The instant that an IFD entry chain gives, scanned from `p`; `start` is
/// the offset just after the byte-order mark, two past the TIFF header. One
/// sub-IFD pointer is followed; once `nested`, pointers are skipped like any
/// other entry.
pub open spec fn exif_entries(d: Seq<u8>, p: int, start: int, be: bool, nested: bool) -> Option<DateTimeUtc>
    decreases d.len() - p,
{
    if p < 0 || p + 2 > d.len() || start < 2 || start > d.len() {
        None
    } else if matches_at(d, p, in_order(date_time_tag(), be)) {
        if p + 12 > d.len() {
            None
        } else {
            let length = u32_of(d.subrange(p + 4, p + 8), be);
            let offset = u32_of(d.subrange(p + 8, p + 12), be);
            let at = start - 2 + offset;
            if offset == 0 || length > CHUNK_SIZE || at + length > d.len() {
                None
            } else {
                date_of_bytes(d.subrange(at, at + length))
            }
        }
    } else if p + 4 > d.len() {
        None
    } else if matches_at(d, p, in_order(end_tag(), be)) {
        None
    } else if !nested && matches_at(d, p, in_order(ifd_pointer_tag(), be)) {
        if p + 12 > d.len() {
            None
        } else {
            let target = start + u32_of(d.subrange(p + 8, p + 12), be);
            if target < p + 12 || target > d.len() {
                None
            } else {
                exif_entries(d, target, start, be, true)
            }
        }
    } else if p + 12 > d.len() {
        None
    } else {
        exif_entries(d, p + 12, start, be, nested)
    }
}

/// The offset of the `Exif` identifier in a JPEG whose signature stands at `sig`:
/// past a JFIF block when one follows the signature, else past two bytes.
pub open spec fn exif_id_at(d: Seq<u8>, sig: int) -> int {
    if matches_at(d, sig + 4, jfif_tag()) {
        sig + 24
    } else {
        sig + 6
    }
}

/// The capture time in the EXIF block of a JPEG whose signature stands at `sig`.
pub open spec fn exif_date(d: Seq<u8>, sig: int) -> Option<DateTimeUtc> {
    let q = exif_id_at(d, sig);
    let m = q + 6;
    let start = m + 2;
    if sig < 0 || sig + 12 > d.len() || !matches_at(d, q, exif_tag()) || m + 2 > d.len() {
        None
    } else if !matches_at(d, m, big_endian_tag()) && !matches_at(d, m, little_endian_tag()) {
        None
    } else {
        let be = matches_at(d, m, big_endian_tag());
        if matches_at(d, start, in_order(tiff_magic(), be)) && matches_at(
            d,
            start + 2,
            in_order(first_ifd_offset(), be),
        ) && start + 8 <= d.len() {
            exif_entries(d, start + 8, start, be, false)
        } else {
            None
        }
    }
}

/// An entry chain in which the date-time tag appears nowhere yields no time.
pub proof fn lemma_no_date_tag_no_time(d: Seq<u8>, p: int, start: int, be: bool, nested: bool)
    requires
        forall|q: int| p <= q ==> !matches_at(d, q, #[trigger] in_order(date_time_tag(), be)),
    ensures
        exif_entries(d, p, start, be, nested) is None,
    decreases d.len() - p,
{
    if !(p < 0 || p + 2 > d.len() || start < 2 || start > d.len()) {
        assert(!matches_at(d, p, in_order(date_time_tag(), be)));
        if p + 4 <= d.len() && !matches_at(d, p, in_order(end_tag(), be)) && !nested && matches_at(
            d,
            p,
            in_order(ifd_pointer_tag(), be),
        ) {
            if p + 12 <= d.len() {
                let target = start + u32_of(d.subrange(p + 8, p + 12), be);
                if target >= p + 12 && target <= d.len() {
                    lemma_no_date_tag_no_time(d, target, start, be, true);
                }
            }
        } else if p + 12 <= d.len() {
            lemma_no_date_tag_no_time(d, p + 12, start, be, nested);
        }
    }
}

/// A JPEG whose bytes hold the date-time tag in neither byte order yields no
/// time: the scan ends at the end marker or the end of the data.
pub proof fn lemma_no_date_tag(d: Seq<u8>, sig: int)
    requires
        forall|q: int| !matches_at(d, q, #[trigger] in_order(date_time_tag(), true)),
        forall|q: int| !matches_at(d, q, #[trigger] in_order(date_time_tag(), false)),
    ensures
        exif_date(d, sig) is None,
{
    let m = exif_id_at(d, sig) + 6;
    let be = matches_at(d, m, big_endian_tag());
    lemma_no_date_tag_no_time(d, m + 10, m + 2, be, false);
}

fn scan_entries(reader: &mut StepableBuffReader, start: usize, be: bool) -> (r: Option<DateTimeUtc>)
    requires
        old(reader).wf(),
    ensures
        r == exif_entries(old(reader).data(), old(reader).pos(), start as int, be, false),
{
    let ghost d = reader.data();
    let dt = vec![0x90u8, 0x03];
    let end = vec![0x00u8, 0x00, 0x00, 0x00];
    let ptr = vec![0x87u8, 0x69];
    assert(dt@ =~= date_time_tag());
    assert(end@ =~= end_tag());
    assert(ptr@ =~= ifd_pointer_tag());
    if start < 2 || start > reader.data_len() {
        return None;
    }
    let mut nested = false;
    loop
        invariant
            reader.wf(),
            reader.data() == d,
            d == old(reader).data(),
            2 <= start <= d.len(),
            dt@ == date_time_tag(),
            end@ == end_tag(),
            ptr@ == ifd_pointer_tag(),
            exif_entries(d, reader.pos(), start as int, be, nested) == exif_entries(
                old(reader).data(),
                old(reader).pos(),
                start as int,
                be,
                false,
            ),
        decreases d.len() - reader.pos(),
    {
        let ghost p = reader.pos();
        if reader.available() < 2 {
            return None;
        }
        if reader.compare_endian_bytes(dt.clone(), be) {
            if reader.available() < 10 {
                return None;
            }
            reader.increment_by(2);
            let length = reader.read_u32(be);
            let offset = reader.read_u32(be);
            if offset == 0 {
                return None;
            }
            let room = (reader.data_len() - (start - 2)) as u64;
            if length as usize > CHUNK_SIZE || offset as u64 + length as u64 > room {
                return None;
            }
            let at = start - 2 + offset as usize;
            let buffer = reader.read_from(at, length as usize);
            return parse_date_bytes(&buffer);
        }
        if reader.available() < 4 {
            return None;
        }
        if reader.compare_endian_bytes(end.clone(), be) {
            return None;
        }
        if !nested && reader.compare_endian_bytes(ptr.clone(), be) {
            if reader.available() < 10 {
                return None;
            }
            reader.increment_by(6);
            let offset = reader.read_u32(be);
            if offset as u64 > (reader.data_len() - start) as u64 {
                return None;
            }
            let target = start + offset as usize;
            let here = reader.total_offset();
            if target < here {
                return None;
            }
            reader.increment_by(target - here);
            nested = true;
            continue;
        }
        if !reader.increment_by(12) {
            return None;
        }
    }
}

/// The capture time in the EXIF block of a JPEG whose signature is next in
/// `reader`; none where the block is missing, malformed or without a date.
pub fn parse_datetime(reader: &mut StepableBuffReader) -> (r: Option<DateTimeUtc>)
    requires
        old(reader).wf(),
    ensures
        r == exif_date(old(reader).data(), old(reader).pos()),
{
    let ghost d = reader.data();
    let ghost sig = reader.pos();
    if reader.available() < 12 {
        return None;
    }
    reader.increment_by(4);
    let jfif = vec![0x00u8, 0x10, 0x4a, 0x46, 0x49, 0x46, 0x00, 0x01];
    assert(jfif@ =~= jfif_tag());
    if reader.compare_bytes(jfif) {
        if !reader.increment_by(12) {
            return None;
        }
    } else {
        reader.increment_by(2);
    }
    assert(reader.pos() == exif_id_at(d, sig));
    if reader.available() < 8 {
        return None;
    }
    let exif = vec![0x45u8, 0x78, 0x69, 0x66];
    assert(exif@ =~= exif_tag());
    if !reader.compare_bytes(exif) {
        return None;
    }
    reader.increment_by(2);
    let ghost m = reader.pos();
    let mark = reader.read(2);
    assert(big_endian_tag()[0] == 0x4d && big_endian_tag()[1] == 0x4d);
    assert(little_endian_tag()[0] == 0x49 && little_endian_tag()[1] == 0x49);
    let big_endian = if mark[0] == 0x4d && mark[1] == 0x4d {
        assert(mark@ =~= big_endian_tag());
        true
    } else if mark[0] == 0x49 && mark[1] == 0x49 {
        assert(mark@ =~= little_endian_tag());
        false
    } else {
        assert(!matches_at(d, m, big_endian_tag()));
        assert(!matches_at(d, m, little_endian_tag()));
        return None;
    };
    assert(big_endian == matches_at(d, m, big_endian_tag()));
    let start = reader.total_offset();
    if reader.available() < 8 {
        return None;
    }
    let magic = vec![0x00u8, 0x2a];
    assert(magic@ =~= tiff_magic());
    if !reader.compare_endian_bytes(magic, big_endian) {
        return None;
    }
    let first = vec![0x00u8, 0x00, 0x00, 0x08];
    assert(first@ =~= first_ifd_offset());
    if !reader.compare_endian_bytes(first, big_endian) {
        return None;
    }
    reader.increment_by(2);
    scan_entries(reader, start, big_endian)
}

} // verus!
