use vstd::prelude::*;
use crate::metadata_parser::exif_parser::{self, exif_date, exif_sign_1, exif_sign_2};
use crate::metadata_parser::quicktime_parser::{self, quicktime_date, quicktime_sign_1, quicktime_sign_2};
use crate::metadata_parser::riff_parser::{self, riff_date, riff_sign};
use crate::timestamp::DateTimeUtc;
use crate::util::io::{matches_at, StepableBuffReader};

verus! {

/// Whether the bytes begin with one of the signatures that a parser handles:
/// a JPEG with JFIF or EXIF marker, `RIFF`, or `ftyp` / `mdat` at offset 4.
pub open spec fn has_magic(d: Seq<u8>) -> bool {
    matches_at(d, 0, exif_sign_1()) || matches_at(d, 0, exif_sign_2()) || matches_at(d, 0, riff_sign())
        || matches_at(d, 4, quicktime_sign_1()) || matches_at(d, 4, quicktime_sign_2())
}

/// The capture time of a file's bytes, by the parser that its signature picks.
pub open spec fn sniff_date(d: Seq<u8>) -> Option<DateTimeUtc> {
    if matches_at(d, 0, exif_sign_1()) || matches_at(d, 0, exif_sign_2()) {
        exif_date(d, 0)
    } else if matches_at(d, 0, riff_sign()) {
        riff_date(d, 4)
    } else if matches_at(d, 4, quicktime_sign_1()) || matches_at(d, 4, quicktime_sign_2()) {
        quicktime_date(d)
    } else {
        None
    }
}

/// The capture time embedded in a file's bytes; none for a file that no
/// parser recognises, or where the parser finds no readable date.
pub fn read_datetime(data: &Vec<u8>) -> (r: Option<DateTimeUtc>)
    ensures
        r == sniff_date(data@),
        !has_magic(data@) ==> r is None,
{
    let ghost d = data@;
    let mut reader = StepableBuffReader::new(data.as_slice());
    if reader.available() < 4 {
        return None;
    }
    let head = reader.peak(4);
    let s1 = exif_parser::exif_sign_1_bytes();
    let s2 = exif_parser::exif_sign_2_bytes();
    let is_jpeg = head[0] == s1[0] && head[1] == s1[1] && head[2] == s1[2] && (head[3] == s1[3]
        || head[3] == s2[3]);
    if is_jpeg {
        assert(head@ =~= exif_sign_1() || head@ =~= exif_sign_2());
        return exif_parser::parse_datetime(&mut reader);
    }
    assert(!matches_at(d, 0, exif_sign_1())) by {
        if matches_at(d, 0, exif_sign_1()) {
            assert(head@ == exif_sign_1());
            assert(head@[3] == exif_sign_1()[3]);
        }
    }
    assert(!matches_at(d, 0, exif_sign_2())) by {
        if matches_at(d, 0, exif_sign_2()) {
            assert(head@ == exif_sign_2());
            assert(head@[3] == exif_sign_2()[3]);
        }
    }
    if reader.compare_bytes(riff_parser::riff_sign_bytes()) {
        return riff_parser::parse_datetime(&mut reader);
    }
    if reader.available() < 8 {
        return None;
    }
    let head8 = reader.peak(8);
    let tail_is = |a: u8, b: u8, c: u8, e: u8| -> (r: bool)
        ensures
            r == (head8@[4] == a && head8@[5] == b && head8@[6] == c && head8@[7] == e),
        { head8[4] == a && head8[5] == b && head8[6] == c && head8[7] == e };
    let ftyp = tail_is(0x66, 0x74, 0x79, 0x70);
    let mdat = tail_is(0x6d, 0x64, 0x61, 0x74);
    assert(ftyp == matches_at(d, 4, quicktime_sign_1())) by {
        assert(head8@.subrange(4, 8) == d.subrange(4, 8));
        if ftyp {
            assert(d.subrange(4, 8) =~= quicktime_sign_1());
        }
    }
    assert(mdat == matches_at(d, 4, quicktime_sign_2())) by {
        assert(head8@.subrange(4, 8) == d.subrange(4, 8));
        if mdat {
            assert(d.subrange(4, 8) =~= quicktime_sign_2());
        }
    }
    if ftyp || mdat {
        return quicktime_parser::parse_datetime(data);
    }
    None
}

} // verus!
