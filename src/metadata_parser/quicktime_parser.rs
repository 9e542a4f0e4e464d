use vstd::prelude::*;
use crate::timestamp::{after_quicktime_epoch, quicktime_instant, DateTimeUtc};
use crate::util::io::u32_of;

verus! {

/// `ftyp`
pub open spec fn quicktime_sign_1() -> Seq<u8> {
    seq![0x66u8, 0x74, 0x79, 0x70]
}

/// `mdat`
pub open spec fn quicktime_sign_2() -> Seq<u8> {
    seq![0x6du8, 0x64, 0x61, 0x74]
}

/// The atoms from the top of the file down to the media header:
/// `moov`, `trak`, `mdia`, `mdhd`.
pub open spec fn media_header_path() -> Seq<Seq<u8>> {
    seq![
        seq![0x6du8, 0x6f, 0x6f, 0x76],
        seq![0x74u8, 0x72, 0x61, 0x6b],
        seq![0x6du8, 0x64, 0x69, 0x61],
        seq![0x6du8, 0x64, 0x68, 0x64],
    ]
}

/// The largest count of seconds that chrono takes as a time span.
pub const MAX_SPAN_SECONDS: u64 = 9223372036854775;

/// The offset of the first atom along `path`, searched among the sibling
/// atoms that start at `index` before `end`; an atom whose header cannot be
/// read, or whose size is zero, ends the search at its level.
pub open spec fn atom_search(d: Seq<u8>, path: Seq<Seq<u8>>, index: int, end: int) -> Option<int>
    decreases path.len(), end - index,
{
    if path.len() == 0 || index >= end || index < 0 || index + 8 > d.len() {
        None
    } else {
        let size = u32_of(d.subrange(index, index + 4), true);
        let name = d.subrange(index + 4, index + 8);
        let next = index + size;
        if size == 0 {
            None
        } else if name == path[0] {
            if path.len() == 1 {
                Some(index)
            } else {
                match atom_search(d, path.drop_first(), index + 8, index + size) {
                    Some(a) => Some(a),
                    None => if next >= end {
                        None
                    } else {
                        atom_search(d, path, next, end)
                    },
                }
            }
        } else if next >= end {
            None
        } else {
            atom_search(d, path, next, end)
        }
    }
}

/// The 64-bit big-endian integer in eight bytes.
pub open spec fn u64_be(b: Seq<u8>) -> int {
    u32_of(b.subrange(0, 4), true) * 4294967296 + u32_of(b.subrange(4, 8), true)
}

/// The capture time in a QuickTime file: the eight bytes after the `mdhd`
/// header as seconds since 1904-01-01T00:00:00Z, where not zero.
pub open spec fn quicktime_date(d: Seq<u8>) -> Option<DateTimeUtc> {
    match atom_search(d, media_header_path(), 0, d.len() as int) {
        Some(a) => {
            if a + 16 > d.len() {
                None
            } else {
                let seconds = u64_be(d.subrange(a + 8, a + 16));
                if seconds == 0 || seconds > MAX_SPAN_SECONDS {
                    None
                } else {
                    quicktime_instant(seconds)
                }
            }
        },
        None => None,
    }
}

fn be_u32_at(d: &Vec<u8>, i: usize) -> (r: u32)
    requires
        i + 4 <= d@.len(),
    ensures
        r == u32_of(d@.subrange(i as int, i + 4), true),
{
    let n = d.len();
    (d[i] as u32) * 16777216 + (d[i + 1] as u32) * 65536 + (d[i + 2] as u32) * 256 + (d[i + 3] as u32)
}

/// A located atom: its name, start offset and size.
struct Atom {
    name: [u8; 4],
    start_index: u128,
    size: u128,
}

fn get_atom(reader: &Vec<u8>, index: u128) -> (r: Option<Atom>)
    ensures
        match r {
            Some(a) => index + 8 <= reader@.len() && a.start_index == index && a.size == u32_of(
                reader@.subrange(index as int, index + 4),
                true,
            ) && a.name@ == reader@.subrange(index + 4, index + 8),
            None => index + 8 > reader@.len(),
        },
{
    if index > reader.len() as u128 || reader.len() as u128 - index < 8 {
        return None;
    }
    let i = index as usize;
    let size = be_u32_at(reader, i) as u128;
    let name = [reader[i + 4], reader[i + 5], reader[i + 6], reader[i + 7]];
    assert(name@ =~= reader@.subrange(index + 4, index + 8));
    Some(Atom { name, start_index: index, size })
}

fn find_atom_recursively(reader: &Vec<u8>, atom_names: Vec<[u8; 4]>, start_index: u128, end_index: u128) -> (r: Option<Atom>)
    requires
        end_index <= reader@.len() + 4294967296 + 8,
    ensures
        match atom_search(
            reader@,
            atom_names@.map_values(|n: [u8; 4]| n@),
            start_index as int,
            end_index as int,
        ) {
            Some(a) => r matches Some(atom) && atom.start_index == a,
            None => r is None,
        },
    decreases atom_names@.len(),
{
    let ghost path = atom_names@.map_values(|n: [u8; 4]| n@);
    let n = reader.len();
    if atom_names.len() == 0 {
        return None;
    }
    let mut index = start_index;
    while index < end_index
        invariant
            path == atom_names@.map_values(|n: [u8; 4]| n@),
            atom_names@.len() > 0,
            n == reader@.len(),
            end_index <= reader@.len() + 4294967296 + 8,
            atom_search(reader@, path, index as int, end_index as int) == atom_search(
                reader@,
                path,
                start_index as int,
                end_index as int,
            ),
        decreases end_index - index,
    {
        let atom = match get_atom(reader, index) {
            Some(a) => a,
            None => return None,
        };
        if atom.size == 0 {
            return None;
        }
        let first = atom_names[0];
        assert(path[0] == first@);
        if atom.name[0] == first[0] && atom.name[1] == first[1] && atom.name[2] == first[2]
            && atom.name[3] == first[3] {
            assert(atom.name@ =~= first@);
            if atom_names.len() == 1 {
                return Some(atom);
            }
            let mut new_atom_names: Vec<[u8; 4]> = Vec::new();
            let mut k: usize = 1;
            while k < atom_names.len()
                invariant
                    1 <= k <= atom_names@.len(),
                    new_atom_names@ == atom_names@.subrange(1, k as int),
                decreases atom_names@.len() - k,
            {
                new_atom_names.push(atom_names[k]);
                k = k + 1;
                assert(new_atom_names@ =~= atom_names@.subrange(1, k as int));
            }
            assert(new_atom_names@.map_values(|n: [u8; 4]| n@) =~= path.drop_first());
            let value = find_atom_recursively(reader, new_atom_names, index + 8, index + atom.size);
            if value.is_some() {
                return value;
            }
        } else {
            assert(atom.name@ != path[0]) by {
                if atom.name@ == path[0] {
                    assert(atom.name@[0] == first@[0]);
                    assert(atom.name@[1] == first@[1]);
                    assert(atom.name@[2] == first@[2]);
                    assert(atom.name@[3] == first@[3]);
                }
            }
        }
        if atom.size >= end_index - index {
            return None;
        }
        index = index + atom.size;
    }
    None
}

/// The capture time in the bytes of a QuickTime or ISO-BMFF file.
pub fn parse_datetime(data: &Vec<u8>) -> (r: Option<DateTimeUtc>)
    ensures
        r == quicktime_date(data@),
{
    let mut names: Vec<[u8; 4]> = Vec::new();
    names.push([0x6du8, 0x6f, 0x6f, 0x76]);
    names.push([0x74u8, 0x72, 0x61, 0x6b]);
    names.push([0x6du8, 0x64, 0x69, 0x61]);
    names.push([0x6du8, 0x64, 0x68, 0x64]);
    assert(names@.map_values(|n: [u8; 4]| n@) =~= media_header_path());
    let atom = match find_atom_recursively(data, names, 0, data.len() as u128) {
        Some(a) => a,
        None => return None,
    };
    if atom.start_index > data.len() as u128 || data.len() as u128 - atom.start_index < 16 {
        return None;
    }
    let a = atom.start_index as usize;
    let seconds = (be_u32_at(data, a + 8) as u64) * 4294967296 + be_u32_at(data, a + 12) as u64;
    proof {
        let b = data@.subrange(a + 8, a + 16);
        assert(b.subrange(0, 4) =~= data@.subrange(a + 8, a + 12));
        assert(b.subrange(4, 8) =~= data@.subrange(a + 12, a + 16));
    }
    if seconds == 0 || seconds > MAX_SPAN_SECONDS {
        return None;
    }
    after_quicktime_epoch(seconds)
}

} // verus!
