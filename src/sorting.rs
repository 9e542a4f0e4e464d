use vstd::prelude::*;
use std::collections::HashMap;
use crate::metadata_parser::exif_parser::{exif_sign_1, exif_sign_1_bytes, exif_sign_2, exif_sign_2_bytes};
use crate::models::{category_in, temp_dir, Action, Config, FileTypes, MediaType};
use crate::timestamp::{ascii_chars, decimal, decimal_text, stamp, stamp_text, DateTimeUtc};
use crate::util::io::{first_match, matches_at, StepableBuffReader};

verus! {

broadcast use vstd::std_specs::hash::group_hash_axioms;

/// The XXH3 64-bit hash of a byte sequence.
pub uninterp spec fn xxh3_of(b: Seq<u8>) -> u64;

/// Relies on `xxhash_rust::xxh3::xxh3_64`: a 64-bit hash that depends on the
/// bytes alone.
#[verifier::external_body]
fn xxh3(b: &[u8]) -> (r: u64)
    ensures
        r == xxh3_of(b@),
{
    xxhash_rust::xxh3::xxh3_64(b)
}

/// The offset just past the first start-of-scan marker `FF DA` that begins
/// at `i` or later.
pub open spec fn marker_from(d: Seq<u8>, i: int) -> Option<int>
    decreases d.len() - i,
{
    if i < 0 || i + 2 > d.len() {
        None
    } else if d[i] == 0xFF && d[i + 1] == 0xDA {
        Some(i + 2)
    } else {
        marker_from(d, i + 1)
    }
}

pub open spec fn is_jpeg(d: Seq<u8>) -> bool {
    matches_at(d, 0, exif_sign_1()) || matches_at(d, 0, exif_sign_2())
}

/// The bytes that identify a file: for a JPEG the scan data after the first
/// start-of-scan marker past the signature (none if there is no marker), for
/// any other file all of it.
pub open spec fn hashed_region(d: Seq<u8>) -> Option<Seq<u8>> {
    if is_jpeg(d) {
        match marker_from(d, 5) {
            Some(s) => Some(d.subrange(s, d.len() as int)),
            None => None,
        }
    } else {
        Some(d)
    }
}

/// A file's fingerprint.
pub open spec fn content_hash(d: Seq<u8>) -> Option<u64> {
    match hashed_region(d) {
        Some(b) => Some(xxh3_of(b)),
        None => None,
    }
}

/// The fingerprint of a file's bytes; none for a JPEG signature without a
/// start-of-scan marker behind it, which no caller should hash.
pub fn get_file_hash(data: &Vec<u8>) -> (r: Option<u64>)
    ensures
        r == content_hash(data@),
{
    let ghost d = data@;
    let mut reader = StepableBuffReader::new(data.as_slice());
    if reader.available() >= 4 {
        let exif_tags = vec![exif_sign_2_bytes(), exif_sign_1_bytes()];
        let ghost list = exif_tags@.map_values(|b: Vec<u8>| b@);
        proof {
            assert(list[0] == exif_sign_2());
            assert(list[1] == exif_sign_1());
            assert(first_match(d, 0, list, 2) is None);
            reveal_with_fuel(first_match, 3);
            assert(exif_tags@[0]@.len() == 4 && exif_tags@[1]@.len() == 4);
            assert(first_match(d, 0, list, 0) is Some <==> is_jpeg(d));
        }
        let found = reader.compare_multiple_bytes(exif_tags);
        if found {
            assert(reader.pos() == 4);
            loop
                invariant
                    reader.wf(),
                    reader.data() == d,
                    d == data@,
                    is_jpeg(d),
                    reader.pos() >= 4,
                    marker_from(d, reader.pos() + 1) == marker_from(d, 5),
                decreases d.len() - reader.pos(),
            {
                if !reader.increment() {
                    assert(marker_from(d, reader.pos() + 1) is None);
                    return None;
                }
                if reader.available() < 2 {
                    assert(marker_from(d, reader.pos()) is None);
                    return None;
                }
                let ghost p = reader.pos();
                let marker = vec![0xFFu8, 0xDA];
                if reader.compare_bytes(marker) {
                    assert(d[p] == 0xFF && d[p + 1] == 0xDA) by {
                        assert(d.subrange(p, p + 2)[0] == d[p]);
                        assert(d.subrange(p, p + 2)[1] == d[p + 1]);
                    }
                    assert(marker_from(d, p) == Some(p + 2));
                    let rest = reader.rest();
                    assert(hashed_region(d) == Some(rest@));
                    return Some(xxh3(rest));
                }
                assert(!(d[reader.pos()] == 0xFF && d[reader.pos() + 1] == 0xDA)) by {
                    if d[reader.pos()] == 0xFF && d[reader.pos() + 1] == 0xDA {
                        assert(reader.ahead(2) =~= seq![0xFFu8, 0xDA]);
                    }
                }
            }
        }
    }
    assert(d.subrange(0, d.len() as int) =~= d);
    Some(xxh3(data.as_slice()))
}

/// A file of an index, with what the planner reads of it: its fingerprint,
/// path, file name, lower-case extension, and the capture time found in it.
pub struct IndexedFile {
    pub hash: u64,
    pub path: String,
    pub file_name: String,
    pub ext: String,
    pub taken: Option<DateTimeUtc>,
}

/// A path below a directory.
pub open spec fn join(dir: Seq<char>, name: Seq<char>) -> Seq<char> {
    dir + "/"@ + name
}

pub open spec fn prefix(m: MediaType) -> Seq<char> {
    match m {
        MediaType::IMAGE => "IMG"@,
        MediaType::VIDEO => "VID"@,
    }
}

/// `{IMG|VID}_YYYYMMDD_HHMMSS.ext`
pub open spec fn dated_name(m: MediaType, t: DateTimeUtc, ext: Seq<char>) -> Seq<char> {
    prefix(m) + "_"@ + ascii_chars(stamp(t)) + "."@ + ext
}

pub open spec fn media_dir(c: Config, m: MediaType) -> Seq<char> {
    match m {
        MediaType::IMAGE => c.image_dir@,
        MediaType::VIDEO => c.video_dir@,
    }
}

/// Where a media file belongs: under its dated name in the media directory,
/// or under its own name in the quarantine directory when it has no date.
pub open spec fn media_dest(c: Config, m: MediaType, f: IndexedFile) -> Seq<char> {
    match f.taken {
        Some(t) => join(media_dir(c, m), dated_name(m, t, f.ext@)),
        None => join(temp_dir(media_dir(c, m)), f.file_name@),
    }
}

pub type ActionView = (Action, Seq<char>, Seq<char>);

pub open spec fn action_view(a: (Action, String, String)) -> ActionView {
    (a.0, a.1@, a.2@)
}

pub open spec fn opt_view(a: Option<(Action, String, String)>) -> Option<ActionView> {
    match a {
        Some(x) => Some(action_view(x)),
        None => None,
    }
}

/// The action for a media file: a delete of a file that its index no longer
/// holds (only among filed files), none for a file already in place, else a
/// copy of a new file or a move of a filed one to its destination.
pub open spec fn media_action(c: Config, m: MediaType, f: IndexedFile, in_lookup: bool, new_files: bool) -> Option<ActionView> {
    if !in_lookup {
        if !new_files {
            Some((Action::Delete, f.path@, f.path@))
        } else {
            None
        }
    } else {
        let dest = media_dest(c, m, f);
        if dest == f.path@ {
            None
        } else if new_files {
            Some((Action::Copy, f.path@, dest))
        } else {
            Some((Action::Move, f.path@, dest))
        }
    }
}

/// The action for a document: a copy of a new one into the document
/// directory under its own name; filed documents stay.
pub open spec fn document_action(c: Config, f: IndexedFile, new_files: bool) -> Option<ActionView> {
    if new_files {
        Some((Action::Copy, f.path@, join(c.doc_dir@, f.file_name@)))
    } else {
        None
    }
}

/// The action for one file of an index, against the fingerprints already
/// filed when the index is of new files.
pub open spec fn plan_one(c: Config, f: IndexedFile, existing: Option<Map<u64, String>>) -> Option<ActionView> {
    let new_files = existing is Some;
    if new_files && existing.unwrap().contains_key(f.hash) {
        None
    } else {
        match category_in(c.file_exts@, f.ext@, 0) {
            Some(FileTypes::IMAGE) => media_action(c, MediaType::IMAGE, f, true, new_files),
            Some(FileTypes::VIDEO) => media_action(c, MediaType::VIDEO, f, true, new_files),
            Some(FileTypes::DOCUMENT) => document_action(c, f, new_files),
            None => None,
        }
    }
}

/// The actions for the files of an index, in their order.
pub open spec fn plan_all(c: Config, files: Seq<IndexedFile>, existing: Option<Map<u64, String>>) -> Seq<ActionView>
    decreases files.len(),
{
    if files.len() == 0 {
        Seq::empty()
    } else {
        let before = plan_all(c, files.drop_last(), existing);
        match plan_one(c, files.last(), existing) {
            Some(a) => before.push(a),
            None => before,
        }
    }
}

fn path_in(dir: &String, name: &String) -> (r: String)
    ensures
        r@ == join(dir@, name@),
{
    dir.clone().concat("/").concat(name.as_str())
}

pub fn process_media(
    config: &Config,
    media_type: MediaType,
    file: &IndexedFile,
    in_lookup: bool,
    new_files: bool,
) -> (r: Option<(Action, String, String)>)
    ensures
        opt_view(r) == media_action(*config, media_type, *file, in_lookup, new_files),
{
    if !in_lookup {
        if !new_files {
            return Some((Action::Delete, file.path.clone(), file.path.clone()));
        }
        return None;
    }
    let dir = match media_type {
        MediaType::IMAGE => config.image_dir.clone(),
        MediaType::VIDEO => config.video_dir.clone(),
    };
    let dest = match file.taken {
        Some(t) => {
            let file_prefix = match media_type {
                MediaType::IMAGE => String::from_str("IMG"),
                MediaType::VIDEO => String::from_str("VID"),
            };
            let name = file_prefix.concat("_").concat(stamp_text(&t).as_str()).concat(".").concat(
                file.ext.as_str(),
            );
            assert(name@ =~= dated_name(media_type, t, file.ext@));
            path_in(&dir, &name)
        },
        None => path_in(&dir.concat("_temp"), &file.file_name),
    };
    if dest == file.path {
        None
    } else if new_files {
        Some((Action::Copy, file.path.clone(), dest))
    } else {
        Some((Action::Move, file.path.clone(), dest))
    }
}

pub fn process_document(config: &Config, file: &IndexedFile, new_files: bool) -> (r: Option<(Action, String, String)>)
    ensures
        opt_view(r) == document_action(*config, *file, new_files),
{
    if !new_files {
        return None;
    }
    Some((Action::Copy, file.path.clone(), path_in(&config.doc_dir, &file.file_name)))
}

pub open spec fn existing_view(e: Option<&HashMap<u64, String>>) -> Option<Map<u64, String>> {
    match e {
        Some(m) => Some(m@),
        None => None,
    }
}

/// The plan for the files of an index: with `existing_hashes`, the index of
/// files already filed, the files are new and those already filed are left
/// out; without it the files are the filed ones.
pub fn process_files(
    files: &Vec<IndexedFile>,
    config: &Config,
    existing_hashes: Option<&HashMap<u64, String>>,
) -> (r: Vec<(Action, String, String)>)
    ensures
        r@.map_values(|a: (Action, String, String)| action_view(a)) == plan_all(
            *config,
            files@,
            existing_view(existing_hashes),
        ),
{
    let new_files = existing_hashes.is_some();
    let ghost ex = existing_view(existing_hashes);
    let mut actions: Vec<(Action, String, String)> = Vec::new();
    let mut i: usize = 0;
    while i < files.len()
        invariant
            i <= files@.len(),
            new_files == (ex is Some),
            ex == existing_view(existing_hashes),
            actions@.map_values(|a: (Action, String, String)| action_view(a)) == plan_all(
                *config,
                files@.subrange(0, i as int),
                ex,
            ),
        decreases files@.len() - i,
    {
        let f = &files[i];
        proof {
            assert(files@.subrange(0, i + 1).drop_last() =~= files@.subrange(0, i as int));
            assert(files@.subrange(0, i + 1).last() == files@[i as int]);
        }
        let skip = match existing_hashes {
            Some(m) => m.contains_key(&f.hash),
            None => false,
        };
        let result = if skip {
            None
        } else {
            // A file's own index always holds its path.
            match config.file_type(&f.ext) {
                Some(FileTypes::IMAGE) => process_media(config, MediaType::IMAGE, f, true, new_files),
                Some(FileTypes::VIDEO) => process_media(config, MediaType::VIDEO, f, true, new_files),
                Some(FileTypes::DOCUMENT) => process_document(config, f, new_files),
                None => None,
            }
        };
        assert(opt_view(result) == plan_one(*config, *f, ex));
        match result {
            Some(a) => {
                actions.push(a);
            },
            None => {},
        }
        i = i + 1;
        assert(actions@.map_values(|a: (Action, String, String)| action_view(a)) =~= plan_all(
            *config,
            files@.subrange(0, i as int),
            ex,
        ));
    }
    assert(files@.subrange(0, i as int) =~= files@);
    actions
}

proof fn lemma_marker_found(d: Seq<u8>, i: int, m: int)
    requires
        0 <= i <= m,
        m + 2 <= d.len(),
        d[m] == 0xFF && d[m + 1] == 0xDA,
        forall|j: int| i <= j < m ==> !(#[trigger] d[j] == 0xFF && d[j + 1] == 0xDA),
    ensures
        marker_from(d, i) == Some(m + 2),
    decreases m - i,
{
    if i < m {
        lemma_marker_found(d, i + 1, m);
    }
}

/// No start-of-scan marker begins in `p` past its signature.
pub open spec fn no_marker_after_signature(p: Seq<u8>) -> bool {
    forall|i: int| 5 <= i < p.len() - 1 ==> !(#[trigger] p[i] == 0xFF && p[i + 1] == 0xDA)
}

/// Two JPEG files that differ only before their first start-of-scan marker
/// have the same fingerprint: the hash of the scan data behind the marker.
pub proof fn lemma_hash_ignores_metadata(pa: Seq<u8>, pb: Seq<u8>, scan: Seq<u8>)
    requires
        is_jpeg(pa),
        is_jpeg(pb),
        pa.len() >= 5,
        pb.len() >= 5,
        no_marker_after_signature(pa),
        no_marker_after_signature(pb),
    ensures
        content_hash(pa + seq![0xFFu8, 0xDA] + scan) == Some(xxh3_of(scan)),
        content_hash(pb + seq![0xFFu8, 0xDA] + scan) == Some(xxh3_of(scan)),
{
    lemma_scan_after_marker(pa, scan);
    lemma_scan_after_marker(pb, scan);
}

proof fn lemma_scan_after_marker(p: Seq<u8>, scan: Seq<u8>)
    requires
        is_jpeg(p),
        p.len() >= 5,
        no_marker_after_signature(p),
    ensures
        content_hash(p + seq![0xFFu8, 0xDA] + scan) == Some(xxh3_of(scan)),
{
    let d = p + seq![0xFFu8, 0xDA] + scan;
    let m = p.len() as int;
    assert(d.subrange(0, 4) =~= p.subrange(0, 4));
    assert(is_jpeg(d));
    assert(d[m] == 0xFF && d[m + 1] == 0xDA);
    assert forall|j: int| 5 <= j < m implies !(#[trigger] d[j] == 0xFF && d[j + 1] == 0xDA) by {
        assert(d[j] == p[j]);
        if j + 1 < m {
            assert(d[j + 1] == p[j + 1]);
        }
    }
    lemma_marker_found(d, 5, m);
    assert(d.subrange(m + 2, d.len() as int) =~= scan);
}

proof fn lemma_plan_source(c: Config, f: IndexedFile, existing: Option<Map<u64, String>>)
    ensures
        plan_one(c, f, existing) matches Some(a) ==> a.1 == f.path@ && (existing matches Some(
            m,
        ) ==> !m.contains_key(f.hash)),
{
}

/// Files whose fingerprint is already filed get no action: every action
/// planned for new files comes from a file whose fingerprint is not filed.
pub proof fn lemma_dedup_gate(c: Config, files: Seq<IndexedFile>, existing: Map<u64, String>)
    ensures
        forall|f: IndexedFile| existing.contains_key(f.hash) ==> plan_one(c, f, Some(existing)) is None,
        forall|k: int|
            0 <= k < plan_all(c, files, Some(existing)).len() ==> exists|i: int|
                0 <= i < files.len() && (#[trigger] plan_all(c, files, Some(existing))[k]).1
                    == files[i].path@ && !existing.contains_key(files[i].hash),
    decreases files.len(),
{
    if files.len() > 0 {
        let before = files.drop_last();
        lemma_dedup_gate(c, before, existing);
        lemma_plan_source(c, files.last(), Some(existing));
        let plan = plan_all(c, files, Some(existing));
        let prev = plan_all(c, before, Some(existing));
        assert forall|k: int| 0 <= k < plan.len() implies exists|i: int|
            0 <= i < files.len() && (#[trigger] plan[k]).1 == files[i].path@
                && !existing.contains_key(files[i].hash) by {
            if k < prev.len() {
                assert(plan[k] == prev[k]);
                let i = choose|i: int|
                    0 <= i < before.len() && (#[trigger] prev[k]).1 == before[i].path@
                        && !existing.contains_key(before[i].hash);
                assert(files[i] == before[i]);
            } else {
                assert(files[files.len() - 1] == files.last());
            }
        }
    }
}

/// A new document is copied into the document directory under its own name,
/// whatever it holds.
pub proof fn lemma_document_copied(c: Config, f: IndexedFile, existing: Map<u64, String>)
    requires
        c.category(f.ext@) == Some(FileTypes::DOCUMENT),
        !existing.contains_key(f.hash),
    ensures
        plan_one(c, f, Some(existing)) == Some((Action::Copy, f.path@, join(c.doc_dir@, f.file_name@))),
{
}

/// The file name that the `count`th retry gives when a destination is taken:
/// `stem(count).ext`.
pub fn numbered_name(stem: &String, ext: &String, count: u64) -> (r: String)
    ensures
        r@ == stem@ + "("@ + ascii_chars(decimal(count as nat)) + ")."@ + ext@,
{
    stem.clone().concat("(").concat(decimal_text(count).as_str()).concat(").").concat(ext.as_str())
}

} // verus!
