use vstd::prelude::*;
use crate::timestamp::DateTimeUtc;
use crate::util::io::{u32_of, StepableBuffReader, CHUNK_SIZE};
use crate::util::{date_of_bytes, parse_date_bytes};

verus! {

/// `RIFF`
pub open spec fn riff_sign() -> Seq<u8> {
    seq![0x52u8, 0x49, 0x46, 0x46]
}

/// `LIST`
pub open spec fn list_tag() -> Seq<u8> {
    seq![0x4cu8, 0x49, 0x53, 0x54]
}

/// `hdrl`
pub open spec fn hdrl_tag() -> Seq<u8> {
    seq![0x68u8, 0x64, 0x72, 0x6c]
}

/// `IDIT`
pub open spec fn idit_tag() -> Seq<u8> {
    seq![0x49u8, 0x44, 0x49, 0x54]
}

/// `movi`
pub open spec fn movi_tag() -> Seq<u8> {
    seq![0x6du8, 0x6f, 0x76, 0x69]
}

pub fn riff_sign_bytes() -> (r: Vec<u8>)
    ensures
        r@ == riff_sign(),
{
    let r = vec![0x52u8, 0x49, 0x46, 0x46];
    assert(r@ =~= riff_sign());
    r
}

/// What a search looks for: a chunk's four-character identifier, and whether
/// it is a container (`RIFF` or `LIST`, identified by its sub-type).
#[derive(Clone, Copy, Debug)]
pub struct ChunkType {
    pub identifier: [u8; 4],
    pub container: bool,
}

impl ChunkType {
    pub open spec fn view(&self) -> (Seq<u8>, bool) {
        (self.identifier@, self.container)
    }

    /// The date chunk.
    pub fn idit() -> (r: Self)
        ensures
            r.view() == (idit_tag(), false),
    {
        let r = ChunkType { identifier: [0x49u8, 0x44, 0x49, 0x54], container: false };
        assert(r.identifier@ =~= idit_tag());
        r
    }

    /// The header list.
    pub fn list_hdrl() -> (r: Self)
        ensures
            r.view() == (hdrl_tag(), true),
    {
        let r = ChunkType { identifier: [0x68u8, 0x64, 0x72, 0x6c], container: true };
        assert(r.identifier@ =~= hdrl_tag());
        r
    }
}

/// A chunk header as read: identifier, container flag, payload size, and the
/// offset where the payload starts.
pub struct Chunk {
    pub container: bool,
    pub id: [u8; 4],
    pub start_index: usize,
    pub size: usize,
}

/// A chunk header at `p`, read as (identifier, container, payload size,
/// payload offset); for `RIFF` and `LIST` the identifier is the sub-type,
/// which counts against the declared size.
pub open spec fn chunk_at(d: Seq<u8>, p: int) -> Option<(Seq<u8>, bool, int, int)> {
    if p < 0 || p + 8 > d.len() {
        None
    } else {
        let tag = d.subrange(p, p + 4);
        let size = u32_of(d.subrange(p + 4, p + 8), false);
        if tag == riff_sign() || tag == list_tag() {
            if p + 12 > d.len() || size < 4 {
                None
            } else {
                Some((d.subrange(p + 8, p + 12), true, size - 4, p + 12))
            }
        } else {
            Some((tag, false, size, p + 8))
        }
    }
}

/// How a chunk search ends.
pub enum Search {
    /// Malformed or truncated data, or a `movi` list before the target.
    Abort,
    /// No match within the bounds; the cursor is left at the given offset.
    Missing(int),
    /// The target's payload offset and size.
    Found(int, int),
}

/// The search for the nested chunks of `path`, from offset `pos`, over
/// sibling chunks whose skipped payloads add up to less than `limit`, having
/// skipped `skipped` bytes so far.
pub open spec fn find_spec(
    d: Seq<u8>,
    pos: int,
    path: Seq<(Seq<u8>, bool)>,
    skipped: int,
    limit: int,
) -> Search
    decreases path.len(), d.len() - pos,
{
    if path.len() == 0 || pos < 0 || pos > d.len() {
        Search::Abort
    } else if skipped >= limit {
        Search::Missing(pos)
    } else {
        match chunk_at(d, pos) {
            None => Search::Abort,
            Some((id, container, size, payload)) => {
                if id == path[0].0 && container == path[0].1 {
                    if path.len() == 1 {
                        Search::Found(payload, size)
                    } else {
                        match find_spec(d, payload, path.drop_first(), 0, size) {
                            Search::Missing(resume) => {
                                if resume <= pos || resume > d.len() {
                                    Search::Abort
                                } else {
                                    find_spec(d, resume, path, skipped, limit)
                                }
                            },
                            other => other,
                        }
                    }
                } else if container && id == movi_tag() {
                    Search::Abort
                } else if payload + size > d.len() {
                    Search::Abort
                } else {
                    find_spec(d, payload + size, path, skipped + size, limit)
                }
            },
        }
    }
}

pub open spec fn path_view(path: Seq<ChunkType>) -> Seq<(Seq<u8>, bool)> {
    path.map_values(|t: ChunkType| t.view())
}

fn same_id(a: &[u8; 4], b: &[u8; 4]) -> (r: bool)
    ensures
        r == (a@ == b@),
{
    let r = a[0] == b[0] && a[1] == b[1] && a[2] == b[2] && a[3] == b[3];
    if r {
        assert(a@ =~= b@);
    }
    r
}

fn four(v: &Vec<u8>) -> (r: [u8; 4])
    requires
        v@.len() == 4,
    ensures
        r@ == v@,
{
    let r = [v[0], v[1], v[2], v[3]];
    assert(r@ =~= v@);
    r
}

/// Reads the chunk header at the cursor and leaves the cursor at its payload.
pub fn get_chunk(reader: &mut StepableBuffReader) -> (r: Option<Chunk>)
    requires
        old(reader).wf(),
    ensures
        final(reader).wf(),
        final(reader).data() == old(reader).data(),
        final(reader).pos() >= old(reader).pos(),
        match chunk_at(old(reader).data(), old(reader).pos()) {
            None => r is None,
            Some((id, container, size, payload)) => r matches Some(c) && c.id@ == id
                && c.container == container && c.size == size && c.start_index == payload
                && final(reader).pos() == payload,
        },
{
    let ghost d = reader.data();
    let ghost p = reader.pos();
    if reader.available() < 8 {
        return None;
    }
    let tag = four(&reader.read(4));
    let size = reader.read_u32(false);
    let riff = [0x52u8, 0x49, 0x46, 0x46];
    let list = [0x4cu8, 0x49, 0x53, 0x54];
    assert(riff@ =~= riff_sign());
    assert(list@ =~= list_tag());
    if same_id(&tag, &riff) || same_id(&tag, &list) {
        if reader.available() < 4 || size < 4 {
            return None;
        }
        let container_type = four(&reader.read(4));
        Some(Chunk {
            container: true,
            id: container_type,
            start_index: reader.total_offset(),
            size: (size - 4) as usize,
        })
    } else {
        Some(Chunk { container: false, id: tag, start_index: reader.total_offset(), size: size as usize })
    }
}

/// Searches for the nested chunks of `chunk_tags` among the chunks that
/// start at the cursor, within `chunk_length` bytes of skipped payload.
pub fn find_chunk(reader: &mut StepableBuffReader, chunk_tags: Vec<ChunkType>, chunk_length: usize) -> (r: Result<Option<Chunk>, ()>)
    requires
        old(reader).wf(),
    ensures
        final(reader).wf(),
        final(reader).data() == old(reader).data(),
        final(reader).pos() >= old(reader).pos(),
        match find_spec(old(reader).data(), old(reader).pos(), path_view(chunk_tags@), 0, chunk_length as int) {
            Search::Abort => r is Err,
            Search::Missing(p) => r == Ok::<Option<Chunk>, ()>(None) && final(reader).pos() == p,
            Search::Found(a, s) => r matches Ok(Some(c)) && c.start_index == a && c.size == s
                && final(reader).pos() == a,
        },
    decreases chunk_tags@.len(),
{
    let ghost d = reader.data();
    let ghost path = path_view(chunk_tags@);
    let ghost begin = reader.pos();
    if chunk_tags.len() == 0 {
        return Err(());
    }
    let movi = [0x6du8, 0x6f, 0x76, 0x69];
    assert(movi@ =~= movi_tag());
    let mut offset: u64 = 0;
    while offset < chunk_length as u64
        invariant
            reader.wf(),
            reader.data() == d,
            d == old(reader).data(),
            begin == old(reader).pos(),
            reader.pos() >= begin,
            path == path_view(chunk_tags@),
            chunk_tags@.len() > 0,
            movi@ == movi_tag(),
            offset <= chunk_length,
            find_spec(d, reader.pos(), path, offset as int, chunk_length as int) == find_spec(
                d,
                begin,
                path,
                0,
                chunk_length as int,
            ),
        decreases d.len() - reader.pos(),
    {
        let ghost p = reader.pos();
        let chunk = match get_chunk(reader) {
            Some(c) => c,
            None => return Err(()),
        };
        let want = chunk_tags[0];
        assert(path[0] == want.view());
        if same_id(&chunk.id, &want.identifier) && chunk.container == want.container {
            if chunk_tags.len() == 1 {
                return Ok(Some(chunk));
            }
            let mut new_chunk_tags: Vec<ChunkType> = Vec::new();
            let mut k: usize = 1;
            while k < chunk_tags.len()
                invariant
                    1 <= k <= chunk_tags@.len(),
                    new_chunk_tags@ == chunk_tags@.subrange(1, k as int),
                decreases chunk_tags@.len() - k,
            {
                new_chunk_tags.push(chunk_tags[k]);
                k = k + 1;
                assert(new_chunk_tags@ =~= chunk_tags@.subrange(1, k as int));
            }
            assert(path_view(new_chunk_tags@) =~= path.drop_first());
            let result = find_chunk(reader, new_chunk_tags, chunk.size);
            match result {
                Ok(Some(c)) => return Ok(Some(c)),
                Err(_) => return Err(()),
                Ok(None) => {
                    assert(find_spec(d, p, path, offset as int, chunk_length as int) == find_spec(
                        d,
                        reader.pos(),
                        path,
                        offset as int,
                        chunk_length as int,
                    ));
                },
            }
        } else {
            if chunk.container && same_id(&chunk.id, &movi) {
                return Err(());
            }
            let ghost skipped = offset as int;
            if chunk.size as u64 >= chunk_length as u64 - offset {
                offset = chunk_length as u64;
            } else {
                offset = offset + chunk.size as u64;
            }
            if !reader.increment_by(chunk.size) {
                return Err(());
            }
            assert(find_spec(d, p, path, skipped, chunk_length as int) == find_spec(
                d,
                reader.pos(),
                path,
                skipped + chunk.size,
                chunk_length as int,
            ));
            assert(find_spec(d, reader.pos(), path, offset as int, chunk_length as int) == find_spec(
                d,
                reader.pos(),
                path,
                skipped + chunk.size,
                chunk_length as int,
            ));
        }
    }
    Ok(None)
}

/// The capture time of a RIFF file whose `RIFF` signature has been read: the
/// `IDIT` chunk inside the `hdrl` list.
pub open spec fn riff_date(d: Seq<u8>, p: int) -> Option<DateTimeUtc> {
    if p < 0 || p + 8 > d.len() {
        None
    } else {
        let riff_length = u32_of(d.subrange(p, p + 4), false);
        match find_spec(d, p + 8, seq![(hdrl_tag(), true), (idit_tag(), false)], 0, riff_length) {
            Search::Found(a, s) => {
                if s > CHUNK_SIZE || a + s > d.len() {
                    None
                } else {
                    date_of_bytes(d.subrange(a, a + s))
                }
            },
            _ => None,
        }
    }
}

/// A `movi` list that comes before the header list ends the search: the
/// file yields no time, whatever follows the list.
pub proof fn lemma_movi_first(d: Seq<u8>, p: int)
    requires
        0 <= p,
        p + 20 <= d.len(),
        u32_of(d.subrange(p, p + 4), false) > 0,
        d.subrange(p + 8, p + 12) == list_tag(),
        u32_of(d.subrange(p + 12, p + 16), false) >= 4,
        d.subrange(p + 16, p + 20) == movi_tag(),
    ensures
        riff_date(d, p) is None,
{
    assert(movi_tag()[0] != hdrl_tag()[0]);
    let path = seq![(hdrl_tag(), true), (idit_tag(), false)];
    assert(d.subrange(p + 8, p + 20).subrange(0, 4) == d.subrange(p + 8, p + 12));
    assert(chunk_at(d, p + 8) == Some((movi_tag(), true, u32_of(d.subrange(p + 12, p + 16), false) - 4, p + 20)));
    assert(find_spec(d, p + 8, path, 0, u32_of(d.subrange(p, p + 4), false)) == Search::Abort);
}

/// The capture time of a RIFF file whose `RIFF` signature has just been read
/// from `reader`.
pub fn parse_datetime(reader: &mut StepableBuffReader) -> (r: Option<DateTimeUtc>)
    requires
        old(reader).wf(),
    ensures
        r == riff_date(old(reader).data(), old(reader).pos()),
{
    let ghost d = reader.data();
    if reader.available() < 8 {
        return None;
    }
    let riff_length = reader.read_u32(false) as usize;
    reader.increment_by(4);
    let mut tags: Vec<ChunkType> = Vec::new();
    tags.push(ChunkType::list_hdrl());
    tags.push(ChunkType::idit());
    assert(path_view(tags@) =~= seq![(hdrl_tag(), true), (idit_tag(), false)]);
    let chunk = find_chunk(reader, tags, riff_length);
    match chunk {
        Ok(Some(chunk)) => {
            if chunk.size > CHUNK_SIZE || chunk.size > reader.available() {
                return None;
            }
            let buffer = reader.read(chunk.size);
            parse_date_bytes(&buffer)
        },
        _ => None,
    }
}

} // verus!
