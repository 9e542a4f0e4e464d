use vstd::prelude::*;
use vstd::slice::slice_subrange;

verus! {

/// The most bytes that one look-ahead may cover.
pub const CHUNK_SIZE: usize = 4096;

/// The unsigned integer that four bytes encode, most significant byte first
/// when `big_endian`, least significant first otherwise.
pub open spec fn u32_of(b: Seq<u8>, big_endian: bool) -> int {
    if big_endian {
        b[0] * 16777216 + b[1] * 65536 + b[2] * 256 + b[3]
    } else {
        b[3] * 16777216 + b[2] * 65536 + b[1] * 256 + b[0]
    }
}

/// A pattern as it is laid out in a stream of the given byte order: as
/// written when big-endian, reversed when little-endian.
pub open spec fn in_order(b: Seq<u8>, big_endian: bool) -> Seq<u8> {
    if big_endian {
        b
    } else {
        Seq::new(b.len(), |i: int| b[b.len() - 1 - i])
    }
}

/// `b` stands in `d` at offset `at`.
pub open spec fn matches_at(d: Seq<u8>, at: int, b: Seq<u8>) -> bool {
    0 <= at && at + b.len() <= d.len() && d.subrange(at, at + b.len()) == b
}

/// The index of the first pattern of `list`, from `i` on, that stands in `d`
/// at `at`.
pub open spec fn first_match(d: Seq<u8>, at: int, list: Seq<Seq<u8>>, i: int) -> Option<int>
    decreases list.len() - i,
{
    if i < 0 || i >= list.len() {
        None
    } else if matches_at(d, at, list[i]) {
        Some(i)
    } else {
        first_match(d, at, list, i + 1)
    }
}

/// A forward cursor over a byte source, with bounded look-ahead, pattern
/// comparison and absolute re-reads.
pub struct StepableBuffReader<'a> {
    source: &'a [u8],
    total_offset: usize,
}

fn copy_range(src: &[u8], from: usize, to: usize) -> (r: Vec<u8>)
    requires
        from <= to <= src@.len(),
    ensures
        r@ == src@.subrange(from as int, to as int),
{
    let mut out: Vec<u8> = Vec::new();
    let mut i: usize = from;
    while i < to
        invariant
            from <= i <= to <= src@.len(),
            out@ == src@.subrange(from as int, i as int),
        decreases to - i,
    {
        out.push(src[i]);
        i = i + 1;
        assert(out@ =~= src@.subrange(from as int, i as int));
    }
    out
}

fn bytes_match_at(src: &[u8], at: usize, bytes: &[u8]) -> (r: bool)
    requires
        at + bytes@.len() <= src@.len(),
    ensures
        r == (src@.subrange(at as int, at + bytes@.len()) == bytes@),
{
    let n = src.len();
    let mut i: usize = 0;
    while i < bytes.len()
        invariant
            n == src@.len(),
            at + bytes@.len() <= src@.len(),
            i <= bytes@.len(),
            forall|k: int| 0 <= k < i ==> src@[at + k] == bytes@[k],
        decreases bytes@.len() - i,
    {
        if src[at + i] != bytes[i] {
            assert(src@.subrange(at as int, at + bytes@.len())[i as int] != bytes@[i as int]);
            return false;
        }
        i = i + 1;
    }
    assert(src@.subrange(at as int, at + bytes@.len()) =~= bytes@);
    true
}

impl<'a> StepableBuffReader<'a> {
    /// All bytes of the source.
    pub closed spec fn data(&self) -> Seq<u8> {
        self.source@
    }

    /// The cursor: the offset of the next byte from the start of the source.
    pub closed spec fn pos(&self) -> int {
        self.total_offset as int
    }

    pub open spec fn wf(&self) -> bool {
        0 <= self.pos() <= self.data().len()
    }

    /// The bytes from the cursor to the end.
    pub open spec fn remaining(&self) -> int {
        self.data().len() - self.pos()
    }

    /// The `n` bytes that follow the cursor.
    pub open spec fn ahead(&self, n: int) -> Seq<u8> {
        self.data().subrange(self.pos(), self.pos() + n)
    }

    pub fn new(source: &'a [u8]) -> (r: Self)
        ensures
            r.wf(),
            r.data() == source@,
            r.pos() == 0,
    {
        StepableBuffReader { source, total_offset: 0 }
    }

    pub fn total_offset(&self) -> (r: usize)
        ensures
            r == self.pos(),
    {
        self.total_offset
    }

    pub fn data_len(&self) -> (r: usize)
        ensures
            r == self.data().len(),
    {
        self.source.len()
    }

    pub fn available(&self) -> (r: usize)
        requires
            self.wf(),
        ensures
            r == self.remaining(),
    {
        self.source.len() - self.total_offset
    }

    /// The next `num_bytes` bytes, without moving the cursor.
    pub fn peak(&self, num_bytes: usize) -> (r: Vec<u8>)
        requires
            self.wf(),
            num_bytes <= CHUNK_SIZE,
            num_bytes <= self.remaining(),
        ensures
            r@ == self.ahead(num_bytes as int),
    {
        let n = self.source.len();
        copy_range(self.source, self.total_offset, self.total_offset + num_bytes)
    }

    pub fn increment(&mut self) -> (r: bool)
        requires
            old(self).wf(),
        ensures
            final(self).wf(),
            final(self).data() == old(self).data(),
            r == (old(self).remaining() >= 1),
            final(self).pos() == if r { old(self).pos() + 1 } else { old(self).pos() },
    {
        self.increment_by(1)
    }

    /// Moves the cursor `num_bytes` forward where the source holds that many
    /// more bytes, and says whether it did; otherwise the cursor stays.
    pub fn increment_by(&mut self, num_bytes: usize) -> (r: bool)
        requires
            old(self).wf(),
        ensures
            final(self).wf(),
            final(self).data() == old(self).data(),
            r == (num_bytes <= old(self).remaining()),
            final(self).pos() == if r { old(self).pos() + num_bytes } else { old(self).pos() },
    {
        if num_bytes > self.source.len() - self.total_offset {
            return false;
        }
        self.total_offset = self.total_offset + num_bytes;
        true
    }

    /// The next `num_bytes` bytes; the cursor moves past them.
    pub fn read(&mut self, num_bytes: usize) -> (r: Vec<u8>)
        requires
            old(self).wf(),
            num_bytes <= CHUNK_SIZE,
            num_bytes <= old(self).remaining(),
        ensures
            final(self).wf(),
            final(self).data() == old(self).data(),
            r@ == old(self).ahead(num_bytes as int),
            final(self).pos() == old(self).pos() + num_bytes,
    {
        let data = self.peak(num_bytes);
        self.increment_by(num_bytes);
        data
    }

    /// The next four bytes as an integer in the given byte order.
    pub fn read_u32(&mut self, big_endian: bool) -> (r: u32)
        requires
            old(self).wf(),
            4 <= old(self).remaining(),
        ensures
            final(self).wf(),
            final(self).data() == old(self).data(),
            r == u32_of(old(self).ahead(4), big_endian),
            final(self).pos() == old(self).pos() + 4,
    {
        let b = self.read(4);
        let (b0, b1, b2, b3) = (b[0] as u32, b[1] as u32, b[2] as u32, b[3] as u32);
        if big_endian {
            b0 * 16777216 + b1 * 65536 + b2 * 256 + b3
        } else {
            b3 * 16777216 + b2 * 65536 + b1 * 256 + b0
        }
    }

    /// Every byte from the cursor to the end; the stream is then consumed.
    pub fn read_to_end(&mut self) -> (r: Vec<u8>)
        requires
            old(self).wf(),
        ensures
            final(self).wf(),
            final(self).data() == old(self).data(),
            r@ == old(self).ahead(old(self).remaining()),
            final(self).pos() == old(self).data().len(),
    {
        let buffer = copy_range(self.source, self.total_offset, self.source.len());
        self.total_offset = self.source.len();
        buffer
    }

    fn compare_slice(&mut self, bytes: &[u8]) -> (r: bool)
        requires
            old(self).wf(),
            bytes@.len() <= old(self).remaining(),
        ensures
            final(self).wf(),
            final(self).data() == old(self).data(),
            r == (old(self).ahead(bytes@.len() as int) == bytes@),
            final(self).pos() == if r { old(self).pos() + bytes@.len() } else { old(self).pos() },
    {
        let n = self.source.len();
        if bytes_match_at(self.source, self.total_offset, bytes) {
            self.total_offset = self.total_offset + bytes.len();
            true
        } else {
            false
        }
    }

    /// The bytes from the cursor to the end, without copying or moving.
    pub fn rest(&self) -> (r: &'a [u8])
        requires
            self.wf(),
        ensures
            r@ == self.ahead(self.remaining()),
    {
        slice_subrange(self.source, self.total_offset, self.source.len())
    }

    /// Whether `bytes` come next; the cursor moves past them only if so.
    pub fn compare_bytes(&mut self, bytes: Vec<u8>) -> (r: bool)
        requires
            old(self).wf(),
            bytes@.len() <= CHUNK_SIZE,
            bytes@.len() <= old(self).remaining(),
        ensures
            final(self).wf(),
            final(self).data() == old(self).data(),
            r == (old(self).ahead(bytes@.len() as int) == bytes@),
            final(self).pos() == if r { old(self).pos() + bytes@.len() } else { old(self).pos() },
    {
        self.compare_slice(bytes.as_slice())
    }

    /// As `compare_bytes`, with the pattern laid out in the given byte order.
    pub fn compare_endian_bytes(&mut self, bytes: Vec<u8>, big_endian: bool) -> (r: bool)
        requires
            old(self).wf(),
            bytes@.len() <= CHUNK_SIZE,
            bytes@.len() <= old(self).remaining(),
        ensures
            final(self).wf(),
            final(self).data() == old(self).data(),
            r == (old(self).ahead(bytes@.len() as int) == in_order(bytes@, big_endian)),
            final(self).pos() == if r { old(self).pos() + bytes@.len() } else { old(self).pos() },
    {
        if big_endian {
            return self.compare_slice(bytes.as_slice());
        }
        let mut rev: Vec<u8> = Vec::new();
        let mut i: usize = bytes.len();
        while i > 0
            invariant
                i <= bytes@.len(),
                rev@ =~= in_order(bytes@, false).subrange(0, bytes@.len() - i),
            decreases i,
        {
            i = i - 1;
            rev.push(bytes[i]);
        }
        assert(rev@ =~= in_order(bytes@, false));
        self.compare_slice(rev.as_slice())
    }

    /// Whether one of the patterns comes next; the cursor moves past the
    /// first that does.
    pub fn compare_multiple_bytes(&mut self, bytes_list: Vec<Vec<u8>>) -> (r: bool)
        requires
            old(self).wf(),
            forall|i: int|
                0 <= i < bytes_list@.len() ==> #[trigger] bytes_list@[i]@.len() <= CHUNK_SIZE
                    && bytes_list@[i]@.len() <= old(self).remaining(),
        ensures
            final(self).wf(),
            final(self).data() == old(self).data(),
            ({
                let m = first_match(
                    old(self).data(),
                    old(self).pos(),
                    bytes_list@.map_values(|b: Vec<u8>| b@),
                    0,
                );
                &&& r == m.is_some()
                &&& final(self).pos() == if r {
                    old(self).pos() + bytes_list@[m.unwrap()]@.len()
                } else {
                    old(self).pos()
                }
            }),
    {
        let ghost list = bytes_list@.map_values(|b: Vec<u8>| b@);
        let ghost d = self.data();
        let ghost p = self.pos();
        let mut i: usize = 0;
        while i < bytes_list.len()
            invariant
                self.wf(),
                self.data() == d,
                self.pos() == p,
                d == old(self).data(),
                p == old(self).pos(),
                i <= bytes_list@.len(),
                list == bytes_list@.map_values(|b: Vec<u8>| b@),
                first_match(d, p, list, 0) == first_match(d, p, list, i as int),
                forall|k: int|
                    0 <= k < bytes_list@.len() ==> #[trigger] bytes_list@[k]@.len() <= CHUNK_SIZE
                        && bytes_list@[k]@.len() <= d.len() - p,
            decreases bytes_list@.len() - i,
        {
            assert(list[i as int] == bytes_list@[i as int]@);
            if self.compare_slice(bytes_list[i].as_slice()) {
                assert(first_match(d, p, list, i as int) == Some(i as int));
                return true;
            }
            i = i + 1;
        }
        false
    }

    /// The `length` bytes at absolute offset `offset`; the cursor ends after them.
    pub fn read_from(&mut self, offset: usize, length: usize) -> (r: Vec<u8>)
        requires
            old(self).wf(),
            length <= CHUNK_SIZE,
            offset + length <= old(self).data().len(),
        ensures
            final(self).wf(),
            final(self).data() == old(self).data(),
            r@ == old(self).data().subrange(offset as int, offset + length),
            final(self).pos() == offset + length,
    {
        self.total_offset = offset;
        self.read(length)
    }
}

} // verus!
