//! C-style data that the sandbox exchanges with the kernel: NUL-terminated strings and
//! the records that `getdents64` fills a buffer with.
use vstd::prelude::*;
use vstd::bytes::*;
use crate::binformat::elf64::{le16, le64};

verus! {

/// The bytes of a NUL-terminated C string, without the NUL.
pub fn c_unwrap_nul(s: &[u8]) -> (r: &[u8])
    requires
        s@.len() > 0,
        s@.last() == 0,
    ensures
        r@ == s@.drop_last(),
{
    let n = s.len();
    vstd::slice::slice_subrange(s, 0, n - 1)
}

/// The size of the fixed part of a `linux_dirent64` record, as `repr(C)` lays it out.
pub const DIRENT_HEADER_SIZE: usize = 24;

/// Where the name starts within a `linux_dirent64` record.
pub const DIRENT_NAME_OFFSET: usize = 19;

/// One directory entry, its name borrowed from the buffer it was read from.
#[derive(Debug)]
pub struct Dirent<'a> {
    pub d_ino: u64,
    pub d_off: i64,
    pub d_type: u8,
    pub d_name: &'a [u8],
}

/// The record length field of the record at `pos`.
pub open spec fn record_len(buf: Seq<u8>, pos: int) -> u16 {
    le16(buf, pos + 16)
}

/// The record at `pos` holds a whole header, and its length covers the header and
/// stays within the buffer.
pub open spec fn record_ok(buf: Seq<u8>, pos: int) -> bool {
    &&& 0 <= pos
    &&& pos + DIRENT_HEADER_SIZE <= buf.len()
    &&& record_len(buf, pos) >= DIRENT_HEADER_SIZE
    &&& pos + record_len(buf, pos) <= buf.len()
}

/// `n` is the length of the C string at the start of `b`: the bytes before the first
/// NUL, or all of them where there is none.
pub open spec fn is_cstr_len(b: Seq<u8>, n: int) -> bool {
    &&& 0 <= n <= b.len()
    &&& forall|k: int| 0 <= k < n ==> b[k] != 0
    &&& n < b.len() ==> b[n] == 0
}

/// The entry that the record at `pos` describes. Its name runs from the name offset to
/// the first NUL after it.
pub open spec fn dirent_at(buf: Seq<u8>, pos: int, d: Dirent) -> bool {
    &&& d.d_ino == le64(buf, pos)
    &&& d.d_off == le64(buf, pos + 8) as i64
    &&& d.d_type == buf[pos + 18]
    &&& d.d_name@ == buf.subrange(pos + DIRENT_NAME_OFFSET, pos + DIRENT_NAME_OFFSET + d.d_name@.len())
    &&& is_cstr_len(buf.subrange(pos + DIRENT_NAME_OFFSET, buf.len() as int), d.d_name@.len() as int)
}

/// The length of the C string at the start of `b`.
fn cstr_len(b: &[u8]) -> (n: usize)
    ensures
        is_cstr_len(b@, n as int),
{
    let mut i: usize = 0;
    while i < b.len()
        invariant
            i <= b@.len(),
            forall|k: int| 0 <= k < i ==> b@[k] != 0,
        decreases b@.len() - i,
    {
        if b[i] == 0 {
            return i;
        }
        i = i + 1;
    }
    i
}

/// The positions of the records of `buf` from `pos` on, each starting where the one
/// before ends, for as long as each record is whole.
pub open spec fn record_walk(buf: Seq<u8>, pos: int) -> Seq<int>
    decreases buf.len() - pos,
{
    if 0 <= pos < buf.len() && record_ok(buf, pos) {
        seq![pos] + record_walk(buf, pos + record_len(buf, pos))
    } else {
        Seq::empty()
    }
}

/// `buf` holds whole records from `pos` to its very end.
pub open spec fn records_whole(buf: Seq<u8>, pos: int) -> bool
    decreases buf.len() - pos,
{
    if 0 <= pos < buf.len() && record_ok(buf, pos) {
        records_whole(buf, pos + record_len(buf, pos))
    } else {
        pos == buf.len()
    }
}

/// The records that successive calls yield, each as its buffer and its position there,
/// from a reader whose buffer is `contents` read up to `pos`, while `reads` are what the
/// kernel will return next: a call on a drained buffer first fills it with the next read,
/// and the calls stop yielding at a read of nothing.
pub open spec fn dir_run(contents: Seq<u8>, pos: int, reads: Seq<Seq<u8>>) -> Seq<(Seq<u8>, int)>
    decreases reads.len(), contents.len() - pos,
{
    if 0 <= pos < contents.len() && record_ok(contents, pos) {
        seq![(contents, pos)] + dir_run(contents, pos + record_len(contents, pos), reads)
    } else if pos == contents.len() && reads.len() > 0 && reads[0].len() > 0 {
        dir_run(reads[0], 0, reads.drop_first())
    } else {
        Seq::empty()
    }
}

/// Every record of every read up to the first read of nothing: read after read, and
/// within a read in the order of its records.
pub open spec fn dir_stream(reads: Seq<Seq<u8>>) -> Seq<(Seq<u8>, int)>
    decreases reads.len(),
{
    if reads.len() > 0 && reads[0].len() > 0 {
        record_walk(reads[0], 0).map_values(|p: int| (reads[0], p)) + dir_stream(reads.drop_first())
    } else {
        Seq::empty()
    }
}

/// Reading whole records from `pos` yields the records of the walk, then what the
/// drained buffer yields.
proof fn lemma_run_walk(buf: Seq<u8>, pos: int, reads: Seq<Seq<u8>>)
    requires
        0 <= pos,
        records_whole(buf, pos),
    ensures
        dir_run(buf, pos, reads) == record_walk(buf, pos).map_values(|p: int| (buf, p)) + dir_run(
            buf,
            buf.len() as int,
            reads,
        ),
    decreases buf.len() - pos,
{
    if 0 <= pos < buf.len() && record_ok(buf, pos) {
        let next = pos + record_len(buf, pos);
        lemma_run_walk(buf, next, reads);
        let f = |p: int| (buf, p);
        assert(record_walk(buf, pos).map_values(f) =~= seq![(buf, pos)] + record_walk(
            buf,
            next,
        ).map_values(f));
        assert(dir_run(buf, pos, reads) == seq![(buf, pos)] + dir_run(buf, next, reads));
        assert(dir_run(buf, pos, reads) =~= record_walk(buf, pos).map_values(f) + dir_run(
            buf,
            buf.len() as int,
            reads,
        ));
    } else {
        assert(record_walk(buf, pos).map_values(|p: int| (buf, p)) =~= Seq::empty());
        assert(dir_run(buf, pos, reads) =~= Seq::empty() + dir_run(buf, buf.len() as int, reads));
    }
}

/// The walk from `pos` visits records that are each whole, at strictly increasing
/// positions from `pos` on.
pub proof fn lemma_record_walk_increasing(buf: Seq<u8>, pos: int)
    ensures
        forall|i: int|
            0 <= i < record_walk(buf, pos).len() ==> pos <= #[trigger] record_walk(buf, pos)[i]
                && record_ok(buf, record_walk(buf, pos)[i]),
        forall|i: int, j: int|
            0 <= i < j < record_walk(buf, pos).len() ==> #[trigger] record_walk(buf, pos)[i]
                < #[trigger] record_walk(buf, pos)[j],
    decreases buf.len() - pos,
{
    if 0 <= pos < buf.len() && record_ok(buf, pos) {
        let next = pos + record_len(buf, pos);
        lemma_record_walk_increasing(buf, next);
        let w = record_walk(buf, pos);
        let t = record_walk(buf, next);
        assert(w == seq![pos] + t);
        assert forall|i: int| 0 <= i < w.len() implies pos <= #[trigger] w[i] && record_ok(buf, w[i]) by {
            if i > 0 {
                assert(w[i] == t[i - 1]);
            }
        }
        assert forall|i: int, j: int| 0 <= i < j < w.len() implies #[trigger] w[i] < #[trigger] w[j] by {
            assert(w[j] == t[j - 1]);
            if i > 0 {
                assert(w[i] == t[i - 1]);
            } else {
                assert(next <= t[j - 1]);
            }
        }
    }
}

/// Directory reading over refills: when every read the kernel returns holds whole records,
/// the calls of a new reader yield every record of every read up to the first read of
/// nothing, each exactly once, read after read and in order within each read; after that
/// they yield nothing.
pub proof fn lemma_dir_run_stream(reads: Seq<Seq<u8>>)
    requires
        forall|k: int| 0 <= k < reads.len() ==> records_whole(#[trigger] reads[k], 0),
    ensures
        dir_run(Seq::empty(), 0, reads) == dir_stream(reads),
    decreases reads.len(),
{
    if reads.len() > 0 && reads[0].len() > 0 {
        let rest = reads.drop_first();
        assert forall|k: int| 0 <= k < rest.len() implies records_whole(#[trigger] rest[k], 0) by {
            assert(rest[k] == reads[k + 1]);
        }
        lemma_dir_run_stream(rest);
        assert(records_whole(reads[0], 0));
        lemma_run_walk(reads[0], 0, rest);
        let e = reads[0];
        assert(dir_run(e, e.len() as int, rest) == dir_run(Seq::<u8>::empty(), 0, rest)) by {
            if rest.len() > 0 && rest[0].len() > 0 {
            }
        }
        assert(dir_run(Seq::empty(), 0, reads) == dir_run(e, 0, rest));
    } else {
        assert(dir_run(Seq::empty(), 0, reads) =~= Seq::empty());
    }
}

/// The most bytes that one `getdents64` call may return into a reader's buffer.
pub const DIRENT_BUF_SIZE: usize = 512;

/// The buffer that one `getdents64` call fills.
pub type DirentBuf = heapless::Vec<u8, 512>;

/// What a directory buffer holds.
pub uninterp spec fn dirent_buf_view(b: DirentBuf) -> Seq<u8>;

/// `heapless::Vec::new`: an empty buffer.
#[verifier::external_body]
fn dirent_buf_new() -> (r: DirentBuf)
    ensures
        dirent_buf_view(r) == Seq::<u8>::empty(),
{
    heapless::Vec::new()
}

/// `heapless::Vec::from_slice`: a buffer holding a copy of `data` where it fits in
/// the capacity, and none (its `Err`) where it does not.
#[verifier::external_body]
fn dirent_buf_from_slice(data: &[u8]) -> (r: Option<DirentBuf>)
    ensures
        r is Some <==> data@.len() <= DIRENT_BUF_SIZE,
        r matches Some(b) ==> dirent_buf_view(b) == data@,
{
    heapless::Vec::from_slice(data).ok()
}

/// `heapless::Vec::as_slice`: the bytes held, in order; never more than the capacity.
#[verifier::external_body]
fn dirent_buf_bytes(b: &DirentBuf) -> (r: &[u8])
    ensures
        r@ == dirent_buf_view(*b),
        r@.len() <= DIRENT_BUF_SIZE,
{
    b.as_slice()
}

/// The directory records that one `getdents64` call returned, and how far they have
/// been read.
pub struct DirIterator {
    buf: DirentBuf,
    buf_position: usize,
}

impl DirIterator {
    pub closed spec fn contents(&self) -> Seq<u8> {
        dirent_buf_view(self.buf)
    }

    pub closed spec fn position(&self) -> int {
        self.buf_position as int
    }

    pub open spec fn wf(&self) -> bool {
        self.position() <= self.contents().len()
    }

    /// An iterator that has read nothing yet.
    pub fn new() -> (r: Self)
        ensures
            r.wf(),
            r.contents() == Seq::<u8>::empty(),
            r.position() == 0,
    {
        DirIterator { buf: dirent_buf_new(), buf_position: 0 }
    }

    /// Whether every record in the buffer has been read, so that the next call must
    /// fill it again.
    pub fn is_drained(&self) -> (r: bool)
        requires
            self.wf(),
        ensures
            r == (self.position() == self.contents().len()),
    {
        self.buf_position == dirent_buf_bytes(&self.buf).len()
    }

    /// Replace the buffer with what the kernel returned, which fits in it, and read it
    /// from the start.
    pub fn refill(&mut self, data: &[u8])
        requires
            data@.len() <= DIRENT_BUF_SIZE,
        ensures
            final(self).wf(),
            final(self).contents() == data@,
            final(self).position() == 0,
            old(self).position() == old(self).contents().len() ==> forall|reads: Seq<Seq<u8>>|
                #[trigger] dir_run(old(self).contents(), old(self).position(), seq![data@] + reads)
                    == (if data@.len() > 0 {
                    dir_run(final(self).contents(), final(self).position(), reads)
                } else {
                    Seq::empty()
                }),
    {
        let ghost c = self.contents();
        let ghost p = self.buf_position as int;
        proof {
            assert forall|reads: Seq<Seq<u8>>| p == c.len() implies #[trigger] dir_run(c, p, seq![data@] + reads)
                == (if data@.len() > 0 {
                dir_run(data@, 0, reads)
            } else {
                Seq::empty()
            }) by {
                let all = seq![data@] + reads;
                assert(all[0] == data@);
                assert(all.drop_first() =~= reads);
            }
        }
        if let Some(b) = dirent_buf_from_slice(data) {
            self.buf = b;
        }
        self.buf_position = 0;
    }

    /// The next entry, or `None` where the buffer has been read to its end. Each
    /// record moves the position on by its own length.
    pub fn next(&mut self) -> (r: Option<Dirent<'_>>)
        requires
            old(self).wf(),
            old(self).position() < old(self).contents().len() ==> record_ok(
                old(self).contents(),
                old(self).position(),
            ),
        ensures
            final(self).wf(),
            final(self).contents() == old(self).contents(),
            old(self).position() == old(self).contents().len() ==> r is None && final(self).position()
                == old(self).position(),
            old(self).position() < old(self).contents().len() ==> {
                &&& r matches Some(d) && dirent_at(old(self).contents(), old(self).position(), d)
                &&& final(self).position() == old(self).position() + record_len(
                    old(self).contents(),
                    old(self).position(),
                )
            },
            r is Some ==> forall|reads: Seq<Seq<u8>>|
                #[trigger] dir_run(old(self).contents(), old(self).position(), reads) == seq![
                    (old(self).contents(), old(self).position()),
                ] + dir_run(final(self).contents(), final(self).position(), reads),
    {
        let bytes = dirent_buf_bytes(&self.buf);
        if self.buf_position == bytes.len() {
            return None;
        }
        let pos = self.buf_position;
        let d_ino = u64_from_le_bytes(vstd::slice::slice_subrange(bytes, pos, pos + 8));
        let d_off_bits = u64_from_le_bytes(vstd::slice::slice_subrange(bytes, pos + 8, pos + 16));
        let reclen = u16_from_le_bytes(vstd::slice::slice_subrange(bytes, pos + 16, pos + 18));
        let d_type = bytes[pos + 18];
        self.buf_position = pos + reclen as usize;
        let tail = vstd::slice::slice_subrange(bytes, pos + DIRENT_NAME_OFFSET, bytes.len());
        let n = cstr_len(tail);
        let d_name = vstd::slice::slice_subrange(tail, 0, n);
        proof {
            assert(d_name@ =~= bytes@.subrange(
                pos + DIRENT_NAME_OFFSET,
                pos + DIRENT_NAME_OFFSET + n,
            ));
        }
        Some(Dirent { d_ino, d_off: d_off_bits as i64, d_type, d_name })
    }
}

} // verus!
