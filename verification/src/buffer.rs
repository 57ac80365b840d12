//! Double-ended double-queue, for converting between IPC messages and bytes plus files.
//!
//! An `IPCBuffer` holds two bounded FIFO queues: message bytes and file descriptors
//! that travel beside them. Writers append at the back, readers take from the front.
//! Space freed at the front is only reused after `begin_fill` moves the pending data
//! down to the start of the storage.
//! How messages are written to and read from it is in `wire`.
use vstd::prelude::*;
use crate::protocol::SysFd;
use generic_array::GenericArray;
use generic_array::typenum::{U128, U4096};

verus! {

#[derive(Clone, Copy, Debug, Eq, PartialEq, Structural)]
pub enum Error {
    Unimplemented,
    UnexpectedEnd,
    BufferFull,
    InvalidValue,
    Serialize,
    Deserialize,
}

/// Storage size of the byte queue.
pub const BYTES_MAX: usize = 4096;

/// Storage size of the file queue.
pub const FILES_MAX: usize = 128;

/// Fixed-size storage that a queue keeps its items in.
pub trait FixedStorage: Sized {
    type Item: Copy;

    /// Every stored item, occupied or not, in index order.
    spec fn items(&self) -> Seq<Self::Item>;

    fn capacity(&self) -> (r: usize)
        ensures
            r == self.items().len(),
    ;

    fn read(&self, index: usize) -> (r: Self::Item)
        requires
            index < self.items().len(),
        ensures
            r == self.items()[index as int],
    ;

    fn write(&mut self, index: usize, item: Self::Item)
        requires
            index < old(self).items().len(),
        ensures
            final(self).items() == old(self).items().update(index as int, item),
    ;

    fn slice(&self) -> (r: &[Self::Item])
        ensures
            r@ == self.items(),
    ;
}

/// The byte storage of an `IPCBuffer`: a `GenericArray` of `BYTES_MAX` bytes.
#[verifier::external_body]
pub struct ByteStorage {
    array: GenericArray<u8, U4096>,
}

/// The file storage of an `IPCBuffer`: a `GenericArray` of `FILES_MAX` descriptors.
#[verifier::external_body]
pub struct FileStorage {
    array: GenericArray<SysFd, U128>,
}

/// What a `ByteStorage` holds.
pub uninterp spec fn byte_storage_items(storage: ByteStorage) -> Seq<u8>;

/// What a `FileStorage` holds.
pub uninterp spec fn file_storage_items(storage: FileStorage) -> Seq<SysFd>;

/// `GenericArray::default` for `u8` over `U4096`: each of the `BYTES_MAX` elements is
/// `u8::default()`, that is 0.
#[verifier::external_body]
fn byte_storage_new() -> (r: ByteStorage)
    ensures
        byte_storage_items(r) == Seq::new(BYTES_MAX as nat, |_i: int| 0u8),
{
    ByteStorage { array: GenericArray::default() }
}

/// The slice that a `GenericArray` dereferences to: the whole array, in index order.
#[verifier::external_body]
fn byte_storage_slice(storage: &ByteStorage) -> (r: &[u8])
    ensures
        r@ == byte_storage_items(*storage),
{
    &storage.array[..]
}

/// One element of a `GenericArray` assigned through its mutable slice: only that
/// element changes.
#[verifier::external_body]
fn byte_storage_write(storage: &mut ByteStorage, index: usize, item: u8)
    requires
        index < byte_storage_items(*old(storage)).len(),
    ensures
        byte_storage_items(*final(storage)) == byte_storage_items(*old(storage)).update(
            index as int,
            item,
        ),
{
    storage.array[index] = item;
}

/// `GenericArray::default` for `SysFd` over `U128`: each of the `FILES_MAX` elements is
/// `SysFd::default()`, that is `SysFd(u32::MAX)`.
#[verifier::external_body]
fn file_storage_new() -> (r: FileStorage)
    ensures
        file_storage_items(r) == Seq::new(FILES_MAX as nat, |_i: int| SysFd(u32::MAX)),
{
    FileStorage { array: GenericArray::default() }
}

/// The slice that a `GenericArray` dereferences to: the whole array, in index order.
#[verifier::external_body]
fn file_storage_slice(storage: &FileStorage) -> (r: &[SysFd])
    ensures
        r@ == file_storage_items(*storage),
{
    &storage.array[..]
}

/// One element of a `GenericArray` assigned through its mutable slice: only that
/// element changes.
#[verifier::external_body]
fn file_storage_write(storage: &mut FileStorage, index: usize, item: SysFd)
    requires
        index < file_storage_items(*old(storage)).len(),
    ensures
        file_storage_items(*final(storage)) == file_storage_items(*old(storage)).update(
            index as int,
            item,
        ),
{
    storage.array[index] = item;
}

impl FixedStorage for ByteStorage {
    type Item = u8;

    open spec fn items(&self) -> Seq<u8> {
        byte_storage_items(*self)
    }

    fn capacity(&self) -> (r: usize) {
        byte_storage_slice(self).len()
    }

    fn read(&self, index: usize) -> (r: u8) {
        byte_storage_slice(self)[index]
    }

    fn write(&mut self, index: usize, item: u8) {
        byte_storage_write(self, index, item);
    }

    fn slice(&self) -> (r: &[u8]) {
        byte_storage_slice(self)
    }
}

impl FixedStorage for FileStorage {
    type Item = SysFd;

    open spec fn items(&self) -> Seq<SysFd> {
        file_storage_items(*self)
    }

    fn capacity(&self) -> (r: usize) {
        file_storage_slice(self).len()
    }

    fn read(&self, index: usize) -> (r: SysFd) {
        file_storage_slice(self)[index]
    }

    fn write(&mut self, index: usize, item: SysFd) {
        file_storage_write(self, index, item);
    }

    fn slice(&self) -> (r: &[SysFd]) {
        file_storage_slice(self)
    }
}

/// A bounded FIFO over fixed storage; `start..end` is the occupied part.
struct Queue<S: FixedStorage> {
    array: S,
    start: usize,
    end: usize,
}

impl<S: FixedStorage> Queue<S> {
    closed spec fn wf(&self) -> bool {
        self.start <= self.end <= self.array.items().len()
    }

    closed spec fn stored(&self) -> Seq<S::Item> {
        self.array.items()
    }

    closed spec fn contents(&self) -> Seq<S::Item> {
        self.array.items().subrange(self.start as int, self.end as int)
    }

    /// Free slots after the occupied part.
    closed spec fn room(&self) -> int {
        self.array.items().len() - self.end
    }

    closed spec fn capacity(&self) -> int {
        self.array.items().len() as int
    }

    /// An empty queue over the given storage.
    fn over(array: S) -> (r: Self)
        ensures
            r.wf(),
            r.stored() == array.items(),
            r.contents() == Seq::<S::Item>::empty(),
            r.room() == array.items().len(),
            r.capacity() == array.items().len(),
    {
        let q = Queue { array, start: 0, end: 0 };
        assert(q.contents() =~= Seq::<S::Item>::empty());
        q
    }

    fn is_empty(&self) -> (r: bool)
        requires
            self.wf(),
        ensures
            r == (self.contents().len() == 0),
    {
        self.start == self.end
    }

    fn push_back(&mut self, item: S::Item) -> (r: Result<(), Error>)
        requires
            old(self).wf(),
        ensures
            final(self).wf(),
            old(self).room() > 0 ==> r == Ok::<(), Error>(()) && final(self).contents() == old(
                self,
            ).contents().push(item) && final(self).room() == old(self).room() - 1,
            old(self).room() <= 0 ==> r == Err::<(), Error>(Error::BufferFull) && final(self).contents()
                == old(self).contents() && final(self).room() == old(self).room(),
            final(self).capacity() == old(self).capacity(),
    {
        if self.end < self.array.capacity() {
            let end = self.end;
            self.array.write(end, item);
            self.end = end + 1;
            proof {
                assert(self.contents() =~= old(self).contents().push(item));
            }
            Ok(())
        } else {
            Err(Error::BufferFull)
        }
    }

    fn extend(&mut self, items: &[S::Item]) -> (r: Result<(), Error>)
        requires
            old(self).wf(),
        ensures
            final(self).wf(),
            items@.len() <= old(self).room() ==> r == Ok::<(), Error>(()) && final(self).contents()
                == old(self).contents() + items@ && final(self).room() == old(self).room()
                - items@.len(),
            items@.len() > old(self).room() ==> r == Err::<(), Error>(Error::BufferFull)
                && final(self).contents() == old(self).contents() && final(self).room() == old(
                self,
            ).room(),
            final(self).capacity() == old(self).capacity(),
    {
        if items.len() > self.array.capacity() - self.end {
            return Err(Error::BufferFull);
        }
        let mut i: usize = 0;
        while i < items.len()
            invariant
                self.start == old(self).start,
                self.end == old(self).end,
                self.array.items().len() == old(self).array.items().len(),
                old(self).end + items@.len() <= self.array.items().len() <= usize::MAX,
                old(self).start <= old(self).end,
                i <= items@.len(),
                forall|k: int|
                    0 <= k < old(self).end ==> self.array.items()[k] == old(self).array.items()[k],
                forall|k: int|
                    0 <= k < i ==> self.array.items()[old(self).end + k] == items@[k],
            decreases items@.len() - i,
        {
            let pos = self.end + i;
            self.array.write(pos, items[i]);
            i = i + 1;
        }
        self.end = self.end + items.len();
        proof {
            assert(self.contents() =~= old(self).contents() + items@);
        }
        Ok(())
    }

    fn pop_front(&mut self, count: usize)
        requires
            old(self).wf(),
            count <= old(self).contents().len(),
        ensures
            final(self).wf(),
            final(self).contents() == old(self).contents().skip(count as int),
            final(self).stored() == old(self).stored(),
            final(self).room() == old(self).room(),
            final(self).capacity() == old(self).capacity(),
    {
        self.start = self.start + count;
        proof {
            assert(self.contents() =~= old(self).contents().skip(count as int));
        }
    }

    fn as_slice(&self) -> (r: &[S::Item])
        requires
            self.wf(),
        ensures
            r@ == self.contents(),
    {
        vstd::slice::slice_subrange(self.array.slice(), self.start, self.end)
    }

    /// Move the pending items to the start of the storage, so all free space is at the back.
    fn begin_fill(&mut self) -> (r: usize)
        requires
            old(self).wf(),
        ensures
            final(self).wf(),
            final(self).contents() == old(self).contents(),
            final(self).room() == old(self).capacity() - old(self).contents().len(),
            r == final(self).room(),
            final(self).capacity() == old(self).capacity(),
    {
        let start = self.start;
        let len = self.end - self.start;
        let mut i: usize = 0;
        while i < len
            invariant
                self.start == start,
                start == old(self).start,
                len == old(self).end - old(self).start,
                self.end == old(self).end,
                self.array.items().len() == old(self).array.items().len(),
                old(self).start <= old(self).end <= old(self).array.items().len(),
                i <= len,
                forall|k: int| 0 <= k < i ==> self.array.items()[k] == old(self).array.items()[start + k],
                forall|k: int|
                    i <= k < self.array.items().len() ==> self.array.items()[k] == old(
                        self,
                    ).array.items()[k],
            decreases len - i,
        {
            let v = self.array.read(start + i);
            self.array.write(i, v);
            i = i + 1;
        }
        self.start = 0;
        self.end = len;
        proof {
            assert(self.contents() =~= old(self).contents());
        }
        self.array.capacity() - len
    }

    fn front(&self, len: usize) -> (r: Result<&[S::Item], Error>)
        requires
            self.wf(),
        ensures
            len <= self.contents().len() ==> (r matches Ok(s) && s@ == self.contents().take(
                len as int,
            )),
            len > self.contents().len() ==> r is Err && r->Err_0 == Error::UnexpectedEnd,
    {
        if len <= self.end - self.start {
            let s = vstd::slice::slice_subrange(self.array.slice(), self.start, self.start + len);
            proof {
                assert(s@ =~= self.contents().take(len as int));
            }
            Ok(s)
        } else {
            Err(Error::UnexpectedEnd)
        }
    }

    fn position(&self) -> (r: (usize, usize))
        requires
            self.wf(),
        ensures
            r.0 <= r.1 <= self.capacity(),
            self.contents() == self.stored().subrange(r.0 as int, r.1 as int),
            r.1 == self.capacity() - self.room(),
    {
        (self.start, self.end)
    }

    fn set_position(&mut self, pos: (usize, usize))
        requires
            old(self).wf(),
            pos.0 <= pos.1 <= old(self).capacity(),
        ensures
            final(self).wf(),
            final(self).stored() == old(self).stored(),
            final(self).contents() == old(self).stored().subrange(pos.0 as int, pos.1 as int),
            final(self).room() == old(self).capacity() - pos.1,
            final(self).capacity() == old(self).capacity(),
    {
        self.start = pos.0;
        self.end = pos.1;
    }
}
/// A pair of queues: message bytes, and the file descriptors sent along with them.
pub struct IPCBuffer {
    bytes: Queue<ByteStorage>,
    files: Queue<FileStorage>,
}

/// A view of the pending data in an `IPCBuffer`.
#[derive(Debug, Eq, PartialEq)]
pub struct IPCSlice<'a> {
    pub bytes: &'a [u8],
    pub files: &'a [SysFd],
}

/// Where the readers of an `IPCBuffer` stood, so that a partial read can be undone.
pub struct IPCPosition {
    bytes: (usize, usize),
    files: (usize, usize),
    saved: Ghost<(Seq<u8>, Seq<SysFd>, Seq<u8>, Seq<SysFd>)>,
}

impl IPCPosition {
    /// The pending bytes and files when the position was taken.
    pub closed spec fn saved_contents(&self) -> (Seq<u8>, Seq<SysFd>) {
        (self.saved@.0, self.saved@.1)
    }

    /// The storage of both queues when the position was taken.
    pub closed spec fn saved_storage(&self) -> (Seq<u8>, Seq<SysFd>) {
        (self.saved@.2, self.saved@.3)
    }

    pub closed spec fn wf(&self) -> bool {
        &&& self.bytes.0 <= self.bytes.1 <= BYTES_MAX
        &&& self.files.0 <= self.files.1 <= FILES_MAX
        &&& self.saved@.0 == self.saved@.2.subrange(self.bytes.0 as int, self.bytes.1 as int)
        &&& self.saved@.1 == self.saved@.3.subrange(self.files.0 as int, self.files.1 as int)
    }
}

impl IPCBuffer {
    /// Both queues are consistent and have their full storage.
    pub closed spec fn wf(&self) -> bool {
        &&& self.bytes.wf()
        &&& self.files.wf()
        &&& self.bytes.capacity() == BYTES_MAX
        &&& self.files.capacity() == FILES_MAX
    }

    /// The bytes waiting to be read.
    pub closed spec fn pending_bytes(&self) -> Seq<u8> {
        self.bytes.contents()
    }

    /// The files waiting to be read.
    pub closed spec fn pending_files(&self) -> Seq<SysFd> {
        self.files.contents()
    }

    /// How many more bytes can be appended before `begin_fill` is needed.
    pub closed spec fn byte_room(&self) -> int {
        self.bytes.room()
    }

    /// How many more files can be appended before `begin_fill` is needed.
    pub closed spec fn file_room(&self) -> int {
        self.files.room()
    }

    /// The whole storage of both queues, read or not.
    pub closed spec fn storage(&self) -> (Seq<u8>, Seq<SysFd>) {
        (self.bytes.stored(), self.files.stored())
    }

    /// The free space of a well-formed buffer is never negative nor above the storage size.
    pub proof fn lemma_rooms(&self)
        requires
            self.wf(),
        ensures
            0 <= self.byte_room() <= BYTES_MAX,
            0 <= self.file_room() <= FILES_MAX,
            self.pending_bytes().len() + self.byte_room() <= BYTES_MAX,
            self.pending_files().len() + self.file_room() <= FILES_MAX,
    {
    }

    pub fn new() -> (r: Self)
        ensures
            r.wf(),
            r.pending_bytes() == Seq::<u8>::empty(),
            r.pending_files() == Seq::<SysFd>::empty(),
            r.byte_room() == BYTES_MAX,
            r.file_room() == FILES_MAX,
    {
        IPCBuffer {
            bytes: Queue::over(byte_storage_new()),
            files: Queue::over(file_storage_new()),
        }
    }

    pub fn as_slice(&self) -> (r: IPCSlice<'_>)
        requires
            self.wf(),
        ensures
            r.bytes@ == self.pending_bytes(),
            r.files@ == self.pending_files(),
    {
        IPCSlice { bytes: self.bytes.as_slice(), files: self.files.as_slice() }
    }

    /// Make all free space contiguous at the back of both queues, ready to receive
    /// data. Returns the space available for bytes and for files.
    pub fn begin_fill(&mut self) -> (r: (usize, usize))
        requires
            old(self).wf(),
        ensures
            final(self).wf(),
            final(self).pending_bytes() == old(self).pending_bytes(),
            final(self).pending_files() == old(self).pending_files(),
            final(self).byte_room() == BYTES_MAX - old(self).pending_bytes().len(),
            final(self).file_room() == FILES_MAX - old(self).pending_files().len(),
            r.0 == final(self).byte_room(),
            r.1 == final(self).file_room(),
    {
        let b = self.bytes.begin_fill();
        let f = self.files.begin_fill();
        (b, f)
    }

    /// Append received data after `begin_fill`.
    pub fn commit_fill(&mut self, bytes: &[u8], files: &[SysFd])
        requires
            old(self).wf(),
            bytes@.len() <= old(self).byte_room(),
            files@.len() <= old(self).file_room(),
        ensures
            final(self).wf(),
            final(self).pending_bytes() == old(self).pending_bytes() + bytes@,
            final(self).pending_files() == old(self).pending_files() + files@,
            final(self).byte_room() == old(self).byte_room() - bytes@.len(),
            final(self).file_room() == old(self).file_room() - files@.len(),
    {
        let _ = self.bytes.extend(bytes);
        let _ = self.files.extend(files);
    }

    pub fn is_empty(&self) -> (r: bool)
        requires
            self.wf(),
        ensures
            r == (self.pending_bytes().len() == 0 && self.pending_files().len() == 0),
    {
        self.bytes.is_empty() && self.files.is_empty()
    }

    pub fn extend_bytes(&mut self, data: &[u8]) -> (r: Result<(), Error>)
        requires
            old(self).wf(),
        ensures
            final(self).wf(),
            data@.len() <= old(self).byte_room() ==> r == Ok::<(), Error>(())
                && final(self).pending_bytes() == old(self).pending_bytes() + data@
                && final(self).byte_room() == old(self).byte_room() - data@.len(),
            data@.len() > old(self).byte_room() ==> r == Err::<(), Error>(Error::BufferFull)
                && final(self).pending_bytes() == old(self).pending_bytes()
                && final(self).byte_room() == old(self).byte_room(),
            final(self).pending_files() == old(self).pending_files(),
            final(self).file_room() == old(self).file_room(),
    {
        self.bytes.extend(data)
    }

    pub fn push_back_byte(&mut self, data: u8) -> (r: Result<(), Error>)
        requires
            old(self).wf(),
        ensures
            final(self).wf(),
            old(self).byte_room() > 0 ==> r == Ok::<(), Error>(()) && final(self).pending_bytes()
                == old(self).pending_bytes().push(data) && final(self).byte_room() == old(
                self,
            ).byte_room() - 1,
            old(self).byte_room() <= 0 ==> r == Err::<(), Error>(Error::BufferFull)
                && final(self).pending_bytes() == old(self).pending_bytes()
                && final(self).byte_room() == old(self).byte_room(),
            final(self).pending_files() == old(self).pending_files(),
            final(self).file_room() == old(self).file_room(),
    {
        self.bytes.push_back(data)
    }

    pub fn push_back_file(&mut self, file: SysFd) -> (r: Result<(), Error>)
        requires
            old(self).wf(),
        ensures
            final(self).wf(),
            old(self).file_room() > 0 ==> r == Ok::<(), Error>(()) && final(self).pending_files()
                == old(self).pending_files().push(file) && final(self).file_room() == old(
                self,
            ).file_room() - 1,
            old(self).file_room() <= 0 ==> r == Err::<(), Error>(Error::BufferFull)
                && final(self).pending_files() == old(self).pending_files()
                && final(self).file_room() == old(self).file_room(),
            final(self).pending_bytes() == old(self).pending_bytes(),
            final(self).byte_room() == old(self).byte_room(),
    {
        self.files.push_back(file)
    }

    pub fn front_bytes(&self, len: usize) -> (r: Result<&[u8], Error>)
        requires
            self.wf(),
        ensures
            len <= self.pending_bytes().len() ==> (r matches Ok(s) && s@ == self.pending_bytes().take(
                len as int,
            )),
            len > self.pending_bytes().len() ==> r == Err::<&[u8], Error>(Error::UnexpectedEnd),
    {
        self.bytes.front(len)
    }

    pub fn front_files(&self, len: usize) -> (r: Result<&[SysFd], Error>)
        requires
            self.wf(),
        ensures
            len <= self.pending_files().len() ==> (r matches Ok(s) && s@ == self.pending_files().take(
                len as int,
            )),
            len > self.pending_files().len() ==> r == Err::<&[SysFd], Error>(Error::UnexpectedEnd),
    {
        self.files.front(len)
    }

    pub fn pop_front_bytes(&mut self, len: usize)
        requires
            old(self).wf(),
            len <= old(self).pending_bytes().len(),
        ensures
            final(self).wf(),
            final(self).pending_bytes() == old(self).pending_bytes().skip(len as int),
            final(self).pending_files() == old(self).pending_files(),
            final(self).byte_room() == old(self).byte_room(),
            final(self).file_room() == old(self).file_room(),
            final(self).storage() == old(self).storage(),
    {
        self.bytes.pop_front(len)
    }

    pub fn pop_front_files(&mut self, len: usize)
        requires
            old(self).wf(),
            len <= old(self).pending_files().len(),
        ensures
            final(self).wf(),
            final(self).pending_files() == old(self).pending_files().skip(len as int),
            final(self).pending_bytes() == old(self).pending_bytes(),
            final(self).byte_room() == old(self).byte_room(),
            final(self).file_room() == old(self).file_room(),
            final(self).storage() == old(self).storage(),
    {
        self.files.pop_front(len)
    }

    pub fn pop_front_byte(&mut self) -> (r: Result<u8, Error>)
        requires
            old(self).wf(),
        ensures
            final(self).wf(),
            old(self).pending_bytes().len() > 0 ==> r == Ok::<u8, Error>(old(self).pending_bytes()[0])
                && final(self).pending_bytes() == old(self).pending_bytes().drop_first(),
            old(self).pending_bytes().len() == 0 ==> r == Err::<u8, Error>(Error::UnexpectedEnd)
                && final(self).pending_bytes() == old(self).pending_bytes(),
            final(self).pending_files() == old(self).pending_files(),
            final(self).byte_room() == old(self).byte_room(),
            final(self).file_room() == old(self).file_room(),
            final(self).storage() == old(self).storage(),
    {
        let result = match self.front_bytes(1) {
            Ok(s) => s[0],
            Err(e) => {
                return Err(e);
            },
        };
        self.pop_front_bytes(1);
        Ok(result)
    }

    pub fn pop_front_file(&mut self) -> (r: Result<SysFd, Error>)
        requires
            old(self).wf(),
        ensures
            final(self).wf(),
            old(self).pending_files().len() > 0 ==> r == Ok::<SysFd, Error>(
                old(self).pending_files()[0],
            ) && final(self).pending_files() == old(self).pending_files().drop_first(),
            old(self).pending_files().len() == 0 ==> r == Err::<SysFd, Error>(Error::UnexpectedEnd)
                && final(self).pending_files() == old(self).pending_files(),
            final(self).pending_bytes() == old(self).pending_bytes(),
            final(self).byte_room() == old(self).byte_room(),
            final(self).file_room() == old(self).file_room(),
            final(self).storage() == old(self).storage(),
    {
        let result = match self.front_files(1) {
            Ok(s) => s[0],
            Err(e) => {
                return Err(e);
            },
        };
        self.pop_front_files(1);
        Ok(result)
    }

    /// Remember where the readers stand.
    pub fn save_position(&self) -> (r: IPCPosition)
        requires
            self.wf(),
        ensures
            r.wf(),
            r.saved_contents() == (self.pending_bytes(), self.pending_files()),
            r.saved_storage() == self.storage(),
    {
        IPCPosition {
            bytes: self.bytes.position(),
            files: self.files.position(),
            saved: Ghost((self.bytes.contents(), self.files.contents(), self.bytes.stored(), self.files.stored())),
        }
    }

    /// Return the readers to a saved position. Data that was only read since then, and
    /// not overwritten, is pending again exactly as it was.
    pub fn restore_position(&mut self, pos: IPCPosition)
        requires
            old(self).wf(),
            pos.wf(),
        ensures
            final(self).wf(),
            pos.saved_storage() == old(self).storage() ==> (final(self).pending_bytes(),
            final(self).pending_files()) == pos.saved_contents(),
    {
        self.bytes.set_position(pos.bytes);
        self.files.set_position(pos.files);
    }
}

} // verus!
