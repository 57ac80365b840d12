//! Reading and writing the memory of a traced process, as far as it is computation:
//! searching memory chunk by chunk, measuring a C string, turning bytes into the
//! padded words that `ptrace` writes, and reading pointer arrays.
use vstd::prelude::*;
use vstd::bytes::*;
use core::ops::Range;
use crate::abi;
use crate::parser::{Stream, after_next, peek_of};
use crate::protocol::{Errno, VPtr, VString};

verus! {

/// The size of the buffer that memory is searched through.
pub const SEARCH_CHUNK: usize = 256;

/// The `syscall` instruction.
pub const SYSCALL_INSTRUCTION: [u8; 2] = [0x0f, 0x05];

/// `pattern` occurs in `text` starting at `i`.
pub open spec fn occurs_at(text: Seq<u8>, pattern: Seq<u8>, i: int) -> bool {
    &&& 0 <= i
    &&& i + pattern.len() <= text.len()
    &&& text.subrange(i, i + pattern.len()) == pattern
}

/// `twoway::find_bytes`: the index of the first occurrence of `pattern` in `text`, or
/// `None` where it does not occur.
#[verifier::external_body]
fn find_first(text: &[u8], pattern: &[u8]) -> (r: Option<usize>)
    ensures
        r matches Some(i) ==> occurs_at(text@, pattern@, i as int) && forall|j: int|
            0 <= j < i ==> !#[trigger] occurs_at(text@, pattern@, j),
        r is None ==> forall|j: int| !#[trigger] occurs_at(text@, pattern@, j),
{
    twoway::find_bytes(text, pattern)
}

/// A search for a byte pattern in an area of a process's memory, read one chunk at a
/// time. Successive chunks overlap by one byte less than the pattern, so that a match
/// across a chunk boundary is found.
#[derive(Debug)]
pub struct ByteSearch {
    pub area_end: usize,
    pub ptr: usize,
    pub pattern_len: usize,
    /// The area was empty: nothing is read, and the pattern is not found.
    pub area_empty: bool,
}

impl ByteSearch {
    pub open spec fn wf(&self) -> bool {
        &&& self.pattern_len <= SEARCH_CHUNK
        &&& self.area_end + SEARCH_CHUNK <= usize::MAX
    }

    /// Start searching `area` for a pattern of `pattern_len` bytes, which must fit in
    /// a chunk.
    pub fn new(area: &Range<VPtr>, pattern_len: usize) -> (r: Self)
        requires
            pattern_len <= SEARCH_CHUNK,
            area.end.0 + SEARCH_CHUNK <= usize::MAX,
            area.start.0 + SEARCH_CHUNK <= usize::MAX,
        ensures
            r.wf(),
            r.ptr == area.start.0,
            r.area_end == (if area.end.0 > area.start.0 { area.end.0 } else { area.start.0 }),
            r.pattern_len == pattern_len,
            r.area_empty == (area.end.0 <= area.start.0),
    {
        let area_end = if area.end.0 > area.start.0 {
            area.end.0
        } else {
            area.start.0
        };
        ByteSearch { area_end, ptr: area.start.0, pattern_len, area_empty: area.end.0 <= area.start.0 }
    }

    /// The bytes of the area from `ptr` on that the next chunk covers.
    pub open spec fn chunk_size(&self) -> int {
        if self.area_end - self.ptr < SEARCH_CHUNK {
            self.area_end - self.ptr
        } else {
            SEARCH_CHUNK as int
        }
    }

    /// Where to read the next chunk of `SEARCH_CHUNK` bytes from: `None` for an empty
    /// area, or once what is left of the area is shorter than the pattern, and the search
    /// has failed.
    pub fn next_read(&self) -> (r: Option<VPtr>)
        requires
            self.wf(),
            self.ptr <= self.area_end,
        ensures
            self.area_empty || self.chunk_size() < self.pattern_len ==> r is None,
            !self.area_empty && self.chunk_size() >= self.pattern_len ==> r == Some(
                VPtr(self.ptr),
            ),
    {
        if self.area_empty {
            return None;
        }
        let left = self.area_end - self.ptr;
        let chunk_size = if left < SEARCH_CHUNK {
            left
        } else {
            SEARCH_CHUNK
        };
        if chunk_size < self.pattern_len {
            None
        } else {
            Some(VPtr(self.ptr))
        }
    }

    /// Look for the pattern in the chunk just read: its address where it occurs, and
    /// otherwise move on to the next chunk.
    pub fn scan(&mut self, buffer: &[u8], pattern: &[u8]) -> (r: Option<VPtr>)
        requires
            old(self).wf(),
            old(self).ptr <= old(self).area_end,
            old(self).chunk_size() >= old(self).pattern_len,
            buffer@.len() == SEARCH_CHUNK,
            pattern@.len() == old(self).pattern_len,
        ensures
            final(self).wf(),
            final(self).area_end == old(self).area_end,
            final(self).pattern_len == old(self).pattern_len,
            final(self).area_empty == old(self).area_empty,
            r matches Some(p) ==> exists|i: int| #![trigger occurs_at(buffer@, pattern@, i)]
                occurs_at(buffer@, pattern@, i) && p.0 == old(self).ptr + i && forall|j: int|
                0 <= j < i ==> !occurs_at(buffer@, pattern@, j),
            r is None ==> (forall|j: int| !#[trigger] occurs_at(buffer@, pattern@, j))
                && final(self).ptr == old(self).ptr + old(self).chunk_size() - old(self).pattern_len + 1,
            r is None ==> final(self).ptr <= final(self).area_end,
    {
        match find_first(buffer, pattern) {
            Some(offset) => Some(VPtr(self.ptr + offset)),
            None => {
                let left = self.area_end - self.ptr;
                let chunk_size = if left < SEARCH_CHUNK {
                    left
                } else {
                    SEARCH_CHUNK
                };
                self.ptr = self.ptr + (chunk_size - self.pattern_len + 1);
                proof {
                    if self.ptr > self.area_end {
                        assert(self.pattern_len == 0);
                        assert(occurs_at(buffer@, pattern@, 0)) by {
                            assert(buffer@.subrange(0, 0) =~= pattern@);
                        }
                    }
                }
                None
            },
        }
    }
}

/// The `syscall` instruction found in the vDSO, or `ENOSYS` where it is missing.
pub fn syscall_found(found: Option<VPtr>) -> (r: Result<VPtr, Errno>)
    ensures
        found matches Some(p) ==> r == Ok::<VPtr, Errno>(p),
        found is None ==> r == Err::<VPtr, Errno>(Errno(-38i32)),
{
    match found {
        Some(ptr) => Ok(ptr),
        None => Err(Errno(-abi::ENOSYS)),
    }
}

/// The index of the first NUL in `s`, or its length where there is none.
pub open spec fn first_nul(s: Seq<u8>) -> int
    decreases s.len(),
{
    if s.len() == 0 {
        0
    } else if s[0] == 0 {
        0
    } else {
        1 + first_nul(s.drop_first())
    }
}

proof fn lemma_first_nul(s: Seq<u8>)
    ensures
        0 <= first_nul(s) <= s.len(),
        first_nul(s) < s.len() ==> s[first_nul(s)] == 0,
        forall|k: int| 0 <= k < first_nul(s) ==> s[k] != 0,
    decreases s.len(),
{
    if s.len() > 0 && s[0] != 0 {
        lemma_first_nul(s.drop_first());
        assert forall|k: int| 0 <= k < first_nul(s) implies s[k] != 0 by {
            if k > 0 {
                assert(s[k] == s.drop_first()[k - 1]);
            }
        }
    }
}

/// The length, NUL included, of the string that starts `skip` bytes into `s`. Reading
/// off the end before the NUL is a fault.
pub fn vstring_len<T: Stream>(s: &mut T, skip: usize) -> (r: Result<usize, Errno>)
    requires
        old(s).rest().len() <= usize::MAX,
    ensures
        ({
            let rest = old(s).rest();
            let tail = rest.skip(skip as int);
            &&& (skip <= rest.len() && first_nul(tail) < tail.len()) ==> r == Ok::<usize, Errno>(
                (first_nul(tail) + 1) as usize,
            )
            &&& !(skip <= rest.len() && first_nul(tail) < tail.len()) ==> r == Err::<usize, Errno>(
                Errno(-14i32),
            )
        }),
{
    let ghost rest = s.rest();
    let mut i: usize = 0;
    while i < skip
        invariant
            rest == old(s).rest(),
            i <= skip,
            i <= rest.len() ==> s.rest() == rest.skip(i as int),
            i <= rest.len(),
        decreases skip - i,
    {
        let ghost before = s.rest();
        match s.next() {
            Some(Ok(_)) => {},
            _ => {
                proof {
                    assert(before.len() == 0);
                    assert(rest.skip(i as int).len() == rest.len() - i);
                }
                return Err(Errno(-abi::EFAULT));
            },
        }
        proof {
            assert(rest.skip(i as int).drop_first() =~= rest.skip(i + 1));
        }
        i = i + 1;
    }
    let ghost tail = rest.skip(skip as int);
    proof {
        lemma_first_nul(tail);
    }
    let mut len: usize = 0;
    loop
        invariant
            rest == old(s).rest(),
            skip <= rest.len(),
            tail == rest.skip(skip as int),
            len <= tail.len(),
            len <= first_nul(tail),
            0 <= first_nul(tail) <= tail.len(),
            first_nul(tail) < tail.len() ==> tail[first_nul(tail)] == 0,
            forall|k: int| 0 <= k < first_nul(tail) ==> tail[k] != 0,
            s.rest() == tail.skip(len as int),
            rest.len() <= usize::MAX,
        decreases tail.len() - len,
    {
        let ghost before = s.rest();
        match s.next() {
            Some(Ok(byte)) => {
                proof {
                    assert(tail.skip(len as int)[0] == tail[len as int]);
                    assert(tail.skip(len as int).drop_first() =~= tail.skip(len + 1));
                }
                len = len + 1;
                if byte == 0 {
                    return Ok(len);
                }
            },
            _ => {
                proof {
                    assert(before.len() == 0);
                    assert(tail.skip(len as int).len() == tail.len() - len);
                }
                return Err(Errno(-abi::EFAULT));
            },
        }
    }
}

/// Eight bytes of `bytes` from `start`, zero-filled past the end.
pub open spec fn padded_chunk(bytes: Seq<u8>, start: int) -> Seq<u8> {
    Seq::new(8, |k: int| if start + k < bytes.len() { bytes[start + k] } else { 0u8 })
}

/// The number of words that hold `n` bytes.
pub open spec fn word_count(n: int) -> int {
    (n + 7) / 8
}

/// The words that write `bytes` to memory: each eight bytes, the last zero-filled, read
/// little-endian, and then a zero word.
pub fn padded_words(bytes: &[u8]) -> (r: Vec<u64>)
    requires
        bytes@.len() + 7 <= usize::MAX,
    ensures
        r@.len() == word_count(bytes@.len() as int) + 1,
        forall|i: int|
            0 <= i < word_count(bytes@.len() as int) ==> #[trigger] r@[i] == spec_u64_from_le_bytes(
                padded_chunk(bytes@, 8 * i),
            ),
        r@[word_count(bytes@.len() as int)] == 0,
{
    let n = bytes.len();
    let count = (n + 7) / 8;
    let mut r: Vec<u64> = Vec::new();
    let mut w: usize = 0;
    while w < count
        invariant
            n == bytes@.len(),
            count == word_count(n as int),
            w <= count,
            r@.len() == w,
            forall|i: int| 0 <= i < w ==> #[trigger] r@[i] == spec_u64_from_le_bytes(padded_chunk(bytes@, 8 * i)),
        decreases count - w,
    {
        let mut chunk = [0u8; 8];
        let start = 8 * w;
        let mut k: usize = 0;
        while k < 8
            invariant
                k <= 8,
                start == 8 * w,
                w < count,
                count == word_count(n as int),
                n == bytes@.len(),
                forall|j: int| 0 <= j < 8 ==> chunk@[j] == (if j < k && start + j < n { bytes@[start + j] } else { 0u8 }),
            decreases 8 - k,
        {
            if start + k < n {
                chunk[k] = bytes[start + k];
            }
            k = k + 1;
        }
        proof {
            assert(chunk@ =~= padded_chunk(bytes@, 8 * w));
        }
        r.push(u64_from_le_bytes(vstd::array::array_as_slice(&chunk)));
        w = w + 1;
    }
    r.push(0);
    r
}

/// The string that an entry of a pointer array names: `None` for the null pointer
/// that ends the array.
pub fn string_array_item(ptr: VPtr) -> (r: Option<VString>)
    ensures
        ptr.0 == 0 ==> r is None,
        ptr.0 != 0 ==> r == Some(VString(ptr)),
{
    if ptr.0 == 0 {
        None
    } else {
        Some(VString(ptr))
    }
}

/// Where entry `idx` of the pointer array at `array` is stored.
pub fn pointer_array_entry(array: VPtr, idx: usize) -> (r: VPtr)
    requires
        array.0 + idx * 8 <= usize::MAX,
    ensures
        r.0 == array.0 + idx * 8,
{
    array.add(idx * 8)
}

} // verus!
