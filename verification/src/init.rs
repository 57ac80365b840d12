//! The start of the init loader: the args file holds a fixed header, then the working
//! directory, the file name, and the arguments and environment as runs of NUL-terminated
//! strings, which become the pointer arrays that `execve` takes.
use vstd::prelude::*;
use vstd::bytes::*;
use crate::protocol::InitArgsHeader;

verus! {

/// The index of the first NUL in `v` at or after `j`, or the length of `v` where there
/// is none.
pub open spec fn next_nul(v: Seq<u8>, j: int) -> int
    decreases v.len() - j,
{
    if j < 0 || j >= v.len() {
        v.len() as int
    } else if v[j] == 0 {
        j
    } else {
        next_nul(v, j + 1)
    }
}

/// Where string `i` of the run `v` starts: the first at zero, each next one just past
/// the NUL that ends the one before.
pub open spec fn cstr_start(v: Seq<u8>, i: nat) -> int
    decreases i,
{
    if i == 0 {
        0
    } else {
        next_nul(v, cstr_start(v, (i - 1) as nat)) + 1
    }
}

/// `v` holds exactly `count` NUL-terminated strings followed by one more NUL.
pub open spec fn cstr_vec_ok(v: Seq<u8>, count: nat) -> bool {
    &&& forall|i: nat| i < count ==> #[trigger] next_nul(v, cstr_start(v, i)) < v.len()
    &&& cstr_start(v, count) == v.len() - 1
    &&& v[v.len() - 1] == 0
}

proof fn lemma_next_nul(v: Seq<u8>, j: int)
    requires
        0 <= j,
    ensures
        j <= next_nul(v, j) <= v.len() || (j > v.len() && next_nul(v, j) == v.len()),
        next_nul(v, j) < v.len() ==> v[next_nul(v, j)] == 0,
        forall|k: int| j <= k < next_nul(v, j) && k < v.len() ==> v[k] != 0,
    decreases v.len() - j,
{
    if j < v.len() && v[j] != 0 {
        lemma_next_nul(v, j + 1);
    }
}

proof fn lemma_starts_increase(v: Seq<u8>, i: nat, count: nat)
    requires
        i < count,
        forall|k: nat| k < count ==> #[trigger] next_nul(v, cstr_start(v, k)) < v.len(),
    ensures
        0 <= cstr_start(v, i) < cstr_start(v, i + 1),
        cstr_start(v, i + 1) <= v.len(),
    decreases i,
{
    if i > 0 {
        lemma_starts_increase(v, (i - 1) as nat, count);
    }
    lemma_next_nul(v, cstr_start(v, i));
    assert(next_nul(v, cstr_start(v, i)) < v.len());
}

/// Fill `pointers` with the address of each of the `count` strings in `cstr_vec`, which
/// is stored at address `base`, followed by a null pointer.
pub fn cstr_vec_pointers(cstr_vec: &[u8], base: usize, count: usize, pointers: &mut [usize])
    requires
        cstr_vec_ok(cstr_vec@, count as nat),
        old(pointers)@.len() == count + 1,
        base + cstr_vec@.len() <= usize::MAX,
    ensures
        final(pointers)@.len() == count + 1,
        forall|i: int| 0 <= i < count ==> final(pointers)@[i] == base + cstr_start(cstr_vec@, i as nat),
        final(pointers)@[count as int] == 0,
{
    let mut offset: usize = 0;
    let mut idx: usize = 0;
    while idx < count
        invariant
            cstr_vec_ok(cstr_vec@, count as nat),
            base + cstr_vec@.len() <= usize::MAX,
            pointers@.len() == count + 1,
            idx <= count,
            offset == cstr_start(cstr_vec@, idx as nat),
            offset < cstr_vec@.len(),
            forall|i: int| 0 <= i < idx ==> pointers@[i] == base + cstr_start(cstr_vec@, i as nat),
        decreases count - idx,
    {
        proof {
            lemma_starts_increase(cstr_vec@, idx as nat, count as nat);
            lemma_next_nul(cstr_vec@, offset as int);
        }
        pointers[idx] = base + offset;
        while cstr_vec[offset] != 0
            invariant
                cstr_vec_ok(cstr_vec@, count as nat),
                idx < count,
                cstr_start(cstr_vec@, idx as nat) <= offset <= next_nul(cstr_vec@, cstr_start(cstr_vec@, idx as nat)),
                next_nul(cstr_vec@, cstr_start(cstr_vec@, idx as nat)) < cstr_vec@.len(),
                next_nul(cstr_vec@, offset as int) == next_nul(cstr_vec@, cstr_start(cstr_vec@, idx as nat)),
            decreases cstr_vec@.len() - offset,
        {
            proof {
                lemma_next_nul(cstr_vec@, offset as int);
            }
            offset = offset + 1;
        }
        offset = offset + 1;
        idx = idx + 1;
        proof {
            if idx < count {
                lemma_starts_increase(cstr_vec@, idx as nat, count as nat);
            }
        }
    }
    pointers[count] = 0;
}

/// The size of an `InitArgsHeader` in the args file: its six words, each 8 bytes.
pub const INIT_ARGS_HEADER_LEN: usize = 48;

/// The header as it lies in memory on x86-64, where the file gets it from: its fields in
/// order, each a little-endian 64-bit word.
pub open spec fn header_bytes(h: InitArgsHeader) -> Seq<u8> {
    spec_u64_to_le_bytes(h.dir_len as u64) + spec_u64_to_le_bytes(h.filename_len as u64)
        + spec_u64_to_le_bytes(h.argv_len as u64) + spec_u64_to_le_bytes(h.arg_count as u64)
        + spec_u64_to_le_bytes(h.envp_len as u64) + spec_u64_to_le_bytes(h.env_count as u64)
}

/// The word at index `k` of a header's bytes.
pub open spec fn header_word(bytes: Seq<u8>, k: int) -> usize {
    spec_u64_from_le_bytes(bytes.subrange(8 * k, 8 * k + 8)) as usize
}

/// The header that a run of `INIT_ARGS_HEADER_LEN` bytes holds.
pub open spec fn header_from_bytes(bytes: Seq<u8>) -> InitArgsHeader {
    InitArgsHeader {
        dir_len: header_word(bytes, 0),
        filename_len: header_word(bytes, 1),
        argv_len: header_word(bytes, 2),
        arg_count: header_word(bytes, 3),
        envp_len: header_word(bytes, 4),
        env_count: header_word(bytes, 5),
    }
}

/// The bytes of the working directory, file name, arguments and environment that follow
/// the header, together.
pub open spec fn body_len(h: InitArgsHeader) -> int {
    h.dir_len + h.filename_len + h.argv_len + h.envp_len
}

fn push_word(v: &mut Vec<u8>, w: u64)
    ensures
        final(v)@ == old(v)@ + spec_u64_to_le_bytes(w),
{
    proof {
        lemma_auto_spec_u64_to_from_le_bytes();
    }
    let b = u64_to_le_bytes(w);
    let mut i: usize = 0;
    while i < 8
        invariant
            b@ == spec_u64_to_le_bytes(w),
            b@.len() == 8,
            i <= 8,
            v@ == old(v)@ + b@.take(i as int),
        decreases 8 - i,
    {
        v.push(b[i]);
        assert(b@.take(i + 1) =~= b@.take(i as int).push(b@[i as int]));
        i = i + 1;
    }
    assert(b@.take(8) =~= b@);
}

fn word_at(bytes: &[u8], k: usize) -> (r: usize)
    requires
        bytes@.len() == INIT_ARGS_HEADER_LEN,
        k < 6,
    ensures
        r == header_word(bytes@, k as int),
{
    let w = u64_from_le_bytes(vstd::slice::slice_subrange(bytes, 8 * k, 8 * k + 8));
    w as usize
}

impl InitArgsHeader {
    /// The bytes of the header as they are written to the args file.
    pub fn as_bytes(&self) -> (r: Vec<u8>)
        ensures
            r@ == header_bytes(*self),
            r@.len() == INIT_ARGS_HEADER_LEN,
    {
        proof {
            lemma_auto_spec_u64_to_from_le_bytes();
        }
        let mut v: Vec<u8> = Vec::new();
        push_word(&mut v, self.dir_len as u64);
        push_word(&mut v, self.filename_len as u64);
        push_word(&mut v, self.argv_len as u64);
        push_word(&mut v, self.arg_count as u64);
        push_word(&mut v, self.envp_len as u64);
        push_word(&mut v, self.env_count as u64);
        assert(v@ =~= header_bytes(*self));
        v
    }

    /// The header that the first bytes of the args file hold.
    pub fn from_bytes(bytes: &[u8]) -> (r: InitArgsHeader)
        requires
            bytes@.len() == INIT_ARGS_HEADER_LEN,
        ensures
            r == header_from_bytes(bytes@),
    {
        InitArgsHeader {
            dir_len: word_at(bytes, 0),
            filename_len: word_at(bytes, 1),
            argv_len: word_at(bytes, 2),
            arg_count: word_at(bytes, 3),
            envp_len: word_at(bytes, 4),
            env_count: word_at(bytes, 5),
        }
    }

    /// How many bytes follow the header; `None` where the total overflows.
    pub fn body_len(&self) -> (r: Option<usize>)
        ensures
            body_len(*self) <= usize::MAX ==> r == Some(body_len(*self) as usize),
            body_len(*self) > usize::MAX ==> r is None,
    {
        let a = self.dir_len.checked_add(self.filename_len)?;
        let b = a.checked_add(self.argv_len)?;
        b.checked_add(self.envp_len)
    }

    /// The slots of the two pointer arrays together, each with its closing null pointer;
    /// `None` where the total overflows.
    pub fn pointer_slots(&self) -> (r: Option<usize>)
        ensures
            self.arg_count + self.env_count + 2 <= usize::MAX ==> r == Some(
                (self.arg_count + self.env_count + 2) as usize,
            ),
            self.arg_count + self.env_count + 2 > usize::MAX ==> r is None,
    {
        let a = self.arg_count.checked_add(1)?;
        let b = a.checked_add(self.env_count)?;
        b.checked_add(1)
    }

    /// Cut the body that follows the header into the working directory, the file name,
    /// the arguments and the environment.
    pub fn split_body<'a>(&self, body: &'a [u8]) -> (r: (&'a [u8], &'a [u8], &'a [u8], &'a [u8]))
        requires
            body@.len() == body_len(*self),
        ensures
            r.0@ == body@.subrange(0, self.dir_len as int),
            r.1@ == body@.subrange(self.dir_len as int, self.dir_len + self.filename_len),
            r.2@ == body@.subrange(
                self.dir_len + self.filename_len,
                self.dir_len + self.filename_len + self.argv_len,
            ),
            r.3@ == body@.subrange(
                self.dir_len + self.filename_len + self.argv_len,
                body@.len() as int,
            ),
    {
        let n = body.len();
        let a = self.dir_len;
        let b = a + self.filename_len;
        let c = b + self.argv_len;
        (
            vstd::slice::slice_subrange(body, 0, a),
            vstd::slice::slice_subrange(body, a, b),
            vstd::slice::slice_subrange(body, b, c),
            vstd::slice::slice_subrange(body, c, n),
        )
    }
}

/// Reading back the bytes of a header gives the header.
pub proof fn lemma_header_bytes_roundtrip(h: InitArgsHeader)
    ensures
        header_bytes(h).len() == INIT_ARGS_HEADER_LEN,
        header_from_bytes(header_bytes(h)) == h,
{
    lemma_auto_spec_u64_to_from_le_bytes();
    let b = header_bytes(h);
    let w0 = spec_u64_to_le_bytes(h.dir_len as u64);
    let w1 = spec_u64_to_le_bytes(h.filename_len as u64);
    let w2 = spec_u64_to_le_bytes(h.argv_len as u64);
    let w3 = spec_u64_to_le_bytes(h.arg_count as u64);
    let w4 = spec_u64_to_le_bytes(h.envp_len as u64);
    let w5 = spec_u64_to_le_bytes(h.env_count as u64);
    assert(b.subrange(0, 8) =~= w0);
    assert(b.subrange(8, 16) =~= w1);
    assert(b.subrange(16, 24) =~= w2);
    assert(b.subrange(24, 32) =~= w3);
    assert(b.subrange(32, 40) =~= w4);
    assert(b.subrange(40, 48) =~= w5);
}

} // verus!
