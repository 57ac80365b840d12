//! Building the initial stack of a new program. The stack is assembled in a sparse
//! file: growing down from `BUILDER_SIZE_LIMIT` is the stack itself, laid out exactly
//! as it will sit below `top` in memory, and growing up from there is a scratch area
//! where pointer vectors are stored until they can be pushed. This module keeps the
//! addresses and file offsets; the loader copies the bytes.
use vstd::prelude::*;
use core::ops::Range;
use crate::abi;
use crate::mem::{VPage, spec_round_down};
use crate::protocol::{Errno, VPtr};

verus! {

/// The most the stack may grow to while it is built.
pub const BUILDER_SIZE_LIMIT: usize = 268435456;

/// Room left below the initial stack pointer in the first mapping.
pub const INITIAL_STACK_FREE: usize = 65536;

/// The initial stack as it is mapped: the stack pointer, and the pages from a little
/// below it up to the top.
#[derive(Debug)]
pub struct InitialStack {
    pub sp: VPtr,
    pub pages: Range<VPage>,
}

/// Where an initial stack is being built.
#[derive(Debug)]
pub struct StackBuilder {
    top: VPage,
    bottom: VPtr,
    num_stored_vectors: usize,
}

impl StackBuilder {
    /// The page just above the stack.
    pub closed spec fn top(&self) -> usize {
        self.top.addr()
    }

    /// The lowest address pushed so far.
    pub closed spec fn bottom(&self) -> usize {
        self.bottom.0
    }

    /// How many words wait in the scratch area.
    pub closed spec fn stored(&self) -> nat {
        self.num_stored_vectors as nat
    }

    /// The stack grows down from its top.
    pub open spec fn wf(&self) -> bool {
        self.bottom() <= self.top()
    }

    /// Start an empty stack below `task_end`, lowered by a random number of pages:
    /// `random` chooses up to `STACK_RND_MASK` of them.
    pub fn new(task_end: VPage, random: usize) -> (r: Self)
        requires
            (random & abi::STACK_RND_MASK) * 4096 <= task_end.addr(),
        ensures
            r.wf(),
            r.top() == task_end.addr() - (random & abi::STACK_RND_MASK) * 4096,
            r.bottom() == r.top(),
            r.stored() == 0,
    {
        let pages = random & abi::STACK_RND_MASK;
        let top = task_end.sub_pages(pages);
        StackBuilder { top, bottom: top.ptr(), num_stored_vectors: 0 }
    }

    /// Lower the bottom to a multiple of `alignment`, a power of two.
    pub fn align(&mut self, alignment: usize) -> (r: VPtr)
        requires
            old(self).wf(),
            alignment > 0,
            alignment & ((alignment - 1) as usize) == 0,
        ensures
            final(self).wf(),
            r.0 == old(self).bottom() & !((alignment - 1) as usize),
            final(self).bottom() == r.0,
            final(self).top() == old(self).top(),
            final(self).stored() == old(self).stored(),
    {
        let mask = alignment - 1;
        let b = self.bottom.0;
        let ptr = VPtr(b & !mask);
        assert(b & !mask <= b) by (bit_vector);
        self.bottom = ptr;
        ptr
    }

    /// The file offset that holds the stack byte at `ptr`.
    pub open spec fn offset_of(&self, ptr: usize) -> int {
        BUILDER_SIZE_LIMIT - (self.top() - ptr)
    }

    /// Make room for `length` bytes below the bottom, and return where they start.
    /// Fails with `E2BIG` where the stack would outgrow the limit.
    pub fn skip_bytes(&mut self, length: usize) -> (r: Result<VPtr, Errno>)
        requires
            old(self).wf(),
            length <= old(self).bottom(),
        ensures
            final(self).wf(),
            final(self).top() == old(self).top(),
            final(self).stored() == old(self).stored(),
            old(self).top() - (old(self).bottom() - length) <= BUILDER_SIZE_LIMIT ==> {
                &&& r == Ok::<VPtr, Errno>(VPtr((old(self).bottom() - length) as usize))
                &&& final(self).bottom() == old(self).bottom() - length
            },
            old(self).top() - (old(self).bottom() - length) > BUILDER_SIZE_LIMIT ==> {
                &&& r == Err::<VPtr, Errno>(Errno(-7i32))
                &&& final(self).bottom() == old(self).bottom()
            },
    {
        let ptr = VPtr(self.bottom.0 - length);
        let stack_size = self.top.ptr().0 - ptr.0;
        if stack_size > BUILDER_SIZE_LIMIT {
            return Err(Errno(-abi::E2BIG));
        }
        self.bottom = ptr;
        Ok(ptr)
    }

    /// The file offset of the stack byte at `ptr`, which was pushed.
    pub fn file_offset(&self, ptr: VPtr) -> (r: usize)
        requires
            ptr.0 <= self.top(),
            self.top() - ptr.0 <= BUILDER_SIZE_LIMIT,
        ensures
            r == self.offset_of(ptr.0),
    {
        BUILDER_SIZE_LIMIT - (self.top.ptr().0 - ptr.0)
    }

    pub fn stored_vector_count(&self) -> (r: usize)
        ensures
            r == self.stored(),
    {
        self.num_stored_vectors
    }

    /// The size of the words waiting in the scratch area.
    pub fn stored_vector_bytes(&self) -> (r: usize)
        requires
            self.stored() * 8 <= usize::MAX,
        ensures
            r == self.stored() * 8,
    {
        self.num_stored_vectors * 8
    }

    /// The file offset where the next stored words go: just past those already
    /// stored, above the stack.
    pub fn store_offset(&self) -> (r: usize)
        requires
            BUILDER_SIZE_LIMIT + self.stored() * 8 <= usize::MAX,
        ensures
            r == BUILDER_SIZE_LIMIT + self.stored() * 8,
    {
        BUILDER_SIZE_LIMIT + self.num_stored_vectors * 8
    }

    /// Count `count` more words as stored, once they were written.
    pub fn record_stored(&mut self, count: usize)
        requires
            old(self).stored() + count <= usize::MAX,
        ensures
            final(self).stored() == old(self).stored() + count,
            final(self).top() == old(self).top(),
            final(self).bottom() == old(self).bottom(),
    {
        self.num_stored_vectors = self.num_stored_vectors + count;
    }

    /// Where the stored words will go when pushed: the address below the bottom, its
    /// file offset, and their length. Fails with `E2BIG` where the stack would
    /// outgrow the limit.
    pub fn stored_vectors_target(&self) -> (r: Result<(VPtr, usize, usize), Errno>)
        requires
            self.wf(),
            self.stored() * 8 <= self.bottom(),
        ensures
            ({
                let ptr = self.bottom() - self.stored() * 8;
                &&& self.top() - ptr <= BUILDER_SIZE_LIMIT ==> r == Ok::<(VPtr, usize, usize), Errno>(
                    (VPtr(ptr as usize), self.offset_of(ptr as usize) as usize, (self.stored() * 8) as usize),
                )
                &&& self.top() - ptr > BUILDER_SIZE_LIMIT ==> r == Err::<(VPtr, usize, usize), Errno>(
                    Errno(-7i32),
                )
            }),
    {
        let length = self.num_stored_vectors * 8;
        let ptr = VPtr(self.bottom.0 - length);
        let stack_size = self.top.ptr().0 - ptr.0;
        if stack_size > BUILDER_SIZE_LIMIT {
            return Err(Errno(-abi::E2BIG));
        }
        let file_offset = BUILDER_SIZE_LIMIT - stack_size;
        Ok((ptr, file_offset, length))
    }

    /// The stored words were copied to `ptr`, below the bottom: it is the new bottom,
    /// and the scratch area is empty again.
    pub fn commit_stored_vectors(&mut self, ptr: VPtr)
        requires
            old(self).wf(),
            ptr.0 <= old(self).bottom(),
        ensures
            final(self).wf(),
            final(self).bottom() == ptr.0,
            final(self).stored() == 0,
            final(self).top() == old(self).top(),
    {
        self.bottom = ptr;
        self.num_stored_vectors = 0;
    }

    /// The stack as it will be mapped, with the size of what was built and the file
    /// offset it starts at: from `INITIAL_STACK_FREE` below the stack pointer, rounded
    /// down to a page, up to the top.
    pub fn initial_stack(&self) -> (r: (InitialStack, usize, usize))
        requires
            self.wf(),
            self.stored() == 0,
            self.top() - self.bottom() <= BUILDER_SIZE_LIMIT,
            INITIAL_STACK_FREE <= self.bottom(),
        ensures
            r.0.sp.0 == self.bottom(),
            r.0.pages.start.addr() == spec_round_down((self.bottom() - INITIAL_STACK_FREE) as usize),
            r.0.pages.end.addr() == self.top(),
            r.1 == self.top() - self.bottom(),
            r.2 == BUILDER_SIZE_LIMIT - (self.top() - self.bottom()),
    {
        let start = VPage::round_down(VPtr(self.bottom.0 - INITIAL_STACK_FREE));
        let stack = InitialStack { sp: self.bottom, pages: start..self.top };
        let stack_size = self.top.ptr().0 - self.bottom.0;
        let file_offset = BUILDER_SIZE_LIMIT - stack_size;
        (stack, stack_size, file_offset)
    }
}

} // verus!
