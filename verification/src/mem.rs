//! Pointers and pages in a traced process's address space, and memory ranges that map file data.
use vstd::prelude::*;
use core::ops::Range;
use crate::abi;
pub use crate::protocol::VPtr;

verus! {

/// Offset of `value` within its page.
pub fn page_offset(value: usize) -> (r: usize)
    ensures
        r == value % 4096,
{
    abi::page_offset(value)
}

pub open spec fn is_page_aligned(value: usize) -> bool {
    value % 4096 == 0
}

/// The largest page-aligned address that is not above `value`.
pub open spec fn spec_round_down(value: usize) -> usize {
    (value - value % 4096) as usize
}

/// The smallest page-aligned address that is not below `value`, where there is one.
pub open spec fn spec_round_up(value: usize) -> usize {
    if value % 4096 == 0 {
        value
    } else {
        (spec_round_down(value) + 4096) as usize
    }
}

/// A pointer to the beginning of a page in process address space.
#[derive(PartialEq, Eq, Structural, Copy, Clone, Debug)]
pub struct VPage(VPtr);

impl VPage {
    #[verifier::type_invariant]
    spec fn aligned(self) -> bool {
        is_page_aligned(self.0.0)
    }

    /// The address of the page.
    pub closed spec fn addr(self) -> usize {
        self.0.0
    }

    pub fn null() -> (r: VPage)
        ensures
            r.addr() == 0,
    {
        VPage(VPtr(0))
    }

    /// The highest page of the address space.
    pub fn max() -> (r: VPage)
        ensures
            r.addr() == spec_round_down(usize::MAX),
    {
        VPage::round_down(VPtr(usize::MAX))
    }

    pub fn offset(ptr: VPtr) -> (r: usize)
        ensures
            r == ptr.0 % 4096,
    {
        page_offset(ptr.0)
    }

    pub fn ptr(&self) -> (r: VPtr)
        ensures
            r.0 == self.addr(),
            is_page_aligned(r.0),
    {
        proof {
            use_type_invariant(self);
        }
        self.0
    }

    pub fn round_down(ptr: VPtr) -> (r: VPage)
        ensures
            r.addr() == spec_round_down(ptr.0),
            r.addr() <= ptr.0 < r.addr() + 4096,
    {
        let off = abi::page_offset(ptr.0);
        let r = VPage(VPtr(ptr.0 - off));
        r
    }

    /// The lowest page-aligned address not below `ptr`.
    pub fn round_up(ptr: VPtr) -> (r: VPage)
        requires
            ptr.0 % 4096 == 0 || spec_round_down(ptr.0) + 4096 <= usize::MAX,
        ensures
            r.addr() == spec_round_up(ptr.0),
            ptr.0 <= r.addr() < ptr.0 + 4096,
            ptr.0 % 4096 == 0 ==> r.addr() == ptr.0,
    {
        if 0 == VPage::offset(ptr) {
            VPage(ptr)
        } else {
            let down = VPage::round_down(ptr);
            VPage(VPtr(down.0.0 + abi::PAGE_SIZE))
        }
    }

    /// The page `count` pages below this one.
    pub fn sub_pages(&self, count: usize) -> (r: VPage)
        requires
            count * 4096 <= self.addr(),
        ensures
            r.addr() == self.addr() - count * 4096,
    {
        proof {
            use_type_invariant(self);
        }
        let a = self.0.0;
        assert((a - count * 4096) % 4096 == 0) by (nonlinear_arith)
            requires
                a % 4096 == 0,
                count * 4096 <= a,
        ;
        VPage(VPtr(a - count * 4096))
    }

    /// The page `count` pages above this one.
    pub fn add_pages(&self, count: usize) -> (r: VPage)
        requires
            self.addr() + count * 4096 <= usize::MAX,
        ensures
            r.addr() == self.addr() + count * 4096,
    {
        proof {
            use_type_invariant(self);
        }
        let a = self.0.0;
        assert((a + count * 4096) % 4096 == 0) by (nonlinear_arith)
            requires
                a % 4096 == 0,
        ;
        VPage(VPtr(a + count * 4096))
    }

    /// The pages that cover all of `range`.
    pub fn round_out(range: &Range<VPtr>) -> (r: Range<VPage>)
        requires
            range.end.0 % 4096 == 0 || spec_round_down(range.end.0) + 4096 <= usize::MAX,
        ensures
            r.start.addr() == spec_round_down(range.start.0),
            range.end.0 <= r.end.addr() < range.end.0 + 4096,
            range.end.0 % 4096 == 0 ==> r.end.addr() == range.end.0,
    {
        VPage::round_down(range.start)..VPage::round_up(range.end)
    }

    /// The page that starts at `ptr`, if `ptr` is page-aligned.
    pub fn parse(ptr: VPtr) -> (r: Result<VPage, ()>)
        ensures
            r is Ok <==> ptr.0 % 4096 == 0,
            r matches Ok(p) ==> p.addr() == ptr.0,
    {
        if 0 == VPage::offset(ptr) {
            Ok(VPage(ptr))
        } else {
            Err(())
        }
    }

    /// The page range with exactly the bounds of `range`, if both are page-aligned.
    pub fn parse_range(range: &Range<VPtr>) -> (r: Result<Range<VPage>, ()>)
        ensures
            r is Ok <==> (range.start.0 % 4096 == 0 && range.end.0 % 4096 == 0),
            r matches Ok(p) ==> p.start.addr() == range.start.0 && p.end.addr() == range.end.0,
    {
        let start = VPage::parse(range.start)?;
        let end = VPage::parse(range.end)?;
        Ok(start..end)
    }
}

/// A range of virtual address space that corresponds to file data.
#[derive(Debug)]
pub struct MappedRange {
    pub mem: Range<VPtr>,
    pub file_start: usize,
}

/// A `MappedRange` that must be page-aligned.
#[derive(Debug)]
pub struct MappedPages {
    mem: Range<VPage>,
    file_start: usize,
}

impl MappedPages {
    pub closed spec fn start_addr(&self) -> usize {
        self.mem.start.addr()
    }

    pub closed spec fn end_addr(&self) -> usize {
        self.mem.end.addr()
    }

    pub closed spec fn file_offset(&self) -> usize {
        self.file_start
    }

    pub fn mapped_range(&self) -> (r: MappedRange)
        ensures
            r.mem.start.0 == self.start_addr(),
            r.mem.end.0 == self.end_addr(),
            r.file_start == self.file_offset(),
    {
        MappedRange { mem: self.mem_range(), file_start: self.file_start }
    }

    pub fn mem_pages(&self) -> (r: Range<VPage>)
        ensures
            r.start.addr() == self.start_addr(),
            r.end.addr() == self.end_addr(),
    {
        self.mem.start..self.mem.end
    }

    pub fn mem_range(&self) -> (r: Range<VPtr>)
        ensures
            r.start.0 == self.start_addr(),
            r.end.0 == self.end_addr(),
    {
        self.mem.start.ptr()..self.mem.end.ptr()
    }

    pub fn file_start(&self) -> (r: usize)
        ensures
            r == self.file_offset(),
    {
        self.file_start
    }

    /// The page-aligned mapping that covers `range`: the memory range rounded out to
    /// whole pages, with the file offset moved back by as much as the start moved.
    pub fn round_out(range: &MappedRange) -> (r: MappedPages)
        requires
            range.mem.end.0 % 4096 == 0 || spec_round_down(range.mem.end.0) + 4096 <= usize::MAX,
            range.file_start >= range.mem.start.0 % 4096,
        ensures
            r.start_addr() == spec_round_down(range.mem.start.0),
            range.mem.end.0 <= r.end_addr() < range.mem.end.0 + 4096,
            r.file_offset() == range.file_start - range.mem.start.0 % 4096,
    {
        let mem = VPage::round_out(&range.mem);
        let start_offset = range.mem.start.0 - mem.start.ptr().0;
        let file_start = range.file_start - start_offset;
        MappedPages { mem, file_start }
    }

    pub fn anonymous(mem: Range<VPage>) -> (r: MappedPages)
        ensures
            r.start_addr() == mem.start.addr(),
            r.end_addr() == mem.end.addr(),
            r.file_offset() == 0,
    {
        MappedPages { mem, file_start: 0 }
    }

    pub fn is_empty(&self) -> (r: bool)
        ensures
            r == !(self.start_addr() < self.end_addr()),
    {
        !(self.mem.start.0.0 < self.mem.end.0.0)
    }

    /// Whether two non-empty mappings share at least one page.
    pub fn is_overlap(&self, other: &Self) -> (r: bool)
        ensures
            r == (self.start_addr() < self.end_addr() && other.start_addr() < other.end_addr()
                && self.start_addr() < other.end_addr() && other.start_addr() < self.end_addr()),
    {
        if self.is_empty() || other.is_empty() {
            false
        } else {
            let self_end = self.mem.end.0.0;
            let other_end = other.mem.end.0.0;
            let min_end = if self_end < other_end { self_end } else { other_end };
            let self_start = self.mem.start.0.0;
            let other_start = other.mem.start.0.0;
            let max_start = if self_start < other_start { other_start } else { self_start };
            max_start < min_end
        }
    }

    /// The page-aligned form of `range`, if its addresses and file offset are all page-aligned.
    pub fn parse(range: &MappedRange) -> (r: Result<MappedPages, ()>)
        ensures
            r is Ok <==> (range.file_start % 4096 == 0 && range.mem.start.0 % 4096 == 0
                && range.mem.end.0 % 4096 == 0),
            r matches Ok(p) ==> p.start_addr() == range.mem.start.0 && p.end_addr()
                == range.mem.end.0 && p.file_offset() == range.file_start,
    {
        let file_start = range.file_start;
        if 0 == page_offset(file_start) {
            let mem = VPage::parse_range(&range.mem)?;
            Ok(MappedPages { mem, file_start })
        } else {
            Err(())
        }
    }
}

/// Access permissions of a memory mapping.
#[derive(PartialEq, Eq, Structural, Copy, Clone, Debug)]
pub struct MemProtect {
    pub read: bool,
    pub write: bool,
    pub execute: bool,
}

/// `flags` carries exactly the permissions of `p`: `PROT_READ` when it may be read,
/// `PROT_WRITE` when written, `PROT_EXEC` when executed, and no other bit.
pub open spec fn prot_bits_match(flags: isize, p: MemProtect) -> bool {
    &&& (flags & abi::PROT_READ != 0) == p.read
    &&& (flags & abi::PROT_WRITE != 0) == p.write
    &&& (flags & abi::PROT_EXEC != 0) == p.execute
    &&& 0 <= flags < 8
}

/// The `PROT_*` flags of a set of permissions hold each permission's bit exactly when
/// that permission is granted.
pub proof fn lemma_prot_flags_bits(p: MemProtect)
    ensures
        prot_bits_match(p.spec_prot_flags(), p),
{
    let r: isize = if p.read { 1 } else { 0 };
    let w: isize = if p.write { 2 } else { 0 };
    let x: isize = if p.execute { 4 } else { 0 };
    let f = p.spec_prot_flags();
    assert(f == r + w + x);
    assert(f & 1 != 0 <==> r == 1) by (bit_vector)
        requires
            f == r + w + x,
            r == 0 || r == 1,
            w == 0 || w == 2,
            x == 0 || x == 4,
    ;
    assert(f & 2 != 0 <==> w == 2) by (bit_vector)
        requires
            f == r + w + x,
            r == 0 || r == 1,
            w == 0 || w == 2,
            x == 0 || x == 4,
    ;
    assert(f & 4 != 0 <==> x == 4) by (bit_vector)
        requires
            f == r + w + x,
            r == 0 || r == 1,
            w == 0 || w == 2,
            x == 0 || x == 4,
    ;
}

impl MemProtect {
    /// The `PROT_*` bits of these permissions.
    pub open spec fn spec_prot_flags(&self) -> isize {
        ((if self.read { abi::PROT_READ } else { 0 }) + (if self.write {
            abi::PROT_WRITE
        } else {
            0
        }) + (if self.execute { abi::PROT_EXEC } else { 0 })) as isize
    }

    /// The `PROT_*` bits for `mmap` and `mprotect`.
    pub fn prot_flags(&self) -> (r: isize)
        ensures
            r == self.spec_prot_flags(),
            prot_bits_match(r, *self),
    {
        proof {
            lemma_prot_flags_bits(*self);
        }
        let r: isize = if self.read { abi::PROT_READ } else { 0 };
        let w: isize = if self.write { abi::PROT_WRITE } else { 0 };
        let x: isize = if self.execute { abi::PROT_EXEC } else { 0 };
        let result = r | w | x;
        assert(result == r + w + x) by (bit_vector)
            requires
                r == 0 || r == 1,
                w == 0 || w == 2,
                x == 0 || x == 4,
                result == r | w | x,
        ;
        result
    }
}

/// Permissions and sharing of a memory mapping.
#[derive(PartialEq, Eq, Structural, Copy, Clone, Debug)]
pub struct MemFlags {
    pub protect: MemProtect,
    pub mayshare: bool,
}

impl MemFlags {
    /// Read-only, private.
    pub fn ro() -> (r: MemFlags)
        ensures
            r == (MemFlags {
                protect: MemProtect { read: true, write: false, execute: false },
                mayshare: false,
            }),
    {
        MemFlags { protect: MemProtect { read: true, write: false, execute: false }, mayshare: false }
    }

    /// Readable and writable, private.
    pub fn rw() -> (r: MemFlags)
        ensures
            r == (MemFlags {
                protect: MemProtect { read: true, write: true, execute: false },
                mayshare: false,
            }),
    {
        MemFlags { protect: MemProtect { read: true, write: true, execute: false }, mayshare: false }
    }

    /// Readable and executable, private.
    pub fn exec() -> (r: MemFlags)
        ensures
            r == (MemFlags {
                protect: MemProtect { read: true, write: false, execute: true },
                mayshare: false,
            }),
    {
        MemFlags { protect: MemProtect { read: true, write: false, execute: true }, mayshare: false }
    }

    /// `MAP_SHARED` or `MAP_PRIVATE`, as the mapping is shared or not.
    pub open spec fn spec_map_flags(&self) -> isize {
        if self.mayshare { abi::MAP_SHARED } else { abi::MAP_PRIVATE }
    }

    /// The `MAP_SHARED` or `MAP_PRIVATE` flag for `mmap`.
    pub fn map_flags(&self) -> (r: isize)
        ensures
            r == self.spec_map_flags(),
    {
        if self.mayshare {
            abi::MAP_SHARED
        } else {
            abi::MAP_PRIVATE
        }
    }
}

/// A loadable piece of an executable: file data mapped at an address, followed by
/// `mem_size` more bytes of zero-filled memory.
#[derive(Debug)]
pub struct Segment {
    pub mapped_range: MappedRange,
    pub mem_size: usize,
    pub protect: MemProtect,
}

impl Segment {
    /// All the memory the segment occupies, file data and zero fill.
    pub fn mem_range(&self) -> (r: Range<VPtr>)
        requires
            self.mapped_range.mem.end.0 + self.mem_size <= usize::MAX,
        ensures
            r.start == self.mapped_range.mem.start,
            r.end.0 == self.mapped_range.mem.end.0 + self.mem_size,
    {
        self.mapped_range.mem.start..self.mapped_range.mem.end.add(self.mem_size)
    }

    /// The pages that cover all the memory of the segment.
    pub fn mem_pages(&self) -> (r: Range<VPage>)
        requires
            self.mapped_range.mem.end.0 + self.mem_size + 4096 <= usize::MAX,
        ensures
            r.start.addr() == spec_round_down(self.mapped_range.mem.start.0),
            self.mapped_range.mem.end.0 + self.mem_size <= r.end.addr() < self.mapped_range.mem.end.0
                + self.mem_size + 4096,
    {
        let range = self.mem_range();
        proof {
            let e = range.end.0;
            assert(e % 4096 == 0 || spec_round_down(e) + 4096 <= usize::MAX);
        }
        VPage::round_out(&range)
    }

    /// The page-aligned mapping of the file data.
    pub fn mapped_pages(&self) -> (r: MappedPages)
        requires
            self.mapped_range.mem.end.0 + 4096 <= usize::MAX,
            self.mapped_range.file_start >= self.mapped_range.mem.start.0 % 4096,
        ensures
            r.start_addr() == spec_round_down(self.mapped_range.mem.start.0),
            self.mapped_range.mem.end.0 <= r.end_addr() < self.mapped_range.mem.end.0 + 4096,
            r.file_offset() == self.mapped_range.file_start - self.mapped_range.mem.start.0 % 4096,
    {
        MappedPages::round_out(&self.mapped_range)
    }

    /// The same segment moved so that its file data starts at `addr`.
    pub fn set_range_start(self, addr: VPtr) -> (r: Self)
        requires
            self.mapped_range.mem.start.0 <= self.mapped_range.mem.end.0,
            addr.0 + (self.mapped_range.mem.end.0 - self.mapped_range.mem.start.0) <= usize::MAX,
        ensures
            r.mapped_range.mem.start == addr,
            r.mapped_range.mem.end.0 == addr.0 + (self.mapped_range.mem.end.0
                - self.mapped_range.mem.start.0),
            r.mapped_range.file_start == self.mapped_range.file_start,
            r.mem_size == self.mem_size,
            r.protect == self.protect,
    {
        let mapped_len = self.mapped_range.mem.end.0 - self.mapped_range.mem.start.0;
        let mut seg = self;
        seg.mapped_range.mem.start = addr;
        seg.mapped_range.mem.end = addr.add(mapped_len);
        seg
    }

    /// The same segment moved to the page `addr`, keeping its offset within the page.
    pub fn set_page_start(self, addr: VPage) -> (r: Self)
        requires
            self.mapped_range.mem.start.0 <= self.mapped_range.mem.end.0,
            addr.addr() + 4096 + (self.mapped_range.mem.end.0 - self.mapped_range.mem.start.0)
                <= usize::MAX,
        ensures
            r.mapped_range.mem.start.0 == addr.addr() + self.mapped_range.mem.start.0 % 4096,
            r.mapped_range.mem.end.0 == r.mapped_range.mem.start.0 + (self.mapped_range.mem.end.0
                - self.mapped_range.mem.start.0),
            r.mapped_range.file_start == self.mapped_range.file_start,
            r.mem_size == self.mem_size,
            r.protect == self.protect,
    {
        let offset = VPage::offset(self.mapped_range.mem.start);
        let start = addr.ptr().add(offset);
        self.set_range_start(start)
    }

    /// The same segment moved up by `offset` bytes.
    pub fn offset(self, offset: usize) -> (r: Self)
        requires
            self.mapped_range.mem.start.0 <= self.mapped_range.mem.end.0,
            self.mapped_range.mem.end.0 + offset <= usize::MAX,
        ensures
            r.mapped_range.mem.start.0 == self.mapped_range.mem.start.0 + offset,
            r.mapped_range.mem.end.0 == self.mapped_range.mem.end.0 + offset,
            r.mapped_range.file_start == self.mapped_range.file_start,
            r.mem_size == self.mem_size,
            r.protect == self.protect,
    {
        let start = self.mapped_range.mem.start.add(offset);
        self.set_range_start(start)
    }
}

} // verus!
