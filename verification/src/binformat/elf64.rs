//! 64-bit little-endian ELF executables.
use vstd::prelude::*;
use vstd::bytes::*;
use crate::abi;
use crate::binformat::FileHeader;
use crate::mem::{page_offset, MappedRange, MemProtect, Segment, VPage, VPtr};
use crate::protocol::{Errno, UserRegs};
use core::ops::Range;

verus! {

// ELF identification, as in elf.h
pub const ELFMAG: [u8; 4] = [0x7f, 0x45, 0x4c, 0x46];
pub const SELFMAG: usize = 4;
pub const EI_CLASS: usize = 4;
pub const EI_DATA: usize = 5;
pub const EI_VERSION: usize = 6;
pub const ELFCLASS64: u8 = 2;
pub const ELFDATA2LSB: u8 = 1;
pub const EV_CURRENT: u8 = 1;
pub const ET_EXEC: u16 = 2;
pub const ET_DYN: u16 = 3;

// Program header types and flags
pub const PT_LOAD: u32 = 1;
pub const PT_INTERP: u32 = 3;
pub const PF_X: u32 = 1;
pub const PF_W: u32 = 2;
pub const PF_R: u32 = 4;

/// The size of one program header entry.
pub const PROGRAM_HEADER_SIZE: usize = 56;

/// A little-endian `u16` at offset `at` of `b`.
pub open spec fn le16(b: Seq<u8>, at: int) -> u16 {
    spec_u16_from_le_bytes(b.subrange(at, at + 2))
}

pub open spec fn le32(b: Seq<u8>, at: int) -> u32 {
    spec_u32_from_le_bytes(b.subrange(at, at + 4))
}

pub open spec fn le64(b: Seq<u8>, at: int) -> u64 {
    spec_u64_from_le_bytes(b.subrange(at, at + 8))
}

/// The fields of the ELF64 file header that the loader reads.
#[derive(Debug, Clone, Copy, PartialEq, Eq, Structural)]
pub struct ElfHeader {
    pub e_type: u16,
    pub e_machine: u16,
    pub e_entry: u64,
    pub e_phoff: u64,
    pub e_phentsize: u16,
    pub e_phnum: u16,
}

/// The header fields at their offsets in the ELF64 file header.
pub open spec fn header_of(b: Seq<u8>) -> ElfHeader {
    ElfHeader {
        e_type: le16(b, 16),
        e_machine: le16(b, 18),
        e_entry: le64(b, 24),
        e_phoff: le64(b, 32),
        e_phentsize: le16(b, 54),
        e_phnum: le16(b, 56),
    }
}

/// Whether the header starts a 64-bit little-endian ELF executable or shared object.
pub open spec fn is_elf64(b: Seq<u8>) -> bool {
    &&& b.subrange(0, 4) == ELFMAG@
    &&& (le16(b, 16) == ET_EXEC || le16(b, 16) == ET_DYN)
    &&& b[4] == ELFCLASS64
    &&& b[5] == ELFDATA2LSB
    &&& b[6] == EV_CURRENT
}

fn read_u16(b: &[u8; 256], at: usize) -> (r: u16)
    requires
        at + 2 <= 256,
    ensures
        r == le16(b@, at as int),
{
    let s = vstd::slice::slice_subrange(vstd::array::array_as_slice(b), at, at + 2);
    u16_from_le_bytes(s)
}

fn read_u64(b: &[u8; 256], at: usize) -> (r: u64)
    requires
        at + 8 <= 256,
    ensures
        r == le64(b@, at as int),
{
    let s = vstd::slice::slice_subrange(vstd::array::array_as_slice(b), at, at + 8);
    u64_from_le_bytes(s)
}

pub fn elf_header(header: &FileHeader) -> (r: ElfHeader)
    ensures
        r == header_of(header.bytes@),
{
    ElfHeader {
        e_type: read_u16(&header.bytes, 16),
        e_machine: read_u16(&header.bytes, 18),
        e_entry: read_u64(&header.bytes, 24),
        e_phoff: read_u64(&header.bytes, 32),
        e_phentsize: read_u16(&header.bytes, 54),
        e_phnum: read_u16(&header.bytes, 56),
    }
}

pub fn detect(fh: &FileHeader) -> (r: bool)
    ensures
        r == is_elf64(fh.bytes@),
{
    let e_type = read_u16(&fh.bytes, 16);
    let magic_ok = fh.bytes[0] == ELFMAG[0] && fh.bytes[1] == ELFMAG[1] && fh.bytes[2] == ELFMAG[2]
        && fh.bytes[3] == ELFMAG[3];
    proof {
        if magic_ok {
            assert(fh.bytes@.subrange(0, 4) =~= ELFMAG@);
        }
        if fh.bytes@.subrange(0, 4) == ELFMAG@ {
            assert(fh.bytes@.subrange(0, 4)[0] == fh.bytes@[0]);
            assert(fh.bytes@.subrange(0, 4)[1] == fh.bytes@[1]);
            assert(fh.bytes@.subrange(0, 4)[2] == fh.bytes@[2]);
            assert(fh.bytes@.subrange(0, 4)[3] == fh.bytes@[3]);
        }
    }
    magic_ok && (e_type == ET_EXEC || e_type == ET_DYN) && fh.bytes[EI_CLASS] == ELFCLASS64
        && fh.bytes[EI_DATA] == ELFDATA2LSB && fh.bytes[EI_VERSION] == EV_CURRENT
}

/// One entry of the program header table.
#[derive(Debug, Clone, Copy, PartialEq, Eq, Structural)]
pub struct ProgramHeader {
    pub p_type: u32,
    pub p_flags: u32,
    pub p_offset: u64,
    pub p_vaddr: u64,
    pub p_paddr: u64,
    pub p_filesz: u64,
    pub p_memsz: u64,
    pub p_align: u64,
}

/// The program header entry stored in `b`, as laid out in the file.
pub open spec fn program_header_of(b: Seq<u8>) -> ProgramHeader {
    ProgramHeader {
        p_type: le32(b, 0),
        p_flags: le32(b, 4),
        p_offset: le64(b, 8),
        p_vaddr: le64(b, 16),
        p_paddr: le64(b, 24),
        p_filesz: le64(b, 32),
        p_memsz: le64(b, 40),
        p_align: le64(b, 48),
    }
}

impl ProgramHeader {
    /// Decode an entry of the program header table.
    pub fn parse(b: &[u8]) -> (r: Self)
        requires
            b@.len() == PROGRAM_HEADER_SIZE,
        ensures
            r == program_header_of(b@),
    {
        ProgramHeader {
            p_type: u32_from_le_bytes(vstd::slice::slice_subrange(b, 0, 4)),
            p_flags: u32_from_le_bytes(vstd::slice::slice_subrange(b, 4, 8)),
            p_offset: u64_from_le_bytes(vstd::slice::slice_subrange(b, 8, 16)),
            p_vaddr: u64_from_le_bytes(vstd::slice::slice_subrange(b, 16, 24)),
            p_paddr: u64_from_le_bytes(vstd::slice::slice_subrange(b, 24, 32)),
            p_filesz: u64_from_le_bytes(vstd::slice::slice_subrange(b, 32, 40)),
            p_memsz: u64_from_le_bytes(vstd::slice::slice_subrange(b, 40, 48)),
            p_align: u64_from_le_bytes(vstd::slice::slice_subrange(b, 48, 56)),
        }
    }
}

/// The segment that a `PT_LOAD` or `PT_INTERP` entry describes. The file offset and the
/// address must agree within the page.
pub fn elf_segment(header: &ProgramHeader) -> (r: Result<Segment, Errno>)
    requires
        header.p_vaddr + header.p_filesz <= usize::MAX,
        header.p_offset <= usize::MAX,
        header.p_memsz <= usize::MAX,
    ensures
        r is Err <==> header.p_offset % 4096 != header.p_vaddr % 4096,
        r is Err ==> (r matches Err(e) && e.0 == -abi::EINVAL),
        r matches Ok(seg) ==> {
            &&& seg.mapped_range.mem.start.0 == header.p_vaddr
            &&& seg.mapped_range.mem.end.0 == header.p_vaddr + header.p_filesz
            &&& seg.mapped_range.file_start == header.p_offset
            &&& seg.mem_size == (if header.p_memsz > header.p_filesz {
                header.p_memsz - header.p_filesz
            } else {
                0
            })
            &&& seg.protect.read == (header.p_flags & PF_R != 0)
            &&& seg.protect.write == (header.p_flags & PF_W != 0)
            &&& seg.protect.execute == (header.p_flags & PF_X != 0)
        },
{
    let vaddr = VPtr(header.p_vaddr as usize);
    let file_start = header.p_offset as usize;
    if page_offset(file_start) != VPage::offset(vaddr) {
        return Err(Errno(-abi::EINVAL));
    }
    let memsz = if header.p_memsz > header.p_filesz {
        header.p_memsz
    } else {
        header.p_filesz
    };
    Ok(
        Segment {
            mapped_range: MappedRange {
                file_start,
                mem: vaddr..vaddr.add(header.p_filesz as usize),
            },
            mem_size: (memsz - header.p_filesz) as usize,
            protect: MemProtect {
                read: 0 != (header.p_flags & PF_R),
                write: 0 != (header.p_flags & PF_W),
                execute: 0 != (header.p_flags & PF_X),
            },
        },
    )
}

/// The index of the first program header of type `t`.
pub open spec fn first_of_type(phdrs: Seq<ProgramHeader>, t: u32) -> Option<int>
    decreases phdrs.len(),
{
    if phdrs.len() == 0 {
        None
    } else if phdrs.last().p_type == t && first_of_type(phdrs.drop_last(), t) is None {
        Some(phdrs.len() - 1)
    } else {
        first_of_type(phdrs.drop_last(), t)
    }
}

proof fn lemma_first_of_type(phdrs: Seq<ProgramHeader>, t: u32)
    ensures
        first_of_type(phdrs, t) matches Some(j) ==> 0 <= j < phdrs.len() && phdrs[j].p_type == t
            && forall|i: int| 0 <= i < j ==> phdrs[i].p_type != t,
        first_of_type(phdrs, t) is None ==> forall|i: int|
            0 <= i < phdrs.len() ==> phdrs[i].p_type != t,
    decreases phdrs.len(),
{
    if phdrs.len() > 0 {
        let d = phdrs.drop_last();
        lemma_first_of_type(d, t);
        assert forall|i: int| 0 <= i < d.len() implies d[i] == phdrs[i] by {}
        if first_of_type(phdrs, t) is None {
            assert forall|i: int| 0 <= i < phdrs.len() implies phdrs[i].p_type != t by {
                if i < d.len() {
                    assert(d[i] == phdrs[i]);
                }
            }
        }
    }
}

proof fn lemma_first_of_type_prefix(phdrs: Seq<ProgramHeader>, t: u32, n: int)
    requires
        0 <= n < phdrs.len(),
        forall|i: int| 0 <= i < n ==> phdrs[i].p_type != t,
        phdrs[n].p_type == t,
    ensures
        first_of_type(phdrs, t) == Some(n),
    decreases phdrs.len(),
{
    let d = phdrs.drop_last();
    assert forall|i: int| 0 <= i < d.len() implies d[i] == phdrs[i] by {}
    if phdrs.len() - 1 > n {
        lemma_first_of_type_prefix(d, t, n);
    } else {
        lemma_first_of_type(d, t);
    }
}

/// An ELF executable, known by its file header.
#[derive(Debug, Clone, Copy)]
pub struct ElfFile {
    pub header: FileHeader,
}

impl ElfFile {
    pub fn header(&self) -> (r: ElfHeader)
        ensures
            r == header_of(self.header.bytes@),
    {
        elf_header(&self.header)
    }

    /// The indices of the program header table.
    pub fn program_header_range(&self) -> (r: Range<u16>)
        ensures
            r.start == 0,
            r.end == header_of(self.header.bytes@).e_phnum,
    {
        0..self.header().e_phnum
    }

    /// Where in the file the program header `idx` is stored.
    pub fn program_header_offset(&self, idx: u16) -> (r: usize)
        requires
            header_of(self.header.bytes@).e_phoff + header_of(self.header.bytes@).e_phentsize * idx
                <= usize::MAX,
        ensures
            r == header_of(self.header.bytes@).e_phoff + header_of(self.header.bytes@).e_phentsize
                * idx,
    {
        let ehdr = self.header();
        proof {
            assert(ehdr.e_phentsize * idx <= 0xffff * 0xffff) by (nonlinear_arith)
                requires
                    ehdr.e_phentsize <= 0xffff,
                    idx <= 0xffff,
            ;
        }
        ehdr.e_phoff as usize + ehdr.e_phentsize as usize * idx as usize
    }

    /// Where the file header will be in memory: the address of the first `PT_LOAD`
    /// segment less its file offset, as linux does; zero when there is none.
    pub fn locate_header(&self, phdrs: &[ProgramHeader]) -> (r: VPtr)
        requires
            first_of_type(phdrs@, PT_LOAD) matches Some(j) ==> phdrs@[j].p_offset <= phdrs@[j].p_vaddr,
        ensures
            r.0 == match first_of_type(phdrs@, PT_LOAD) {
                Some(j) => (phdrs@[j].p_vaddr - phdrs@[j].p_offset) as usize,
                None => 0usize,
            },
    {
        proof {
            lemma_first_of_type(phdrs@, PT_LOAD);
        }
        let mut i: usize = 0;
        while i < phdrs.len()
            invariant
                i <= phdrs@.len(),
                forall|k: int| 0 <= k < i ==> phdrs@[k].p_type != PT_LOAD,
                first_of_type(phdrs@, PT_LOAD) matches Some(j) ==> phdrs@[j].p_offset
                    <= phdrs@[j].p_vaddr,
            decreases phdrs@.len() - i,
        {
            let phdr = phdrs[i];
            if phdr.p_type == PT_LOAD {
                proof {
                    lemma_first_of_type_prefix(phdrs@, PT_LOAD, i as int);
                }
                return VPtr((phdr.p_vaddr - phdr.p_offset) as usize);
            }
            i = i + 1;
        }
        proof {
            lemma_first_of_type(phdrs@, PT_LOAD);
            if let Some(j) = first_of_type(phdrs@, PT_LOAD) {
                assert(phdrs@[j].p_type == PT_LOAD);
            }
        }
        VPtr(0)
    }

    /// The segment of the first `PT_INTERP` entry, which names the program interpreter.
    pub fn interp_segment(&self, phdrs: &[ProgramHeader]) -> (r: Result<Option<Segment>, Errno>)
        requires
            first_of_type(phdrs@, PT_INTERP) matches Some(j) ==> {
                &&& phdrs@[j].p_vaddr + phdrs@[j].p_filesz <= usize::MAX
                &&& phdrs@[j].p_offset <= usize::MAX
                &&& phdrs@[j].p_memsz <= usize::MAX
            },
        ensures
            first_of_type(phdrs@, PT_INTERP) is None ==> r matches Ok(None),
            first_of_type(phdrs@, PT_INTERP) matches Some(j) ==> {
                &&& (r is Err <==> phdrs@[j].p_offset % 4096 != phdrs@[j].p_vaddr % 4096)
                &&& r matches Ok(Some(seg)) ==> seg.mapped_range.mem.start.0 == phdrs@[j].p_vaddr
                    && seg.mapped_range.file_start == phdrs@[j].p_offset
                    && seg.mapped_range.mem.end.0 == phdrs@[j].p_vaddr + phdrs@[j].p_filesz
            },
    {
        proof {
            lemma_first_of_type(phdrs@, PT_INTERP);
        }
        let mut i: usize = 0;
        while i < phdrs.len()
            invariant
                i <= phdrs@.len(),
                forall|k: int| 0 <= k < i ==> phdrs@[k].p_type != PT_INTERP,
                first_of_type(phdrs@, PT_INTERP) matches Some(j) ==> {
                    &&& phdrs@[j].p_vaddr + phdrs@[j].p_filesz <= usize::MAX
                    &&& phdrs@[j].p_offset <= usize::MAX
                    &&& phdrs@[j].p_memsz <= usize::MAX
                },
            decreases phdrs@.len() - i,
        {
            let phdr = phdrs[i];
            if phdr.p_type == PT_INTERP {
                proof {
                    lemma_first_of_type_prefix(phdrs@, PT_INTERP, i as int);
                }
                let seg = elf_segment(&phdr)?;
                return Ok(Some(seg));
            }
            i = i + 1;
        }
        proof {
            if let Some(j) = first_of_type(phdrs@, PT_INTERP) {
                assert(phdrs@[j].p_type == PT_INTERP);
            }
        }
        Ok(None)
    }
}

/// Values for the auxiliary vector that describe the loaded image.
#[derive(Debug, Clone, Copy)]
pub struct ElfAux {
    pub phdr: VPtr,
    pub phnum: usize,
    pub base: VPtr,
    pub entry: VPtr,
    pub uid: usize,
    pub euid: usize,
    pub gid: usize,
    pub egid: usize,
}

impl ElfAux {
    /// The auxiliary values for an image whose file header is found at `header_ptr` and
    /// which is loaded `offset` bytes above its link address.
    pub fn new(header: &ElfHeader, header_ptr: VPtr, offset: usize) -> (r: Self)
        requires
            header_ptr.0 + header.e_phoff + offset <= usize::MAX,
            header.e_entry + offset <= usize::MAX,
        ensures
            r.phdr.0 == header_ptr.0 + header.e_phoff + offset,
            r.phnum == header.e_phnum,
            r.base.0 == header_ptr.0 + offset,
            r.entry.0 == header.e_entry + offset,
            r.uid == 0 && r.euid == 0 && r.gid == 0 && r.egid == 0,
    {
        ElfAux {
            phdr: VPtr(header_ptr.0 + header.e_phoff as usize + offset),
            phnum: header.e_phnum as usize,
            base: VPtr(header_ptr.0 + offset),
            entry: VPtr(header.e_entry as usize + offset),
            uid: 0,
            euid: 0,
            gid: 0,
            egid: 0,
        }
    }
}

/// The auxiliary vector an ELF program finds above its environment, preceded by the
/// null word that ends the environment.
pub open spec fn aux_vector(
    vdso_base: usize,
    hwcap: usize,
    aux: ElfAux,
    random_ptr: usize,
    filename_ptr: usize,
    platform_ptr: usize,
) -> Seq<usize> {
    seq![
        0usize,
        abi::AT_SYSINFO_EHDR, vdso_base,
        abi::AT_HWCAP, hwcap,
        abi::AT_PAGESZ, abi::PAGE_SIZE,
        abi::AT_CLKTCK, abi::USER_HZ,
        abi::AT_PHDR, aux.phdr.0,
        abi::AT_PHENT, PROGRAM_HEADER_SIZE,
        abi::AT_PHNUM, aux.phnum,
        abi::AT_BASE, aux.base.0,
        abi::AT_FLAGS, 0usize,
        abi::AT_ENTRY, aux.entry.0,
        abi::AT_UID, aux.uid,
        abi::AT_EUID, aux.euid,
        abi::AT_GID, aux.gid,
        abi::AT_EGID, aux.egid,
        abi::AT_SECURE, 0usize,
        abi::AT_RANDOM, random_ptr,
        abi::AT_HWCAP2, 0usize,
        abi::AT_EXECFN, filename_ptr,
        abi::AT_PLATFORM, platform_ptr,
        abi::AT_NULL, abi::AT_NULL,
        abi::AT_NULL, abi::AT_NULL,
    ]
}

/// The tag of the pair numbered `k` of the auxiliary vector `v`, whose first word is the
/// null word that ends the environment.
pub open spec fn aux_tag(v: Seq<usize>, k: int) -> usize {
    v[2 * k + 1]
}

/// The value of the pair numbered `k` of the auxiliary vector `v`.
pub open spec fn aux_value(v: Seq<usize>, k: int) -> usize {
    v[2 * k + 2]
}

/// In the auxiliary vector `v`, `tag` is given `value`: some pair holds the tag, and
/// every pair holding it holds that value.
pub open spec fn aux_gives(v: Seq<usize>, tag: usize, value: usize) -> bool {
    &&& exists|k: int| 0 <= k && 2 * k + 2 < v.len() && #[trigger] aux_tag(v, k) == tag
    &&& forall|k: int|
        0 <= k && 2 * k + 2 < v.len() && #[trigger] aux_tag(v, k) == tag ==> aux_value(v, k) == value
}

/// The auxiliary vector a program is started with: after the null word, each `AT_*` tag
/// carries its value (the vDSO, the hardware capabilities, the page size, the clock
/// rate, the program headers with their size and count, the load base, the entry point,
/// the ids, the random bytes, the file name and the platform), and it ends with a null pair.
pub open spec fn aux_vector_ok(
    v: Seq<usize>,
    vdso_base: usize,
    hwcap: usize,
    aux: ElfAux,
    random_ptr: usize,
    filename_ptr: usize,
    platform_ptr: usize,
) -> bool {
    &&& v.len() == 43
    &&& v[0] == 0
    &&& v[41] == abi::AT_NULL && v[42] == 0
    &&& aux_gives(v, abi::AT_SYSINFO_EHDR, vdso_base)
    &&& aux_gives(v, abi::AT_HWCAP, hwcap)
    &&& aux_gives(v, abi::AT_PAGESZ, abi::PAGE_SIZE)
    &&& aux_gives(v, abi::AT_CLKTCK, abi::USER_HZ)
    &&& aux_gives(v, abi::AT_PHDR, aux.phdr.0)
    &&& aux_gives(v, abi::AT_PHENT, PROGRAM_HEADER_SIZE)
    &&& aux_gives(v, abi::AT_PHNUM, aux.phnum)
    &&& aux_gives(v, abi::AT_BASE, aux.base.0)
    &&& aux_gives(v, abi::AT_FLAGS, 0)
    &&& aux_gives(v, abi::AT_ENTRY, aux.entry.0)
    &&& aux_gives(v, abi::AT_UID, aux.uid)
    &&& aux_gives(v, abi::AT_EUID, aux.euid)
    &&& aux_gives(v, abi::AT_GID, aux.gid)
    &&& aux_gives(v, abi::AT_EGID, aux.egid)
    &&& aux_gives(v, abi::AT_SECURE, 0)
    &&& aux_gives(v, abi::AT_RANDOM, random_ptr)
    &&& aux_gives(v, abi::AT_HWCAP2, 0)
    &&& aux_gives(v, abi::AT_EXECFN, filename_ptr)
    &&& aux_gives(v, abi::AT_PLATFORM, platform_ptr)
}

/// The pair number at which each tag stands in the auxiliary vector; none for others.
spec fn aux_tag_index(tag: usize) -> int {
    if tag == abi::AT_SYSINFO_EHDR {
        0
    } else if tag == abi::AT_HWCAP {
        1
    } else if tag == abi::AT_PAGESZ {
        2
    } else if tag == abi::AT_CLKTCK {
        3
    } else if tag == abi::AT_PHDR {
        4
    } else if tag == abi::AT_PHENT {
        5
    } else if tag == abi::AT_PHNUM {
        6
    } else if tag == abi::AT_BASE {
        7
    } else if tag == abi::AT_FLAGS {
        8
    } else if tag == abi::AT_ENTRY {
        9
    } else if tag == abi::AT_UID {
        10
    } else if tag == abi::AT_EUID {
        11
    } else if tag == abi::AT_GID {
        12
    } else if tag == abi::AT_EGID {
        13
    } else if tag == abi::AT_SECURE {
        14
    } else if tag == abi::AT_RANDOM {
        15
    } else if tag == abi::AT_HWCAP2 {
        16
    } else if tag == abi::AT_EXECFN {
        17
    } else if tag == abi::AT_PLATFORM {
        18
    } else {
        -1
    }
}

/// The words of the auxiliary vector, one by one.
proof fn lemma_aux_words(
    vdso_base: usize,
    hwcap: usize,
    aux: ElfAux,
    random_ptr: usize,
    filename_ptr: usize,
    platform_ptr: usize,
)
    ensures
        ({
            let v = aux_vector(vdso_base, hwcap, aux, random_ptr, filename_ptr, platform_ptr);
            &&& v.len() == 43
            &&& v[0] == 0usize
            &&& v[1] == abi::AT_SYSINFO_EHDR
            &&& v[2] == vdso_base
            &&& v[3] == abi::AT_HWCAP
            &&& v[4] == hwcap
            &&& v[5] == abi::AT_PAGESZ
            &&& v[6] == abi::PAGE_SIZE
            &&& v[7] == abi::AT_CLKTCK
            &&& v[8] == abi::USER_HZ
            &&& v[9] == abi::AT_PHDR
            &&& v[10] == aux.phdr.0
            &&& v[11] == abi::AT_PHENT
            &&& v[12] == PROGRAM_HEADER_SIZE
            &&& v[13] == abi::AT_PHNUM
            &&& v[14] == aux.phnum
            &&& v[15] == abi::AT_BASE
            &&& v[16] == aux.base.0
            &&& v[17] == abi::AT_FLAGS
            &&& v[18] == 0usize
            &&& v[19] == abi::AT_ENTRY
            &&& v[20] == aux.entry.0
            &&& v[21] == abi::AT_UID
            &&& v[22] == aux.uid
            &&& v[23] == abi::AT_EUID
            &&& v[24] == aux.euid
            &&& v[25] == abi::AT_GID
            &&& v[26] == aux.gid
            &&& v[27] == abi::AT_EGID
            &&& v[28] == aux.egid
            &&& v[29] == abi::AT_SECURE
            &&& v[30] == 0usize
            &&& v[31] == abi::AT_RANDOM
            &&& v[32] == random_ptr
            &&& v[33] == abi::AT_HWCAP2
            &&& v[34] == 0usize
            &&& v[35] == abi::AT_EXECFN
            &&& v[36] == filename_ptr
            &&& v[37] == abi::AT_PLATFORM
            &&& v[38] == platform_ptr
            &&& v[39] == abi::AT_NULL
            &&& v[40] == abi::AT_NULL
            &&& v[41] == abi::AT_NULL
            &&& v[42] == abi::AT_NULL
        }),
{
    let v = aux_vector(vdso_base, hwcap, aux, random_ptr, filename_ptr, platform_ptr);
    assert(v[0] == 0usize);
    assert(v[1] == abi::AT_SYSINFO_EHDR);
    assert(v[2] == vdso_base);
    assert(v[3] == abi::AT_HWCAP);
    assert(v[4] == hwcap);
    assert(v[5] == abi::AT_PAGESZ);
    assert(v[6] == abi::PAGE_SIZE);
    assert(v[7] == abi::AT_CLKTCK);
    assert(v[8] == abi::USER_HZ);
    assert(v[9] == abi::AT_PHDR);
    assert(v[10] == aux.phdr.0);
    assert(v[11] == abi::AT_PHENT);
    assert(v[12] == PROGRAM_HEADER_SIZE);
    assert(v[13] == abi::AT_PHNUM);
    assert(v[14] == aux.phnum);
    assert(v[15] == abi::AT_BASE);
    assert(v[16] == aux.base.0);
    assert(v[17] == abi::AT_FLAGS);
    assert(v[18] == 0usize);
    assert(v[19] == abi::AT_ENTRY);
    assert(v[20] == aux.entry.0);
    assert(v[21] == abi::AT_UID);
    assert(v[22] == aux.uid);
    assert(v[23] == abi::AT_EUID);
    assert(v[24] == aux.euid);
    assert(v[25] == abi::AT_GID);
    assert(v[26] == aux.gid);
    assert(v[27] == abi::AT_EGID);
    assert(v[28] == aux.egid);
    assert(v[29] == abi::AT_SECURE);
    assert(v[30] == 0usize);
    assert(v[31] == abi::AT_RANDOM);
    assert(v[32] == random_ptr);
    assert(v[33] == abi::AT_HWCAP2);
    assert(v[34] == 0usize);
    assert(v[35] == abi::AT_EXECFN);
    assert(v[36] == filename_ptr);
    assert(v[37] == abi::AT_PLATFORM);
    assert(v[38] == platform_ptr);
    assert(v[39] == abi::AT_NULL);
    assert(v[40] == abi::AT_NULL);
    assert(v[41] == abi::AT_NULL);
    assert(v[42] == abi::AT_NULL);
}

/// A tag that stands at pair number `k0`, with `value` after it, is given that value
/// where every pair holds either a tag standing at its own number or the null tag.
proof fn lemma_aux_gives_at(v: Seq<usize>, tag: usize, value: usize, k0: int)
    requires
        v.len() == 43,
        0 <= k0 <= 18,
        tag != abi::AT_NULL,
        aux_tag_index(tag) == k0,
        aux_tag(v, k0) == tag,
        aux_value(v, k0) == value,
        forall|k: int|
            0 <= k && 2 * k + 2 < v.len() ==> (k <= 18 ==> aux_tag_index(#[trigger] aux_tag(v, k))
                == k) && (k > 18 ==> aux_tag(v, k) == abi::AT_NULL),
    ensures
        aux_gives(v, tag, value),
{
}

/// Each tag of the auxiliary vector carries the value that the kernel's ABI defines for
/// it: `AT_ENTRY` the program's entry point, `AT_BASE` its load base, `AT_PHDR` its
/// program headers, and so on for every tag.
pub proof fn lemma_aux_vector_tags(
    vdso_base: usize,
    hwcap: usize,
    aux: ElfAux,
    random_ptr: usize,
    filename_ptr: usize,
    platform_ptr: usize,
)
    ensures
        aux_vector_ok(
            aux_vector(vdso_base, hwcap, aux, random_ptr, filename_ptr, platform_ptr),
            vdso_base,
            hwcap,
            aux,
            random_ptr,
            filename_ptr,
            platform_ptr,
        ),
{
    let v = aux_vector(vdso_base, hwcap, aux, random_ptr, filename_ptr, platform_ptr);
    lemma_aux_words(vdso_base, hwcap, aux, random_ptr, filename_ptr, platform_ptr);
    assert forall|k: int| 0 <= k && 2 * k + 2 < v.len() implies (k <= 18 ==> aux_tag_index(
        #[trigger] aux_tag(v, k),
    ) == k) && (k > 18 ==> aux_tag(v, k) == abi::AT_NULL) by {
        assert(k == 0 || k == 1 || k == 2 || k == 3 || k == 4 || k == 5 || k == 6 || k == 7 || k
            == 8 || k == 9 || k == 10 || k == 11 || k == 12 || k == 13 || k == 14 || k == 15 || k
            == 16 || k == 17 || k == 18 || k == 19 || k == 20);
    }
    lemma_aux_gives_at(v, abi::AT_SYSINFO_EHDR, vdso_base, 0);
    lemma_aux_gives_at(v, abi::AT_HWCAP, hwcap, 1);
    lemma_aux_gives_at(v, abi::AT_PAGESZ, abi::PAGE_SIZE, 2);
    lemma_aux_gives_at(v, abi::AT_CLKTCK, abi::USER_HZ, 3);
    lemma_aux_gives_at(v, abi::AT_PHDR, aux.phdr.0, 4);
    lemma_aux_gives_at(v, abi::AT_PHENT, PROGRAM_HEADER_SIZE, 5);
    lemma_aux_gives_at(v, abi::AT_PHNUM, aux.phnum, 6);
    lemma_aux_gives_at(v, abi::AT_BASE, aux.base.0, 7);
    lemma_aux_gives_at(v, abi::AT_FLAGS, 0usize, 8);
    lemma_aux_gives_at(v, abi::AT_ENTRY, aux.entry.0, 9);
    lemma_aux_gives_at(v, abi::AT_UID, aux.uid, 10);
    lemma_aux_gives_at(v, abi::AT_EUID, aux.euid, 11);
    lemma_aux_gives_at(v, abi::AT_GID, aux.gid, 12);
    lemma_aux_gives_at(v, abi::AT_EGID, aux.egid, 13);
    lemma_aux_gives_at(v, abi::AT_SECURE, 0usize, 14);
    lemma_aux_gives_at(v, abi::AT_RANDOM, random_ptr, 15);
    lemma_aux_gives_at(v, abi::AT_HWCAP2, 0usize, 16);
    lemma_aux_gives_at(v, abi::AT_EXECFN, filename_ptr, 17);
    lemma_aux_gives_at(v, abi::AT_PLATFORM, platform_ptr, 18);
}

pub fn aux_vectors(
    vdso_base: usize,
    hwcap: usize,
    aux: &ElfAux,
    random_ptr: usize,
    filename_ptr: usize,
    platform_ptr: usize,
) -> (r: Vec<usize>)
    ensures
        r@ == aux_vector(vdso_base, hwcap, *aux, random_ptr, filename_ptr, platform_ptr),
        aux_vector_ok(r@, vdso_base, hwcap, *aux, random_ptr, filename_ptr, platform_ptr),
{
    proof {
        lemma_aux_vector_tags(vdso_base, hwcap, *aux, random_ptr, filename_ptr, platform_ptr);
    }
    let r = vec![
        0,
        abi::AT_SYSINFO_EHDR, vdso_base,
        abi::AT_HWCAP, hwcap,
        abi::AT_PAGESZ, abi::PAGE_SIZE,
        abi::AT_CLKTCK, abi::USER_HZ,
        abi::AT_PHDR, aux.phdr.0,
        abi::AT_PHENT, PROGRAM_HEADER_SIZE,
        abi::AT_PHNUM, aux.phnum,
        abi::AT_BASE, aux.base.0,
        abi::AT_FLAGS, 0,
        abi::AT_ENTRY, aux.entry.0,
        abi::AT_UID, aux.uid,
        abi::AT_EUID, aux.euid,
        abi::AT_GID, aux.gid,
        abi::AT_EGID, aux.egid,
        abi::AT_SECURE, 0,
        abi::AT_RANDOM, random_ptr,
        abi::AT_HWCAP2, 0,
        abi::AT_EXECFN, filename_ptr,
        abi::AT_PLATFORM, platform_ptr,
        abi::AT_NULL, abi::AT_NULL,
        abi::AT_NULL, abi::AT_NULL,
    ];
    assert(r@ =~= aux_vector(vdso_base, hwcap, *aux, random_ptr, filename_ptr, platform_ptr));
    r
}

/// The padding that makes the vectors, together with `argc`, end on a 16-byte boundary.
pub fn stack_padding(total_vector_len: usize) -> (r: usize)
    ensures
        r < abi::ELF_STACK_ALIGN,
        (total_vector_len + r) % 16 == 0,
        total_vector_len % 16 == 0 ==> r == 0,
{
    let rem = total_vector_len & abi::ELF_STACK_ALIGN_MASK;
    assert(total_vector_len & 15 == total_vector_len % 16) by (bit_vector);
    if 0 != rem {
        abi::ELF_STACK_ALIGN - rem
    } else {
        0
    }
}

/// The words of a new program's initial stack, from its lowest address up: the argument
/// count, the argument pointers, a null word, the environment pointers, then `aux`, the
/// auxiliary vector as `aux_vectors` gives it (which starts with the null word that ends
/// the environment).
pub open spec fn initial_stack(argv: Seq<usize>, envp: Seq<usize>, aux: Seq<usize>) -> Seq<usize> {
    seq![argv.len() as usize] + argv + seq![0usize] + envp + aux
}

fn append_words(v: &mut Vec<usize>, words: &[usize])
    ensures
        final(v)@ == old(v)@ + words@,
{
    let mut i: usize = 0;
    while i < words.len()
        invariant
            i <= words@.len(),
            v@ == old(v)@ + words@.take(i as int),
        decreases words@.len() - i,
    {
        v.push(words[i]);
        assert(words@.take(i + 1) =~= words@.take(i as int).push(words@[i as int]));
        i = i + 1;
    }
    assert(words@.take(words@.len() as int) =~= words@);
}

/// The words of the initial stack, and the padding in bytes to leave above them so that,
/// below a 16-byte aligned top, the lowest word (the argument count) is 16-byte aligned.
pub fn initial_stack_words(argv: &[usize], envp: &[usize], aux: &[usize]) -> (r: (Vec<usize>, usize))
    requires
        8 * (argv@.len() + envp@.len() + aux@.len() + 2) <= usize::MAX,
    ensures
        r.0@ == initial_stack(argv@, envp@, aux@),
        r.1 < abi::ELF_STACK_ALIGN,
        (8 * r.0@.len() + r.1) % 16 == 0,
{
    let mut v: Vec<usize> = Vec::new();
    v.push(argv.len());
    append_words(&mut v, argv);
    v.push(0);
    append_words(&mut v, envp);
    append_words(&mut v, aux);
    assert(v@ =~= initial_stack(argv@, envp@, aux@));
    let padding = stack_padding(8 * v.len());
    (v, padding)
}

/// The registers a new program starts with: its entry point and stack, the segment
/// and flag registers kept from before, everything else zero.
pub fn initial_regs(prev: &UserRegs, ip: VPtr, sp: VPtr) -> (r: UserRegs)
    requires
        sp.0 % 16 == 0,
    ensures
        r == (UserRegs {
            r15: 0, r14: 0, r13: 0, r12: 0, bp: 0, bx: 0, r11: 0, r10: 0, r9: 0, r8: 0,
            ax: 0, cx: 0, dx: 0, si: 0, di: 0, orig_ax: 0,
            ip: ip.0, cs: prev.cs, flags: prev.flags, sp: sp.0, ss: prev.ss,
            fs_base: 0, gs_base: 0, ds: prev.ds, es: prev.ds, fs: 0, gs: 0,
        }),
{
    UserRegs {
        r15: 0, r14: 0, r13: 0, r12: 0, bp: 0, bx: 0, r11: 0, r10: 0, r9: 0, r8: 0,
        ax: 0, cx: 0, dx: 0, si: 0, di: 0, orig_ax: 0,
        ip: ip.0, cs: prev.cs, flags: prev.flags, sp: sp.0, ss: prev.ss,
        fs_base: 0, gs_base: 0, ds: prev.ds, es: prev.ds, fs: 0, gs: 0,
    }
}

} // verus!
