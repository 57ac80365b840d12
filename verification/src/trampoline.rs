//! Making system calls inside a stopped, traced process. The tracer sets the registers
//! for the call and lets it run to its exit; then, to be trapped again on the way in
//! to the next call, it sends the process through the `syscall` instruction in the
//! vDSO with a call that the seccomp filter traps. The functions here compute the
//! registers for each step and what each call's result means; the tracer moves the
//! registers in and out with ptrace.
use vstd::prelude::*;
use core::ops::Range;
use crate::abi;
use crate::kernel::{KernelMemArea, KernelMemAreas};
use crate::mem::{MappedPages, MemFlags, VPage};
use crate::protocol::{Errno, Syscall, UserRegs, VPtr, arg_or_zero, with_args};
use crate::syscall::{NR_GETRANDOM, NR_MMAP, NR_MREMAP, NR_MUNMAP, NR_OPEN, RemoteFd};

verus! {

/// The argument that marks the call made on the way back through the vDSO.
pub const RETURN_TRIP_ARG: isize = 0xffff_ffff_dddd_ddddu64 as isize;

/// The registers for the call back through the vDSO: at the vDSO's `syscall`
/// instruction, with no stack, an `open` whose six arguments are all the marker.
pub open spec fn return_trip_regs(regs: UserRegs, vdso_syscall: VPtr) -> UserRegs {
    let marker = RETURN_TRIP_ARG as usize;
    UserRegs {
        ip: vdso_syscall.0,
        sp: 0,
        ax: NR_OPEN,
        di: marker,
        si: marker,
        dx: marker,
        r10: marker,
        r8: marker,
        r9: marker,
        ..regs
    }
}

/// The registers at the entry of the return-trip call: an `open` whose six arguments are
/// all the marker.
pub open spec fn return_trip_marked(regs: UserRegs) -> bool {
    &&& regs.orig_ax as isize == NR_OPEN as isize
    &&& regs.di as isize == RETURN_TRIP_ARG
    &&& regs.si as isize == RETURN_TRIP_ARG
    &&& regs.dx as isize == RETURN_TRIP_ARG
    &&& regs.r10 as isize == RETURN_TRIP_ARG
    &&& regs.r8 as isize == RETURN_TRIP_ARG
    &&& regs.r9 as isize == RETURN_TRIP_ARG
}

/// The call that a return trip sets up is recognised as the return trip once the kernel
/// has entered it (entering a system call copies `ax` into `orig_ax`).
pub proof fn lemma_return_trip_recognised(regs: UserRegs, vdso_syscall: VPtr)
    ensures
        return_trip_marked(
            (UserRegs {
                orig_ax: return_trip_regs(regs, vdso_syscall).ax,
                ..return_trip_regs(regs, vdso_syscall)
            }),
        ),
{
    let m: isize = RETURN_TRIP_ARG;
    assert((m as usize) as isize == m) by (bit_vector);
}

/// The result of an `mmap`-like call that returns an address: a negative result is
/// an error number, and otherwise the pages at that address, which must be aligned.
pub open spec fn pages_result(result: isize, len: usize) -> Result<(usize, usize), Errno> {
    if result < 0 {
        Err(Errno(result as i32))
    } else if (result as usize) % 4096 == 0 && ((result as usize) + len) % 4096 == 0 {
        Ok((result as usize, ((result as usize) + len) as usize))
    } else {
        Err(Errno((-abi::EINVAL) as i32))
    }
}

/// A place to make system calls from: the kernel-provided areas of the process, which
/// hold the `syscall` instruction the return trip goes through.
#[derive(Debug)]
pub struct Trampoline {
    pub kernel_mem: KernelMemAreas,
}

impl Trampoline {
    pub fn new(kernel_mem: KernelMemAreas) -> (r: Self)
        ensures
            r.kernel_mem == kernel_mem,
    {
        Trampoline { kernel_mem }
    }

    /// The registers that make the stopped process run system call `nr` with `args`:
    /// its own registers, with the call number and arguments replaced.
    pub fn call_regs(regs: &UserRegs, nr: usize, args: &[isize]) -> (r: UserRegs)
        requires
            args@.len() <= 6,
        ensures
            r == with_args(UserRegs { orig_ax: nr as isize as usize, ..*regs }, args@),
    {
        let mut local_regs = *regs;
        Syscall::orig_nr_to_regs(nr as isize, &mut local_regs);
        Syscall::args_to_regs(args, &mut local_regs);
        local_regs
    }

    /// The registers for the trip back through the vDSO, from those at the exit of
    /// the call that was made.
    pub fn return_trip_regs(&self, regs: &UserRegs) -> (r: UserRegs)
        ensures
            r == return_trip_regs(*regs, self.kernel_mem.vdso_syscall),
    {
        let mut local_regs = *regs;
        local_regs.ip = self.kernel_mem.vdso_syscall.0;
        local_regs.sp = 0;
        Syscall::nr_to_regs(NR_OPEN as isize, &mut local_regs);
        let marker = [RETURN_TRIP_ARG; 6];
        Syscall::args_to_regs(&marker, &mut local_regs);
        proof {
            assert(marker@ =~= seq![RETURN_TRIP_ARG, RETURN_TRIP_ARG, RETURN_TRIP_ARG, RETURN_TRIP_ARG, RETURN_TRIP_ARG, RETURN_TRIP_ARG]);
            assert(arg_or_zero(marker@, 0) == RETURN_TRIP_ARG as usize);
        }
        local_regs
    }

    /// Whether the process stopped at the entry of the return-trip call: an `open`
    /// whose six arguments are all the marker.
    pub fn is_return_trip(regs: &UserRegs) -> (r: bool)
        ensures
            r == return_trip_marked(*regs),
    {
        let info = Syscall::from_regs(regs);
        info.nr == NR_OPEN as isize && info.args[0] == RETURN_TRIP_ARG && info.args[1]
            == RETURN_TRIP_ARG && info.args[2] == RETURN_TRIP_ARG && info.args[3] == RETURN_TRIP_ARG
            && info.args[4] == RETURN_TRIP_ARG && info.args[5] == RETURN_TRIP_ARG
    }

    /// The first area of `areas` that belongs to userspace, to be unmapped next.
    pub fn first_userspace_area(&self, areas: &[KernelMemArea]) -> (r: Option<usize>)
        ensures
            r matches Some(i) ==> i < areas@.len() && !(areas@[i as int].spec_is_overlap(
                &self.kernel_mem.vdso,
            ) || areas@[i as int].spec_is_overlap(&self.kernel_mem.vvar) || (
            self.kernel_mem.vsyscall matches Some(v) && areas@[i as int].spec_is_overlap(&v))),
            forall|j: int|
                0 <= j < areas@.len() && (r matches Some(i) ==> j < i) ==> ((
                #[trigger] areas@[j]).spec_is_overlap(&self.kernel_mem.vdso)
                    || areas@[j].spec_is_overlap(&self.kernel_mem.vvar) || (
                self.kernel_mem.vsyscall matches Some(v) && areas@[j].spec_is_overlap(&v))),
    {
        let mut i: usize = 0;
        while i < areas.len()
            invariant
                i <= areas@.len(),
                forall|j: int|
                    0 <= j < i ==> ((#[trigger] areas@[j]).spec_is_overlap(&self.kernel_mem.vdso)
                        || areas@[j].spec_is_overlap(&self.kernel_mem.vvar) || (
                    self.kernel_mem.vsyscall matches Some(v) && areas@[j].spec_is_overlap(&v))),
            decreases areas@.len() - i,
        {
            if self.kernel_mem.is_userspace_area(&areas[i]) {
                return Some(i);
            }
            i = i + 1;
        }
        None
    }

    /// The number and arguments of the `mmap` call that maps `mapped_pages` of `fd`.
    pub fn mmap_args(
        mapped_pages: &MappedPages,
        fd: &RemoteFd,
        mem_flags: &MemFlags,
        map_flags: isize,
    ) -> (r: (usize, [isize; 6]))
        requires
            mapped_pages.start_addr() <= mapped_pages.end_addr(),
        ensures
            r.0 == NR_MMAP,
            r.1@ == seq![
                mapped_pages.start_addr() as isize,
                (mapped_pages.end_addr() - mapped_pages.start_addr()) as isize,
                mem_flags.protect.spec_prot_flags(),
                mem_flags.spec_map_flags() | map_flags,
                fd.0 as isize,
                mapped_pages.file_offset() as isize,
            ],
    {
        let range = mapped_pages.mem_range();
        let len = range.end.0 - range.start.0;
        let args = [
            mapped_pages.mem_pages().start.ptr().0 as isize,
            len as isize,
            mem_flags.protect.prot_flags(),
            mem_flags.map_flags() | map_flags,
            fd.0 as isize,
            mapped_pages.file_start() as isize,
        ];
        proof {
            assert(args@ =~= seq![
                mapped_pages.start_addr() as isize,
                (mapped_pages.end_addr() - mapped_pages.start_addr()) as isize,
                mem_flags.protect.spec_prot_flags(),
                mem_flags.spec_map_flags() | map_flags,
                fd.0 as isize,
                mapped_pages.file_offset() as isize,
            ]);
        }
        (NR_MMAP, args)
    }

    /// The pages that an `mmap` or `mremap` call returned, `len` bytes long.
    pub fn pages_result(result: isize, len: usize) -> (r: Result<Range<VPage>, Errno>)
        requires
            result >= 0 ==> result + len <= usize::MAX,
        ensures
            match pages_result(result, len) {
                Ok((start, end)) => r matches Ok(p) && p.start.addr() == start && p.end.addr() == end,
                Err(e) => r == Err::<Range<VPage>, Errno>(e),
            },
    {
        if result < 0 {
            Err(Errno(result as i32))
        } else {
            let start = VPtr(result as usize);
            match VPage::parse_range(&(start..start.add(len))) {
                Ok(pages) => Ok(pages),
                Err(()) => Err(Errno(-abi::EINVAL)),
            }
        }
    }

    /// Whether a mapping that had to land at `expected` did: if not, it is unmapped
    /// again and the call fails with `EINVAL`.
    pub fn mmap_fixed_landed(expected: &Range<VPage>, result: &Range<VPage>) -> (r: bool)
        ensures
            r == (expected.start.addr() == result.start.addr() && expected.end.addr()
                == result.end.addr()),
    {
        expected.start.ptr().0 == result.start.ptr().0 && expected.end.ptr().0 == result.end.ptr().0
    }

    /// The number and arguments of the `munmap` call for `pages`.
    pub fn munmap_args(pages: &Range<VPage>) -> (r: (usize, [isize; 2]))
        requires
            pages.start.addr() <= pages.end.addr(),
        ensures
            r.0 == NR_MUNMAP,
            r.1@ == seq![pages.start.addr() as isize, (pages.end.addr() - pages.start.addr()) as isize],
    {
        let start = pages.start.ptr().0;
        let end = pages.end.ptr().0;
        let args = [start as isize, (end - start) as isize];
        proof {
            assert(args@ =~= seq![start as isize, (end - start) as isize]);
        }
        (NR_MUNMAP, args)
    }

    /// The number and arguments of the `mremap` call that resizes `pages`.
    pub fn mremap_args(pages: &Range<VPage>, new_length: usize) -> (r: (usize, [isize; 4]))
        requires
            pages.start.addr() <= pages.end.addr(),
        ensures
            r.0 == NR_MREMAP,
            r.1@ == seq![
                pages.start.addr() as isize,
                (pages.end.addr() - pages.start.addr()) as isize,
                new_length as isize,
                0isize,
            ],
    {
        let start = pages.start.ptr().0;
        let end = pages.end.ptr().0;
        let args = [start as isize, (end - start) as isize, new_length as isize, 0];
        proof {
            assert(args@ =~= seq![start as isize, (end - start) as isize, new_length as isize, 0isize]);
        }
        (NR_MREMAP, args)
    }

    /// The number and arguments of the `getrandom` call that fills `length` bytes at
    /// `addr`.
    pub fn getrandom_args(addr: VPtr, length: usize, flags: isize) -> (r: (usize, [isize; 3]))
        ensures
            r.0 == NR_GETRANDOM,
            r.1@ == seq![addr.0 as isize, length as isize, flags],
    {
        let args = [addr.0 as isize, length as isize, flags];
        proof {
            assert(args@ =~= seq![addr.0 as isize, length as isize, flags]);
        }
        (NR_GETRANDOM, args)
    }

    /// The result of a call that returns zero on success, such as `munmap`.
    pub fn zero_result(result: isize) -> (r: Result<(), Errno>)
        ensures
            result == 0 ==> r is Ok,
            result != 0 ==> r == Err::<(), Errno>(Errno(result as i32)),
    {
        if result == 0 {
            Ok(())
        } else {
            Err(Errno(result as i32))
        }
    }

    /// The result of `getrandom`: the number of bytes written, or an error number.
    pub fn getrandom_result(result: isize) -> (r: Result<usize, Errno>)
        ensures
            result >= 0 ==> r == Ok::<usize, Errno>(result as usize),
            result < 0 ==> r == Err::<usize, Errno>(Errno(result as i32)),
    {
        if result >= 0 {
            Ok(result as usize)
        } else {
            Err(Errno(result as i32))
        }
    }

    /// The result of `getrandom` where all `length` bytes were wanted: a short count is
    /// `EIO`.
    pub fn getrandom_exact_result(result: isize, length: usize) -> (r: Result<(), Errno>)
        ensures
            result < 0 ==> r == Err::<(), Errno>(Errno(result as i32)),
            result >= 0 && result as usize == length ==> r is Ok,
            result >= 0 && result as usize != length ==> r == Err::<(), Errno>(Errno((-abi::EIO) as i32)),
    {
        match Self::getrandom_result(result) {
            Ok(n) => if n == length {
                Ok(())
            } else {
                Err(Errno(-abi::EIO))
            },
            Err(e) => Err(e),
        }
    }
}

} // verus!
