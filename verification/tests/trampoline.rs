use bandsocks::kernel::{KernelAreaScan, KernelMemIterator};
use bandsocks::mem::{MappedPages, MappedRange, MemFlags, VPage};
use bandsocks::parser::ByteReader;
use bandsocks::protocol::{Errno, UserRegs, VPtr};
use bandsocks::syscall::{RemoteFd, NR_GETRANDOM, NR_MMAP, NR_MREMAP, NR_MUNMAP, NR_OPEN};
use bandsocks::trampoline::{Trampoline, RETURN_TRIP_ARG};

const MAPS: &[u8] = b"400000-401000 r-xp 00000000 08:01 12 /bin/x
7ffd3d7a3000-7ffd3d7a7000 r--p 00000000 00:00 0 [vvar]
7ffd3d7a7000-7ffd3d7a9000 r-xp 00000000 00:00 0 [vdso]
";

fn trampoline() -> (Trampoline, Vec<bandsocks::kernel::KernelMemArea>) {
    let mut it = KernelMemIterator::new(ByteReader::from_bytes(MAPS));
    let mut scan = KernelAreaScan::new();
    let mut all = Vec::new();
    while let Some(area) = it.next() {
        let area = area.unwrap();
        all.push(area);
    }
    let mut user = Vec::new();
    for area in all {
        match area.name {
            bandsocks::kernel::KernelMemName::VDSO | bandsocks::kernel::KernelMemName::VVar => scan.record(area),
            _ => user.push(area),
        }
    }
    (Trampoline::new(scan.finish(VPtr(0x7ffd3d7a7bc5))), user)
}

#[test]
fn call_and_return_trip_registers() {
    let (tr, _) = trampoline();
    let regs = UserRegs { ip: 0x401000, sp: 0x7ff0, ax: 1, r12: 9, ..Default::default() };
    let call = Trampoline::call_regs(&regs, 9, &[1, 2, 3]);
    assert_eq!(call.orig_ax, 9);
    assert_eq!((call.di, call.si, call.dx, call.r10, call.r8, call.r9), (1, 2, 3, 0, 0, 0));
    assert_eq!((call.ip, call.sp, call.ax, call.r12), (0x401000, 0x7ff0, 1, 9));
    let back = tr.return_trip_regs(&call);
    assert_eq!(back.ip, 0x7ffd3d7a7bc5);
    assert_eq!(back.sp, 0);
    assert_eq!(back.ax, NR_OPEN);
    assert_eq!(back.di, RETURN_TRIP_ARG as usize);
    assert_eq!(back.r9, RETURN_TRIP_ARG as usize);
    assert_eq!(back.r12, 9);
    let trapped = UserRegs { orig_ax: back.ax, ..back };
    assert!(Trampoline::is_return_trip(&trapped));
    assert!(!Trampoline::is_return_trip(&UserRegs { r8: 0, ..trapped }));
    assert_eq!(RETURN_TRIP_ARG, 0xffff_ffff_dddd_dddd_u64 as isize);
}

#[test]
fn userspace_areas_to_unmap() {
    let (tr, user) = trampoline();
    assert_eq!(tr.first_userspace_area(&user), Some(0));
    assert_eq!(tr.first_userspace_area(&[]), None);
}

#[test]
fn memory_call_arguments() {
    let pages = MappedPages::parse(&MappedRange { mem: VPtr(0x10000)..VPtr(0x13000), file_start: 0x2000 }).unwrap();
    let (nr, args) = Trampoline::mmap_args(&pages, &RemoteFd(4), &MemFlags::rw(), 0x20);
    assert_eq!(nr, NR_MMAP);
    assert_eq!(args, [0x10000, 0x3000, 3, 0x22, 4, 0x2000]);
    let range = VPage::round_down(VPtr(0x10000))..VPage::round_down(VPtr(0x13000));
    assert_eq!(Trampoline::munmap_args(&range), (NR_MUNMAP, [0x10000, 0x3000]));
    assert_eq!(Trampoline::mremap_args(&range, 0x5000), (NR_MREMAP, [0x10000, 0x3000, 0x5000, 0]));
    assert_eq!(Trampoline::getrandom_args(VPtr(0x8000), 16, 0), (NR_GETRANDOM, [0x8000, 16, 0]));
}

#[test]
fn memory_call_results() {
    let ok = Trampoline::pages_result(0x20000, 0x2000).unwrap();
    assert_eq!((ok.start.ptr(), ok.end.ptr()), (VPtr(0x20000), VPtr(0x22000)));
    assert_eq!(Trampoline::pages_result(-12, 0x2000).err(), Some(Errno(-12)));
    assert_eq!(Trampoline::pages_result(0x20010, 0x2000).err(), Some(Errno(-22)));
    assert!(Trampoline::mmap_fixed_landed(&ok, &(VPage::round_down(VPtr(0x20000))..VPage::round_down(VPtr(0x22000)))));
    assert!(!Trampoline::mmap_fixed_landed(&ok, &(VPage::round_down(VPtr(0x30000))..VPage::round_down(VPtr(0x32000)))));
    assert_eq!(Trampoline::zero_result(0), Ok(()));
    assert_eq!(Trampoline::zero_result(-22), Err(Errno(-22)));
    assert_eq!(Trampoline::getrandom_result(16), Ok(16));
    assert_eq!(Trampoline::getrandom_result(-4), Err(Errno(-4)));
    assert_eq!(Trampoline::getrandom_exact_result(16, 16), Ok(()));
    assert_eq!(Trampoline::getrandom_exact_result(8, 16), Err(Errno(-5)));
    assert_eq!(Trampoline::getrandom_exact_result(-4, 16), Err(Errno(-4)));
}
