use bandsocks::kernel::{KernelAreaScan, KernelDevice, KernelFile, KernelMemIterator, KernelMemName};
use bandsocks::maps::{MapsIterator, MemArea, MemAreaName};
use bandsocks::mem::{MemFlags, MemProtect};
use bandsocks::parser::ByteReader;
use bandsocks::protocol::VPtr;

const MAPS: &[u8] = b"55d4c6a00000-55d4c6a02000 r--p 00000000 fd:01 1054730                    /usr/bin/cat
7ffd3d5e8000-7ffd3d609000 rw-p 00000000 00:00 0                          [stack]
7ffd3d7a3000-7ffd3d7a7000 r--p 00000000 00:00 0                          [vvar]
7ffd3d7a7000-7ffd3d7a9000 r-xp 00000000 00:00 0                          [vdso]
7f0000000000-7f0000001000 rw-s 00001000 00:05 77 
ffffffffff600000-ffffffffff601000 --xp 00000000 00:00 0                  [vsyscall]
";

#[test]
fn maps_lines() {
    let mut it = MapsIterator::new(ByteReader::from_bytes(MAPS));
    let first = it.next().unwrap().unwrap();
    assert_eq!(
        first,
        MemArea {
            start: 0x55d4c6a00000,
            end: 0x55d4c6a02000,
            offset: 0,
            dev_major: 0xfd,
            dev_minor: 1,
            inode: 1054730,
            read: true,
            write: false,
            execute: false,
            mayshare: false,
            name: MemAreaName::Path,
        }
    );
    assert_eq!(first.vptr(), VPtr(0x55d4c6a00000));
    assert_eq!(first.len(), 0x2001);
    assert_eq!(it.next().unwrap().unwrap().name, MemAreaName::Other);
    assert_eq!(it.next().unwrap().unwrap().name, MemAreaName::VVar);
    let vdso = it.next().unwrap().unwrap();
    assert_eq!(vdso.name, MemAreaName::VDSO);
    assert!(vdso.read && vdso.execute && !vdso.write);
    let shared = it.next().unwrap().unwrap();
    assert_eq!(shared.name, MemAreaName::Unnamed);
    assert!(shared.mayshare);
    assert_eq!((shared.offset, shared.dev_minor, shared.inode), (0x1000, 5, 77));
    assert_eq!(it.next().unwrap().unwrap().name, MemAreaName::VSyscall);
    assert!(it.next().is_none());
}

#[test]
fn malformed_line_is_an_error() {
    let mut it = MapsIterator::new(ByteReader::from_bytes(b"zzzz-1000 r--p 0 0:0 0\n"));
    assert_eq!(it.next(), Some(Err(())));
}

#[test]
fn overlap_needs_same_mapping() {
    let a = MemArea {
        start: 0x1000,
        end: 0x3000,
        offset: 0,
        dev_major: 0,
        dev_minor: 0,
        inode: 0,
        read: true,
        write: false,
        execute: false,
        mayshare: false,
        name: MemAreaName::Unnamed,
    };
    let b = MemArea { start: 0x2000, end: 0x4000, ..a };
    let c = MemArea { write: true, ..b };
    assert!(a.is_overlap(&b));
    assert!(!a.is_overlap(&c));
}

#[test]
fn kernel_areas_from_maps() {
    let mut it = KernelMemIterator::new(ByteReader::from_bytes(MAPS));
    let mut scan = KernelAreaScan::new();
    assert_eq!(scan.vdso_range(), None);
    let mut user = Vec::new();
    while let Some(area) = it.next() {
        let area = area.unwrap();
        match area.name {
            KernelMemName::VDSO | KernelMemName::VVar | KernelMemName::VSyscall => {
                assert!(scan.accepts(&area));
                scan.record(area)
            }
            _ => user.push(area),
        }
    }
    assert_eq!(user.len(), 3);
    let mut again = KernelMemIterator::new(ByteReader::from_bytes(MAPS));
    while let Some(area) = again.next() {
        let area = area.unwrap();
        if let KernelMemName::VDSO = area.name {
            assert!(!scan.accepts(&area));
        }
    }
    assert_eq!(scan.task_end.ptr(), VPtr(0x7ffd3d7a3000));
    let vdso = scan.vdso.as_ref().unwrap();
    assert_eq!(vdso.flags, MemFlags::exec());
    assert_eq!(vdso.file, KernelFile::null());
    assert_eq!(scan.vvar.as_ref().unwrap().flags, MemFlags::ro());
    let vsys = scan.vsyscall.as_ref().unwrap();
    assert_eq!(vsys.flags.protect, MemProtect { read: false, write: false, execute: true });
    assert_eq!(scan.vdso_range(), Some(VPtr(0x7ffd3d7a7000)..VPtr(0x7ffd3d7a9000)));
    let areas = scan.finish(VPtr(0x7ffd3d7a7bc5));
    assert_eq!(areas.vdso_syscall, VPtr(0x7ffd3d7a7bc5));
    assert_eq!(areas.vdso.pages.mem_range(), VPtr(0x7ffd3d7a7000)..VPtr(0x7ffd3d7a9000));
    for area in &user {
        assert!(areas.is_userspace_area(area));
    }
    assert!(!areas.is_userspace_area(&areas.vvar));
    assert_eq!(user[0].file, KernelFile { device: KernelDevice(0xfd, 1), inode: 1054730 });
}

#[test]
fn unaligned_kernel_area_is_an_error() {
    let mut it = KernelMemIterator::new(ByteReader::from_bytes(b"1001-2000 r--p 00000000 00:00 0 \n"));
    assert!(matches!(it.next(), Some(Err(()))));
    assert!(it.next().is_none());
}
