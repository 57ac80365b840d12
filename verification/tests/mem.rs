use bandsocks::abi::{page_offset, page_round_down, page_round_up, TimeSpec, PAGE_SIZE};
use bandsocks::mem::{MappedPages, MappedRange, MemFlags, MemProtect, VPage};
use bandsocks::protocol::VPtr;

#[test]
fn page_arithmetic() {
    assert_eq!(PAGE_SIZE, 4096);
    assert_eq!(page_offset(0x1234), 0x234);
    assert_eq!(page_round_down(0x1234), 0x1000);
    assert_eq!(page_round_up(0x1234), 0x2000);
    assert_eq!(page_round_up(0x2000), 0x2000);
    assert_eq!(page_round_up(0), 0);
    assert_eq!(page_round_down(0xfff), 0);
}

#[test]
fn timespec_from_secs() {
    let t = TimeSpec::from_secs(5);
    assert_eq!(t.tv_sec, 5);
    assert_eq!(t.tv_nsec, 0);
}

#[test]
fn vpage_rounding() {
    assert_eq!(VPage::round_down(VPtr(0x5555)).ptr(), VPtr(0x5000));
    assert_eq!(VPage::round_up(VPtr(0x5555)).ptr(), VPtr(0x6000));
    assert_eq!(VPage::round_up(VPtr(0x6000)).ptr(), VPtr(0x6000));
    assert_eq!(VPage::offset(VPtr(0x5555)), 0x555);
    assert!(VPage::parse(VPtr(0x5555)).is_err());
    assert_eq!(VPage::parse(VPtr(0x7000)).unwrap().ptr(), VPtr(0x7000));
    let r = VPage::round_out(&(VPtr(0x1001)..VPtr(0x2001)));
    assert_eq!(r.start.ptr(), VPtr(0x1000));
    assert_eq!(r.end.ptr(), VPtr(0x3000));
    let p = VPage::round_down(VPtr(0x10000));
    assert_eq!(p.sub_pages(2).ptr(), VPtr(0xe000));
    assert_eq!(p.add_pages(3).ptr(), VPtr(0x13000));
    assert_eq!(VPage::null().ptr(), VPtr(0));
}

#[test]
fn mapped_pages_parse_and_overlap() {
    let aligned = MappedRange { mem: VPtr(0x1000)..VPtr(0x3000), file_start: 0x2000 };
    let pages = MappedPages::parse(&aligned).unwrap();
    assert_eq!(pages.mem_range(), VPtr(0x1000)..VPtr(0x3000));
    assert_eq!(pages.file_start(), 0x2000);
    let unaligned = MappedRange { mem: VPtr(0x1000)..VPtr(0x3000), file_start: 0x10 };
    assert!(MappedPages::parse(&unaligned).is_err());

    let other = MappedPages::parse(&MappedRange { mem: VPtr(0x2000)..VPtr(0x4000), file_start: 0 }).unwrap();
    let apart = MappedPages::parse(&MappedRange { mem: VPtr(0x3000)..VPtr(0x4000), file_start: 0 }).unwrap();
    assert!(pages.is_overlap(&other));
    assert!(!pages.is_overlap(&apart));
    let empty = MappedPages::anonymous(VPage::null()..VPage::null());
    assert!(empty.is_empty());
    assert!(!empty.is_overlap(&pages));

    let rounded = MappedPages::round_out(&MappedRange { mem: VPtr(0x1234)..VPtr(0x2345), file_start: 0x5234 });
    assert_eq!(rounded.mem_range(), VPtr(0x1000)..VPtr(0x3000));
    assert_eq!(rounded.file_start(), 0x5000);
}

#[test]
fn protection_and_flags() {
    assert_eq!(MemProtect { read: true, write: false, execute: true }.prot_flags(), 5);
    assert_eq!(MemProtect { read: true, write: true, execute: false }.prot_flags(), 3);
    assert_eq!(MemProtect { read: false, write: false, execute: false }.prot_flags(), 0);
    assert_eq!(MemFlags::ro().protect, MemProtect { read: true, write: false, execute: false });
    assert_eq!(MemFlags::rw().protect, MemProtect { read: true, write: true, execute: false });
    assert_eq!(MemFlags::exec().protect, MemProtect { read: true, write: false, execute: true });
    assert_eq!(MemFlags::rw().map_flags(), 0x02);
    assert_eq!(MemFlags { protect: MemFlags::ro().protect, mayshare: true }.map_flags(), 0x01);
}
