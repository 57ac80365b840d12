use bandsocks::binformat::elf64::{
    aux_vectors, detect, elf_header, elf_segment, initial_regs, initial_stack_words, stack_padding, ElfAux, ElfFile,
    ProgramHeader, PF_R, PF_W, PF_X, PT_INTERP, PT_LOAD,
};
use bandsocks::binformat::{script, FileHeader};
use bandsocks::protocol::{UserRegs, VPtr};

fn elf_bytes(e_type: u16) -> Vec<u8> {
    let mut b = vec![0u8; 64];
    b[0..4].copy_from_slice(&[0x7f, b'E', b'L', b'F']);
    b[4] = 2;
    b[5] = 1;
    b[6] = 1;
    b[16..18].copy_from_slice(&e_type.to_le_bytes());
    b[18..20].copy_from_slice(&62u16.to_le_bytes());
    b[24..32].copy_from_slice(&0x401000u64.to_le_bytes());
    b[32..40].copy_from_slice(&64u64.to_le_bytes());
    b[54..56].copy_from_slice(&56u16.to_le_bytes());
    b[56..58].copy_from_slice(&3u16.to_le_bytes());
    b
}

fn phdr(p_type: u32, p_flags: u32, p_offset: u64, p_vaddr: u64, p_filesz: u64, p_memsz: u64) -> ProgramHeader {
    ProgramHeader {
        p_type,
        p_flags,
        p_offset,
        p_vaddr,
        p_paddr: p_vaddr,
        p_filesz,
        p_memsz,
        p_align: 4096,
    }
}

#[test]
fn detects_elf64_executables() {
    assert!(detect(&FileHeader::from_prefix(&elf_bytes(2))));
    assert!(detect(&FileHeader::from_prefix(&elf_bytes(3))));
    assert!(!detect(&FileHeader::from_prefix(&elf_bytes(1))));
    let mut bad_class = elf_bytes(2);
    bad_class[4] = 1;
    assert!(!detect(&FileHeader::from_prefix(&bad_class)));
    assert!(!detect(&FileHeader::from_prefix(b"#!/bin/sh\n")));
    assert!(!detect(&FileHeader::from_prefix(&[])));
    assert!(!script::detect(&FileHeader::from_prefix(b"#!/bin/sh\n")));
}

#[test]
fn header_fields() {
    let fh = FileHeader::from_prefix(&elf_bytes(3));
    let h = elf_header(&fh);
    assert_eq!(h.e_type, 3);
    assert_eq!(h.e_machine, 62);
    assert_eq!(h.e_entry, 0x401000);
    assert_eq!(h.e_phoff, 64);
    assert_eq!(h.e_phentsize, 56);
    assert_eq!(h.e_phnum, 3);
    let file = ElfFile { header: fh };
    assert_eq!(file.program_header_range(), 0..3);
    assert_eq!(file.program_header_offset(2), 64 + 112);
}

#[test]
fn short_files_are_zero_padded() {
    let fh = FileHeader::from_prefix(&[1, 2, 3]);
    assert_eq!(&fh.bytes[0..4], &[1, 2, 3, 0]);
    assert_eq!(fh.bytes[255], 0);
}

#[test]
fn program_header_decoding() {
    let mut b = Vec::new();
    b.extend_from_slice(&PT_LOAD.to_le_bytes());
    b.extend_from_slice(&(PF_R | PF_X).to_le_bytes());
    for v in [0x1000u64, 0x401000, 0x401000, 0x234, 0x500, 0x1000] {
        b.extend_from_slice(&v.to_le_bytes());
    }
    let p = ProgramHeader::parse(&b);
    assert_eq!(p, phdr(PT_LOAD, PF_R | PF_X, 0x1000, 0x401000, 0x234, 0x500));
}

#[test]
fn segments_and_header_location() {
    let text = phdr(PT_LOAD, PF_R | PF_X, 0x1000, 0x401000, 0x234, 0x500);
    let seg = elf_segment(&text).unwrap();
    assert_eq!(seg.mapped_range.mem, VPtr(0x401000)..VPtr(0x401234));
    assert_eq!(seg.mapped_range.file_start, 0x1000);
    assert_eq!(seg.mem_size, 0x500 - 0x234);
    assert!(seg.protect.read && !seg.protect.write && seg.protect.execute);

    let misaligned = phdr(PT_LOAD, PF_R | PF_W, 0x1010, 0x402000, 0x10, 0x10);
    assert_eq!(elf_segment(&misaligned).err().map(|e| e.0), Some(-22));

    let interp = phdr(PT_INTERP, PF_R, 0x238, 0x400238, 0x1c, 0x1c);
    let file = ElfFile { header: FileHeader::from_prefix(&elf_bytes(2)) };
    assert_eq!(file.locate_header(&[interp, text]), VPtr(0x400000));
    assert_eq!(file.locate_header(&[interp]), VPtr(0));
    let found = file.interp_segment(&[text, interp]).unwrap().unwrap();
    assert_eq!(found.mapped_range.mem, VPtr(0x400238)..VPtr(0x400254));
    assert!(file.interp_segment(&[text]).unwrap().is_none());
}

#[test]
fn aux_vector_layout() {
    let h = elf_header(&FileHeader::from_prefix(&elf_bytes(3)));
    let aux = ElfAux::new(&h, VPtr(0x400000), 0x10000);
    assert_eq!(aux.phdr, VPtr(0x400000 + 64 + 0x10000));
    assert_eq!(aux.base, VPtr(0x410000));
    assert_eq!(aux.entry, VPtr(0x411000));
    assert_eq!(aux.phnum, 3);
    let v = aux_vectors(0x7fff0000, 0xbfebfbff, &aux, 0x1111, 0x2222, 0x3333);
    assert_eq!(v.len(), 43);
    assert_eq!(v[0], 0);
    assert_eq!(&v[1..5], &[33, 0x7fff0000, 16, 0xbfebfbff]);
    assert_eq!(&v[5..7], &[6, 4096]);
    assert_eq!(&v[9..11], &[3, 0x410040]);
    assert_eq!(&v[31..33], &[25, 0x1111]);
    assert_eq!(&v[35..37], &[31, 0x2222]);
    assert_eq!(&v[37..39], &[15, 0x3333]);
    assert_eq!(&v[39..43], &[0, 0, 0, 0]);
}

#[test]
fn stack_alignment_padding() {
    assert_eq!(stack_padding(0), 0);
    assert_eq!(stack_padding(8), 8);
    assert_eq!(stack_padding(24), 8);
    assert_eq!(stack_padding(32), 0);
    assert_eq!(stack_padding(33), 15);
}

#[test]
fn registers_for_a_new_program() {
    let prev = UserRegs { ax: 5, cs: 0x33, ss: 0x2b, ds: 7, flags: 0x246, fs_base: 9, ..Default::default() };
    let r = initial_regs(&prev, VPtr(0x401000), VPtr(0x7ffffff0));
    assert_eq!(r.ip, 0x401000);
    assert_eq!(r.sp, 0x7ffffff0);
    assert_eq!((r.cs, r.ss, r.ds, r.es, r.flags), (0x33, 0x2b, 7, 7, 0x246));
    assert_eq!((r.ax, r.fs_base), (0, 0));
}

#[test]
fn initial_stack_layout() {
    let aux = [0usize, 33, 0x7fff0000, 0, 0, 0, 0];
    let (words, padding) = initial_stack_words(&[0x1000, 0x1008], &[0x2000], &aux);
    assert_eq!(words, vec![2, 0x1000, 0x1008, 0, 0x2000, 0, 33, 0x7fff0000, 0, 0, 0, 0]);
    assert_eq!(padding, 0);
    let (words, padding) = initial_stack_words(&[0x1000], &[], &aux);
    assert_eq!(words.len(), 10);
    assert_eq!(padding, 0);
    let (words, padding) = initial_stack_words(&[], &[], &aux[..6]);
    assert_eq!(words, vec![0, 0, 0, 33, 0x7fff0000, 0, 0, 0]);
    assert_eq!(padding, 0);
    let (words, padding) = initial_stack_words(&[], &[], &aux[..5]);
    assert_eq!(words.len(), 7);
    assert_eq!(padding, 8);
}
