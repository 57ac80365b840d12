use bandsocks::bpf::{
    imm, jump, jump_always, load, ret, stmt, store, ProgramBuffer, SockFilter, BPF_ABS, BPF_IMM,
    BPF_JA, BPF_JEQ, BPF_JMP, BPF_K, BPF_LD, BPF_RET, BPF_ST, BPF_W,
};

fn sf(code: u16, k: u32, jt: u8, jf: u8) -> SockFilter {
    SockFilter { code, k, jt, jf }
}

#[test]
fn instruction_encodings() {
    assert_eq!(stmt(0x15, 7), sf(0x15, 7, 0, 0));
    assert_eq!(jump(0x15, 7, 2, 3), sf(0x15, 7, 2, 3));
    assert_eq!(jump_always(9), sf(BPF_JMP + BPF_JA, 9, 0, 0));
    assert_eq!(imm(0x1234), sf(BPF_LD + BPF_W + BPF_IMM, 0x1234, 0, 0));
    assert_eq!(ret(0x7fff0000), sf(BPF_RET + BPF_K, 0x7fff0000, 0, 0));
    assert_eq!(load(4), sf(BPF_LD + BPF_W + BPF_ABS, 4, 0, 0));
    assert_eq!(store(2), sf(BPF_ST, 2, 0, 0));
    assert_eq!(BPF_JMP + BPF_JA, 0x05);
    assert_eq!(BPF_RET + BPF_K, 0x06);
    assert_eq!(BPF_LD + BPF_W + BPF_ABS, 0x20);
}

#[test]
fn empty_program() {
    let p = ProgramBuffer::new();
    assert_eq!(p.to_filter_prog().len(), 0);
}

#[test]
fn block_appends_in_order() {
    let mut p = ProgramBuffer::new();
    p.inst(load(0));
    p.block(&[ret(1), ret(2)]);
    assert_eq!(p.to_filter_prog(), &[load(0), ret(1), ret(2)]);
}

#[test]
fn if_eq_skips_block_on_mismatch() {
    let mut p = ProgramBuffer::new();
    p.if_eq(59, &[imm(1), ret(0)]);
    assert_eq!(
        p.to_filter_prog(),
        &[sf(BPF_JMP + BPF_JEQ + BPF_K, 59, 0, 2), imm(1), ret(0)]
    );
}

#[test]
fn if_any_eq_jumps_into_block() {
    let mut p = ProgramBuffer::new();
    p.if_any_eq(&[1, 2, 3], &[ret(5)]);
    assert_eq!(
        p.to_filter_prog(),
        &[
            sf(BPF_JMP + BPF_JEQ + BPF_K, 1, 3, 0),
            sf(BPF_JMP + BPF_JEQ + BPF_K, 2, 2, 0),
            sf(BPF_JMP + BPF_JEQ + BPF_K, 3, 1, 0),
            jump_always(1),
            ret(5),
        ]
    );
}
