//! Building classic BPF programs for seccomp filters.
use vstd::prelude::*;

verus! {

/// One BPF instruction, as in `struct sock_filter`.
#[derive(Debug, Copy, Clone, PartialEq, Eq, Structural)]
pub struct SockFilter {
    pub code: u16,
    pub jt: u8,
    pub jf: u8,
    pub k: u32,
}

// linux/include/uapi/linux/bpf_common.h
pub const BPF_LD: u16 = 0x00;
pub const BPF_ST: u16 = 0x02;
pub const BPF_JMP: u16 = 0x05;
pub const BPF_RET: u16 = 0x06;
pub const BPF_W: u16 = 0x00;
pub const BPF_IMM: u16 = 0x00;
pub const BPF_ABS: u16 = 0x20;
pub const BPF_JA: u16 = 0x00;
pub const BPF_JEQ: u16 = 0x10;
pub const BPF_K: u16 = 0x00;

/// The largest number of instructions a program may hold.
pub const SIZE_LIMIT: usize = 4096;

/// A filter program under construction.
pub struct ProgramBuffer {
    len: u16,
    array: Vec<SockFilter>,
}

pub open spec fn jump_insn(code: u16, k: u32, jt: u8, jf: u8) -> SockFilter {
    SockFilter { code, k, jt, jf }
}

pub open spec fn stmt_insn(code: u16, k: u32) -> SockFilter {
    SockFilter { code, k, jt: 0, jf: 0 }
}

/// The comparisons of `if_any_eq`: the `i`-th compares with `k_list[i]` and, when it
/// matches, jumps past the remaining comparisons and the skip to the start of the block.
pub open spec fn any_eq_tests(k_list: Seq<usize>) -> Seq<SockFilter> {
    Seq::new(
        k_list.len(),
        |i: int| jump_insn((BPF_JMP + BPF_JEQ + BPF_K) as u16, k_list[i] as u32, (k_list.len() - i) as u8, 0),
    )
}

/// Where control goes from `pc` in `prog` with the accumulator holding `a`, following
/// instructions until the first position at or beyond `end`: a comparison for equality
/// with `k` skips `jt` instructions when they are equal and `jf` otherwise, an
/// unconditional jump skips `k`, and any other instruction goes on to the next.
pub open spec fn run_jumps(prog: Seq<SockFilter>, pc: int, end: int, a: u32) -> int
    decreases end - pc,
{
    if pc < 0 || pc >= end || pc >= prog.len() {
        pc
    } else {
        let i = prog[pc];
        let next = if i.code == (BPF_JMP + BPF_JEQ + BPF_K) as u16 {
            if a == i.k {
                pc + 1 + i.jt
            } else {
                pc + 1 + i.jf
            }
        } else if i.code == (BPF_JMP + BPF_JA) as u16 {
            pc + 1 + i.k
        } else {
            pc + 1
        };
        if next >= end {
            next
        } else {
            run_jumps(prog, next, end, a)
        }
    }
}

/// Whether `a` is one of the values of `k_list` from index `from` on, as 32-bit words.
pub open spec fn matches_from(k_list: Seq<usize>, from: int, a: u32) -> bool {
    exists|j: int| from <= j < k_list.len() && #[trigger] (k_list[j] as u32) == a
}

proof fn lemma_any_eq_tests_from(
    k_list: Seq<usize>,
    block: Seq<SockFilter>,
    prefix: Seq<SockFilter>,
    a: u32,
    i: int,
)
    requires
        k_list.len() <= 255,
        block.len() <= u32::MAX,
        0 <= i <= k_list.len(),
    ensures
        ({
            let prog = prefix + any_eq_tests(k_list).push(
                stmt_insn((BPF_JMP + BPF_JA) as u16, block.len() as u32),
            ) + block;
            let end = (prefix.len() + k_list.len() + 1) as int;
            run_jumps(prog, prefix.len() + i, end, a) == if matches_from(k_list, i, a) {
                end
            } else {
                end + block.len()
            }
        }),
    decreases k_list.len() - i,
{
    let tests = any_eq_tests(k_list).push(stmt_insn((BPF_JMP + BPF_JA) as u16, block.len() as u32));
    let prog = prefix + tests + block;
    let n = k_list.len();
    let pc = prefix.len() + i;
    assert(prog[pc] == tests[i]);
    if i == n {
        assert(!matches_from(k_list, i, a));
    } else {
        lemma_any_eq_tests_from(k_list, block, prefix, a, i + 1);
        if (k_list[i] as u32) == a {
            assert(matches_from(k_list, i, a));
        } else {
            assert(matches_from(k_list, i, a) == matches_from(k_list, i + 1, a)) by {
                if matches_from(k_list, i, a) {
                    let j = choose|j: int| i <= j < k_list.len() && #[trigger] (k_list[j] as u32) == a;
                    assert(i + 1 <= j);
                }
            }
        }
    }
}

/// The comparisons that `if_any_eq` puts in front of a block send control to the start
/// of the block exactly when the accumulator equals one of the values (as 32-bit words),
/// and otherwise to just after the block.
pub proof fn lemma_if_any_eq_runs(
    k_list: Seq<usize>,
    block: Seq<SockFilter>,
    prefix: Seq<SockFilter>,
    a: u32,
)
    requires
        k_list.len() <= 255,
        block.len() <= u32::MAX,
    ensures
        ({
            let prog = prefix + any_eq_tests(k_list).push(
                stmt_insn((BPF_JMP + BPF_JA) as u16, block.len() as u32),
            ) + block;
            let end = (prefix.len() + k_list.len() + 1) as int;
            run_jumps(prog, prefix.len() as int, end, a) == if matches_from(k_list, 0, a) {
                end
            } else {
                end + block.len()
            }
        }),
{
    lemma_any_eq_tests_from(k_list, block, prefix, a, 0);
}

/// The comparison that `if_eq` puts in front of a block sends control to the start of
/// the block exactly when the accumulator equals `k` (as a 32-bit word), and otherwise
/// to just after the block.
pub proof fn lemma_if_eq_runs(k: usize, block: Seq<SockFilter>, prefix: Seq<SockFilter>, a: u32)
    requires
        block.len() <= 255,
    ensures
        ({
            let prog = prefix.push(
                jump_insn((BPF_JMP + BPF_JEQ + BPF_K) as u16, k as u32, 0, block.len() as u8),
            ) + block;
            let end = (prefix.len() + 1) as int;
            run_jumps(prog, prefix.len() as int, end, a) == if (k as u32) == a {
                end
            } else {
                end + block.len()
            }
        }),
{
    let prog = prefix.push(
        jump_insn((BPF_JMP + BPF_JEQ + BPF_K) as u16, k as u32, 0, block.len() as u8),
    ) + block;
    assert(prog[prefix.len() as int] == jump_insn((BPF_JMP + BPF_JEQ + BPF_K) as u16, k as u32, 0, block.len() as u8));
}

/// The instructions of a program that held `prefix` after `inst` was called with each of
/// `insts` in turn.
pub open spec fn after_insts(prefix: Seq<SockFilter>, insts: Seq<SockFilter>) -> Seq<SockFilter>
    decreases insts.len(),
{
    if insts.len() == 0 {
        prefix
    } else {
        after_insts(prefix, insts.drop_last()).push(insts.last())
    }
}

/// A program made by `new` and then `inst` with each of `insts` in turn holds exactly
/// `insts`, in the order of the calls, and that is what `to_filter_prog` hands over.
pub proof fn lemma_new_then_insts(insts: Seq<SockFilter>)
    ensures
        after_insts(Seq::<SockFilter>::empty(), insts) == insts,
    decreases insts.len(),
{
    if insts.len() > 0 {
        lemma_new_then_insts(insts.drop_last());
        assert(insts.drop_last().push(insts.last()) =~= insts);
    }
}

impl ProgramBuffer {
    pub closed spec fn wf(&self) -> bool {
        self.len <= SIZE_LIMIT && self.array.len() == SIZE_LIMIT
    }

    /// The instructions added so far.
    pub closed spec fn instructions(&self) -> Seq<SockFilter> {
        self.array@.take(self.len as int)
    }

    pub fn new() -> (r: Self)
        ensures
            r.wf(),
            r.instructions() == Seq::<SockFilter>::empty(),
    {
        let empty = SockFilter { code: 0, k: 0, jt: 0, jf: 0 };
        let mut array: Vec<SockFilter> = Vec::new();
        let mut i: usize = 0;
        while i < SIZE_LIMIT
            invariant
                array.len() == i,
                i <= SIZE_LIMIT,
            decreases SIZE_LIMIT - i,
        {
            array.push(empty);
            i = i + 1;
        }
        let r = ProgramBuffer { len: 0, array };
        assert(r.instructions() =~= Seq::<SockFilter>::empty());
        r
    }

    /// The finished program, to hand to the kernel.
    pub fn to_filter_prog(&self) -> (r: &[SockFilter])
        requires
            self.wf(),
        ensures
            r@ == self.instructions(),
    {
        let s = vstd::slice::slice_subrange(self.array.as_slice(), 0, self.len as usize);
        assert(s@ =~= self.instructions());
        s
    }

    /// Append one instruction.
    pub fn inst(&mut self, instruction: SockFilter)
        requires
            old(self).wf(),
            old(self).instructions().len() < SIZE_LIMIT,
        ensures
            final(self).wf(),
            final(self).instructions() == old(self).instructions().push(instruction),
    {
        let idx = self.len as usize;
        self.array.set(idx, instruction);
        self.len = self.len + 1;
        assert(self.instructions() =~= old(self).instructions().push(instruction));
    }

    /// Append a sequence of instructions.
    pub fn block(&mut self, block: &[SockFilter])
        requires
            old(self).wf(),
            old(self).instructions().len() + block@.len() <= SIZE_LIMIT,
        ensures
            final(self).wf(),
            final(self).instructions() == old(self).instructions() + block@,
    {
        let mut i: usize = 0;
        while i < block.len()
            invariant
                self.wf(),
                i <= block@.len(),
                old(self).instructions().len() + block@.len() <= SIZE_LIMIT,
                self.instructions() == old(self).instructions() + block@.take(i as int),
            decreases block@.len() - i,
        {
            self.inst(block[i]);
            assert(block@.take(i + 1) =~= block@.take(i as int).push(block@[i as int]));
            i = i + 1;
        }
        assert(block@.take(block@.len() as int) =~= block@);
    }

    /// Run `block` only when the accumulator equals `k`.
    pub fn if_eq(&mut self, k: usize, block: &[SockFilter])
        requires
            old(self).wf(),
            block@.len() <= 255,
            old(self).instructions().len() + 1 + block@.len() <= SIZE_LIMIT,
        ensures
            final(self).wf(),
            final(self).instructions() == old(self).instructions().push(
                jump_insn((BPF_JMP + BPF_JEQ + BPF_K) as u16, k as u32, 0, block@.len() as u8),
            ) + block@,
    {
        let to_end_of_block: u8 = block.len() as u8;
        self.inst(jump(BPF_JMP + BPF_JEQ + BPF_K, k as u32, 0, to_end_of_block));
        self.block(block);
    }

    /// Run `block` when the accumulator equals any value of `k_list`.
    pub fn if_any_eq(&mut self, k_list: &[usize], block: &[SockFilter])
        requires
            old(self).wf(),
            k_list@.len() <= 255,
            old(self).instructions().len() + k_list@.len() + 1 + block@.len() <= SIZE_LIMIT,
        ensures
            final(self).wf(),
            final(self).instructions() == old(self).instructions() + any_eq_tests(k_list@).push(
                stmt_insn((BPF_JMP + BPF_JA) as u16, block@.len() as u32),
            ) + block@,
    {
        let mut to_block: u8 = k_list.len() as u8;
        let mut i: usize = 0;
        while i < k_list.len()
            invariant
                self.wf(),
                i <= k_list@.len(),
                k_list@.len() <= 255,
                to_block == k_list@.len() - i,
                old(self).instructions().len() + k_list@.len() + 1 + block@.len() <= SIZE_LIMIT,
                self.instructions() == old(self).instructions() + any_eq_tests(k_list@).take(
                    i as int,
                ),
            decreases k_list@.len() - i,
        {
            let k = k_list[i];
            self.inst(jump(BPF_JMP + BPF_JEQ + BPF_K, k as u32, to_block, 0));
            assert(any_eq_tests(k_list@).take(i + 1) =~= any_eq_tests(k_list@).take(i as int).push(
                any_eq_tests(k_list@)[i as int],
            ));
            to_block = to_block - 1;
            i = i + 1;
        }
        assert(any_eq_tests(k_list@).take(k_list@.len() as int) =~= any_eq_tests(k_list@));
        self.inst(jump_always(block.len() as u32));
        self.block(block);
    }
}

pub fn stmt(code: u16, k: u32) -> (r: SockFilter)
    ensures
        r == stmt_insn(code, k),
{
    SockFilter { code, k, jt: 0, jf: 0 }
}

pub fn jump(code: u16, k: u32, jt: u8, jf: u8) -> (r: SockFilter)
    ensures
        r == jump_insn(code, k, jt, jf),
{
    SockFilter { code, k, jt, jf }
}

pub fn jump_always(k: u32) -> (r: SockFilter)
    ensures
        r == stmt_insn((BPF_JMP + BPF_JA) as u16, k),
{
    stmt(BPF_JMP + BPF_JA, k)
}

/// Load an immediate value into the accumulator.
pub fn imm(k: u32) -> (r: SockFilter)
    ensures
        r == stmt_insn((BPF_LD + BPF_W + BPF_IMM) as u16, k),
{
    stmt(BPF_LD + BPF_W + BPF_IMM, k)
}

/// Return `k` as the filter's verdict.
pub fn ret(k: u32) -> (r: SockFilter)
    ensures
        r == stmt_insn((BPF_RET + BPF_K) as u16, k),
{
    stmt(BPF_RET + BPF_K, k)
}

/// Load the word at offset `k` of the syscall data into the accumulator.
pub fn load(k: usize) -> (r: SockFilter)
    ensures
        r == stmt_insn((BPF_LD + BPF_W + BPF_ABS) as u16, k as u32),
{
    stmt(BPF_LD + BPF_W + BPF_ABS, k as u32)
}

/// Store the accumulator into scratch memory slot `k`.
pub fn store(k: usize) -> (r: SockFilter)
    ensures
        r == stmt_insn(BPF_ST, k as u32),
{
    stmt(BPF_ST, k as u32)
}

} // verus!
