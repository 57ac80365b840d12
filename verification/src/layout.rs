//! The memory layout that the kernel keeps for a process, as the loader rebuilds it
//! for a new program and then hands it to the kernel with `prctl(PR_SET_MM, ...)`.
use vstd::prelude::*;
use crate::abi;
use crate::abi::{
    PR_SET_MM, PR_SET_MM_ARG_END, PR_SET_MM_ARG_START, PR_SET_MM_AUXV, PR_SET_MM_BRK,
    PR_SET_MM_END_CODE, PR_SET_MM_END_DATA, PR_SET_MM_ENV_END, PR_SET_MM_ENV_START,
    PR_SET_MM_EXE_FILE, PR_SET_MM_START_BRK, PR_SET_MM_START_CODE, PR_SET_MM_START_DATA,
    PR_SET_MM_START_STACK,
};
use crate::protocol::{Errno, VPtr};

verus! {

#[derive(Debug, Clone, Copy, PartialEq, Eq, Structural)]
pub struct MemLayout {
    pub start_code: VPtr,
    pub end_code: VPtr,
    pub start_data: VPtr,
    pub end_data: VPtr,
    pub start_stack: VPtr,
    pub start_brk: VPtr,
    pub brk: VPtr,
    pub arg_start: VPtr,
    pub arg_end: VPtr,
    pub env_start: VPtr,
    pub env_end: VPtr,
    pub auxv_ptr: VPtr,
    pub auxv_len: usize,
    pub exe_file: VPtr,
}

pub open spec fn min(a: usize, b: usize) -> usize {
    if a <= b { a } else { b }
}

pub open spec fn max(a: usize, b: usize) -> usize {
    if a >= b { a } else { b }
}

/// The argument lists of the `prctl` calls that install `l`, in the order they are made.
pub open spec fn install_args(l: MemLayout) -> Seq<Seq<isize>> {
    seq![
        seq![PR_SET_MM, PR_SET_MM_START_CODE, l.start_code.0 as isize, 0isize],
        seq![PR_SET_MM, PR_SET_MM_END_CODE, l.end_code.0 as isize, 0isize],
        seq![PR_SET_MM, PR_SET_MM_START_DATA, l.start_data.0 as isize, 0isize],
        seq![PR_SET_MM, PR_SET_MM_END_DATA, l.end_data.0 as isize, 0isize],
        seq![PR_SET_MM, PR_SET_MM_START_STACK, l.start_stack.0 as isize, 0isize],
        seq![PR_SET_MM, PR_SET_MM_START_BRK, l.start_brk.0 as isize, 0isize],
        seq![PR_SET_MM, PR_SET_MM_BRK, l.brk.0 as isize, 0isize],
        seq![PR_SET_MM, PR_SET_MM_ARG_START, l.arg_start.0 as isize, 0isize],
        seq![PR_SET_MM, PR_SET_MM_ARG_END, l.arg_end.0 as isize, 0isize],
        seq![PR_SET_MM, PR_SET_MM_ENV_START, l.env_start.0 as isize, 0isize],
        seq![PR_SET_MM, PR_SET_MM_ENV_END, l.env_end.0 as isize, 0isize],
        seq![PR_SET_MM, PR_SET_MM_EXE_FILE, l.exe_file.0 as isize, 0isize],
        seq![PR_SET_MM, PR_SET_MM_AUXV, l.auxv_ptr.0 as isize, l.auxv_len as isize],
    ]
}

/// Among the `prctl` calls `calls`, `option` is set: some call names it, and every call
/// naming it is a `PR_SET_MM` call that passes `value` and then `extra`.
pub open spec fn sets_mm_option(calls: Seq<Seq<isize>>, option: isize, value: isize, extra: isize) -> bool {
    &&& exists|i: int| 0 <= i < calls.len() && (#[trigger] calls[i]).len() == 4 && calls[i][1] == option
    &&& forall|i: int|
        0 <= i < calls.len() && (#[trigger] calls[i]).len() == 4 && calls[i][1] == option ==> calls[i][0]
            == PR_SET_MM && calls[i][2] == value && calls[i][3] == extra
}

/// `calls` hand `l` to the kernel: thirteen calls of four words, each setting one field
/// of the layout through the option that names that field.
pub open spec fn installs_layout(calls: Seq<Seq<isize>>, l: MemLayout) -> bool {
    &&& calls.len() == 13
    &&& forall|i: int| 0 <= i < calls.len() ==> (#[trigger] calls[i]).len() == 4
    &&& sets_mm_option(calls, PR_SET_MM_START_CODE, l.start_code.0 as isize, 0)
    &&& sets_mm_option(calls, PR_SET_MM_END_CODE, l.end_code.0 as isize, 0)
    &&& sets_mm_option(calls, PR_SET_MM_START_DATA, l.start_data.0 as isize, 0)
    &&& sets_mm_option(calls, PR_SET_MM_END_DATA, l.end_data.0 as isize, 0)
    &&& sets_mm_option(calls, PR_SET_MM_START_STACK, l.start_stack.0 as isize, 0)
    &&& sets_mm_option(calls, PR_SET_MM_START_BRK, l.start_brk.0 as isize, 0)
    &&& sets_mm_option(calls, PR_SET_MM_BRK, l.brk.0 as isize, 0)
    &&& sets_mm_option(calls, PR_SET_MM_ARG_START, l.arg_start.0 as isize, 0)
    &&& sets_mm_option(calls, PR_SET_MM_ARG_END, l.arg_end.0 as isize, 0)
    &&& sets_mm_option(calls, PR_SET_MM_ENV_START, l.env_start.0 as isize, 0)
    &&& sets_mm_option(calls, PR_SET_MM_ENV_END, l.env_end.0 as isize, 0)
    &&& sets_mm_option(calls, PR_SET_MM_EXE_FILE, l.exe_file.0 as isize, 0)
    &&& sets_mm_option(calls, PR_SET_MM_AUXV, l.auxv_ptr.0 as isize, l.auxv_len as isize)
}

/// Installing a layout sets each of its fields through the `PR_SET_MM` option that names
/// that field: the start and end of code, data, arguments and environment, the stack,
/// the break, the executable and the auxiliary vector with its length.
pub proof fn lemma_install_args_set_each_field(l: MemLayout)
    ensures
        installs_layout(install_args(l), l),
{
    let c = install_args(l);
    assert forall|i: int| 0 <= i < 13 implies (#[trigger] c[i]).len() == 4 && c[i][0] == PR_SET_MM
        && c[i][1] == (if i < 11 {
        i + 1
    } else if i == 11 {
        13
    } else {
        12
    }) by {
        assert(i == 0 || i == 1 || i == 2 || i == 3 || i == 4 || i == 5 || i == 6 || i == 7 || i
            == 8 || i == 9 || i == 10 || i == 11 || i == 12);
    }
    assert(c[0][2] == l.start_code.0 as isize && c[0][3] == 0);
    assert(c[1][2] == l.end_code.0 as isize && c[1][3] == 0);
    assert(c[2][2] == l.start_data.0 as isize && c[2][3] == 0);
    assert(c[3][2] == l.end_data.0 as isize && c[3][3] == 0);
    assert(c[4][2] == l.start_stack.0 as isize && c[4][3] == 0);
    assert(c[5][2] == l.start_brk.0 as isize && c[5][3] == 0);
    assert(c[6][2] == l.brk.0 as isize && c[6][3] == 0);
    assert(c[7][2] == l.arg_start.0 as isize && c[7][3] == 0);
    assert(c[8][2] == l.arg_end.0 as isize && c[8][3] == 0);
    assert(c[9][2] == l.env_start.0 as isize && c[9][3] == 0);
    assert(c[10][2] == l.env_end.0 as isize && c[10][3] == 0);
    assert(c[11][2] == l.exe_file.0 as isize && c[11][3] == 0);
    assert(c[12][2] == l.auxv_ptr.0 as isize && c[12][3] == l.auxv_len as isize);
}

impl MemLayout {
    /// A layout with empty code and data ranges (their starts above their ends), no
    /// heap, and the stack at `start_stack`.
    pub fn new(start_stack: VPtr) -> (r: MemLayout)
        ensures
            r == (MemLayout {
                start_code: VPtr(usize::MAX),
                end_code: VPtr(0),
                start_data: VPtr(usize::MAX),
                end_data: VPtr(0),
                start_stack,
                start_brk: VPtr(0),
                brk: VPtr(0),
                arg_start: VPtr(0),
                arg_end: VPtr(0),
                env_start: VPtr(0),
                env_end: VPtr(0),
                auxv_ptr: VPtr(0),
                auxv_len: 0,
                exe_file: VPtr(0),
            }),
    {
        let null = VPtr(0);
        let ptr_max = VPtr(usize::MAX);
        MemLayout {
            start_code: ptr_max,
            end_code: null,
            start_data: ptr_max,
            end_data: null,
            start_stack,
            start_brk: null,
            brk: null,
            arg_start: null,
            arg_end: null,
            env_start: null,
            env_end: null,
            auxv_ptr: null,
            auxv_len: 0,
            exe_file: null,
        }
    }

    /// Widen the code range to cover `length` bytes at `addr`.
    pub fn extend_code(&mut self, addr: VPtr, length: usize)
        requires
            addr.0 + length <= usize::MAX,
        ensures
            *final(self) == (MemLayout {
                start_code: VPtr(min(old(self).start_code.0, addr.0)),
                end_code: VPtr(max(old(self).end_code.0, (addr.0 + length) as usize)),
                ..*old(self)
            }),
    {
        if addr.0 < self.start_code.0 {
            self.start_code = addr;
        }
        let end = addr.add(length);
        if end.0 > self.end_code.0 {
            self.end_code = end;
        }
    }

    /// Widen the data range to cover `length` bytes at `addr`.
    pub fn extend_data(&mut self, addr: VPtr, length: usize)
        requires
            addr.0 + length <= usize::MAX,
        ensures
            *final(self) == (MemLayout {
                start_data: VPtr(min(old(self).start_data.0, addr.0)),
                end_data: VPtr(max(old(self).end_data.0, (addr.0 + length) as usize)),
                ..*old(self)
            }),
    {
        if addr.0 < self.start_data.0 {
            self.start_data = addr;
        }
        let end = addr.add(length);
        if end.0 > self.end_data.0 {
            self.end_data = end;
        }
    }

    /// Move the heap up past `length` bytes of memory at `addr`.
    pub fn extend_memory(&mut self, addr: VPtr, length: usize)
        requires
            addr.0 + length <= usize::MAX,
        ensures
            *final(self) == (MemLayout {
                brk: VPtr(max(old(self).brk.0, (addr.0 + length) as usize)),
                start_brk: VPtr(max(old(self).start_brk.0, (addr.0 + length) as usize)),
                ..*old(self)
            }),
    {
        let end = addr.add(length);
        if end.0 > self.brk.0 {
            self.brk = end;
        }
        if end.0 > self.start_brk.0 {
            self.start_brk = end;
        }
    }

    /// Start the heap a random number of pages above where it would start, as the
    /// kernel does: `random` chooses up to `BRK_RND_MASK` pages, and the result is
    /// rounded up to a page.
    pub fn randomize_brk(&mut self, random: usize)
        requires
            ({
                let addr = old(self).start_brk.0 + (random & abi::BRK_RND_MASK) * 4096;
                &&& addr <= usize::MAX
                &&& addr % 4096 == 0 || addr - addr % 4096 + 4096 <= usize::MAX
            }),
        ensures
            ({
                let addr = old(self).start_brk.0 + (random & abi::BRK_RND_MASK) * 4096;
                let rounded = if addr % 4096 == 0 { addr } else { addr - addr % 4096 + 4096 };
                &&& final(self).brk.0 == rounded
                &&& final(self).start_brk.0 == rounded
                &&& *final(self) == (MemLayout {
                    brk: final(self).brk,
                    start_brk: final(self).start_brk,
                    ..*old(self)
                })
            }),
    {
        let random_offset = random & abi::BRK_RND_MASK;
        assert(random_offset <= 0x1fff) by (bit_vector)
            requires
                random_offset == random & 0x1fff,
        ;
        assert(random_offset << 12 == random_offset * 4096) by (bit_vector)
            requires
                random_offset <= 0x1fff,
        ;
        let brk = VPtr(abi::page_round_up(self.start_brk.0 + (random_offset << abi::PAGE_SHIFT)));
        self.brk = brk;
        self.start_brk = brk;
    }

    /// The arguments of the `prctl(PR_SET_MM, ...)` calls that hand this layout to the
    /// kernel, one call per field, in order.
    pub fn install_args(&self) -> (r: [[isize; 4]; 13])
        ensures
            forall|i: int| 0 <= i < 13 ==> (#[trigger] r@[i])@ == install_args(*self)[i],
            installs_layout(r@.map_values(|a: [isize; 4]| a@), *self),
    {
        let r = [
            [PR_SET_MM, PR_SET_MM_START_CODE, self.start_code.0 as isize, 0],
            [PR_SET_MM, PR_SET_MM_END_CODE, self.end_code.0 as isize, 0],
            [PR_SET_MM, PR_SET_MM_START_DATA, self.start_data.0 as isize, 0],
            [PR_SET_MM, PR_SET_MM_END_DATA, self.end_data.0 as isize, 0],
            [PR_SET_MM, PR_SET_MM_START_STACK, self.start_stack.0 as isize, 0],
            [PR_SET_MM, PR_SET_MM_START_BRK, self.start_brk.0 as isize, 0],
            [PR_SET_MM, PR_SET_MM_BRK, self.brk.0 as isize, 0],
            [PR_SET_MM, PR_SET_MM_ARG_START, self.arg_start.0 as isize, 0],
            [PR_SET_MM, PR_SET_MM_ARG_END, self.arg_end.0 as isize, 0],
            [PR_SET_MM, PR_SET_MM_ENV_START, self.env_start.0 as isize, 0],
            [PR_SET_MM, PR_SET_MM_ENV_END, self.env_end.0 as isize, 0],
            [PR_SET_MM, PR_SET_MM_EXE_FILE, self.exe_file.0 as isize, 0],
            [PR_SET_MM, PR_SET_MM_AUXV, self.auxv_ptr.0 as isize, self.auxv_len as isize],
        ];
        proof {
            let s = install_args(*self);
            assert forall|i: int| 0 <= i < 13 implies (#[trigger] r@[i])@ == s[i] by {
                assert(r@[i]@ =~= s[i]);
            }
            lemma_install_args_set_each_field(*self);
            assert(r@.map_values(|a: [isize; 4]| a@) =~= s);
        }
        r
    }

    /// What one `prctl` call of the installation means: success on 0, and any other
    /// result is the error that stops it.
    pub fn install_result(result: isize) -> (r: Result<(), Errno>)
        ensures
            result == 0 ==> r is Ok,
            result != 0 ==> r == Err::<(), Errno>(Errno(result as i32)),
    {
        if result != 0 {
            Err(Errno(result as i32))
        } else {
            Ok(())
        }
    }
}

/// The number of `prctl` calls that install a layout.
pub const INSTALL_CALLS: usize = 13;

/// Where the installation stands after one `prctl` call.
#[derive(Debug, Clone, Copy, PartialEq, Eq)]
pub enum InstallStep {
    /// Make the call with this index next.
    Next(usize),
    /// The installation is over, with this result.
    Done(Result<(), Errno>),
}

/// The result of the installation when the calls from index `i` on return `results`
/// (one result per call, from `i` to the last): it stops at the first call that does not
/// return 0, with that result as the error, and succeeds when every call returns 0.
pub open spec fn install_outcome(results: Seq<isize>, i: int) -> Result<(), Errno>
    decreases INSTALL_CALLS - i,
{
    if i < 0 || i >= INSTALL_CALLS || i >= results.len() {
        Ok(())
    } else if results[i] != 0 {
        Err(Errno(results[i] as i32))
    } else {
        install_outcome(results, i + 1)
    }
}

/// The step after call `i` returned `result`: an error stops the installation, and
/// success goes on to the next call, or ends it after the last.
pub fn install_step(i: usize, result: isize) -> (r: InstallStep)
    requires
        i < INSTALL_CALLS,
    ensures
        result != 0 ==> r == InstallStep::Done(Err(Errno(result as i32))),
        result == 0 && i + 1 < INSTALL_CALLS ==> r == InstallStep::Next((i + 1) as usize),
        result == 0 && i + 1 == INSTALL_CALLS ==> r == InstallStep::Done(Ok(())),
{
    if result != 0 {
        InstallStep::Done(Err(Errno(result as i32)))
    } else if i + 1 < INSTALL_CALLS {
        InstallStep::Next(i + 1)
    } else {
        InstallStep::Done(Ok(()))
    }
}

/// Following `install_step` from the first call to the end gives `install_outcome`: the
/// installation is `Ok` exactly when all thirteen calls return 0, and otherwise fails
/// with the first result that is not 0.
pub proof fn lemma_install_outcome(results: Seq<isize>)
    requires
        results.len() == INSTALL_CALLS,
    ensures
        install_outcome(results, 0) is Ok <==> (forall|j: int|
            0 <= j < INSTALL_CALLS ==> #[trigger] results[j] == 0),
        install_outcome(results, 0) is Err ==> exists|j: int|
            0 <= j < INSTALL_CALLS && results[j] != 0 && (forall|k: int|
                0 <= k < j ==> #[trigger] results[k] == 0) && install_outcome(results, 0)
                == Err::<(), Errno>(Errno(results[j] as i32)),
{
    lemma_install_outcome_from(results, 0);
}

proof fn lemma_install_outcome_from(results: Seq<isize>, i: int)
    requires
        results.len() == INSTALL_CALLS,
        0 <= i <= INSTALL_CALLS,
    ensures
        install_outcome(results, i) is Ok <==> (forall|j: int|
            i <= j < INSTALL_CALLS ==> #[trigger] results[j] == 0),
        install_outcome(results, i) is Err ==> exists|j: int|
            i <= j < INSTALL_CALLS && results[j] != 0 && (forall|k: int|
                i <= k < j ==> #[trigger] results[k] == 0) && install_outcome(results, i)
                == Err::<(), Errno>(Errno(results[j] as i32)),
    decreases INSTALL_CALLS - i,
{
    if i < INSTALL_CALLS {
        lemma_install_outcome_from(results, i + 1);
        if results[i] == 0 {
            if install_outcome(results, i) is Err {
                let j = choose|j: int|
                    i + 1 <= j < INSTALL_CALLS && results[j] != 0 && (forall|k: int|
                        i + 1 <= k < j ==> #[trigger] results[k] == 0) && install_outcome(
                        results,
                        i + 1,
                    ) == Err::<(), Errno>(Errno(results[j] as i32));
                assert(forall|k: int| i <= k < j ==> #[trigger] results[k] == 0);
            }
        } else {
            assert(forall|k: int| i <= k < i ==> #[trigger] results[k] == 0);
        }
    }
}

} // verus!
