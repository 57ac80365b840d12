//! How the sand program decides what it was started as. It runs in two stages: as the
//! tracer, started by the runtime from a sealed executable, and as the init loader,
//! started by the tracer. Each gets exactly one argument (its name) and one
//! environment variable, `FD=<number>`, naming the file descriptor it works with.
use vstd::prelude::*;
use crate::abi;
use crate::protocol::{Errno, SysFd};

verus! {

/// The argument that starts the tracer stage: "sand", NUL-terminated.
pub const STAGE_1_TRACER: [u8; 5] = [115, 97, 110, 100, 0];

/// The argument that starts the init loader stage: "sand-exec", NUL-terminated.
pub const STAGE_2_INIT_LOADER: [u8; 10] = [115, 97, 110, 100, 45, 101, 120, 101, 99, 0];

/// The seals that the runtime puts on the sand executable.
pub const EXPECTED_SEALS: usize = 15;

/// Which stage the arguments ask for.
#[derive(Debug, Clone, Copy, PartialEq, Eq, Structural)]
pub enum Stage {
    Unknown,
    Tracer,
    InitLoader,
}

/// What the program goes on to do, with the file descriptor from its environment.
#[derive(Debug, Clone, Copy, PartialEq, Eq, Structural)]
pub enum RunMode {
    Unknown,
    Tracer(SysFd),
    InitLoader(SysFd),
}

/// Whether `seals`, as `fcntl(F_GET_SEALS)` reported them, are exactly those the
/// runtime puts on the executable.
pub fn check_sealed_exe(seals: Result<isize, Errno>) -> (r: Result<bool, Errno>)
    ensures
        match seals {
            Ok(s) => r == Ok::<bool, Errno>(s as usize == EXPECTED_SEALS),
            Err(e) => r == Err::<bool, Errno>(e),
        },
{
    let expected = abi::F_SEAL_SEAL | abi::F_SEAL_SHRINK | abi::F_SEAL_GROW | abi::F_SEAL_WRITE;
    assert(expected == 15) by (bit_vector)
        requires
            expected == 1usize | 2usize | 4usize | 8usize,
    ;
    match seals {
        Ok(s) => Ok(s as usize == expected),
        Err(e) => Err(e),
    }
}

pub(crate) fn bytes_equal(a: &[u8], b: &[u8]) -> (r: bool)
    ensures
        r == (a@ == b@),
{
    if a.len() != b.len() {
        return false;
    }
    let mut i: usize = 0;
    while i < a.len()
        invariant
            a@.len() == b@.len(),
            i <= a@.len(),
            forall|k: int| 0 <= k < i ==> a@[k] == b@[k],
        decreases a@.len() - i,
    {
        if a[i] != b[i] {
            return false;
        }
        i = i + 1;
    }
    assert(a@ =~= b@);
    true
}

/// The stage asked for: the name of one of the stages, NUL included, as the only
/// argument, with exactly one environment variable.
pub fn stage_of(argv0: &[u8], argc: usize, envc: usize) -> (r: Stage)
    ensures
        r == (if argv0@ == STAGE_1_TRACER@ && argc == 1 && envc == 1 {
            Stage::Tracer
        } else if argv0@ == STAGE_2_INIT_LOADER@ && argc == 1 && envc == 1 {
            Stage::InitLoader
        } else {
            Stage::Unknown
        }),
{
    let tracer = STAGE_1_TRACER;
    let loader = STAGE_2_INIT_LOADER;
    if bytes_equal(argv0, &tracer) && argc == 1 && envc == 1 {
        Stage::Tracer
    } else if bytes_equal(argv0, &loader) && argc == 1 && envc == 1 {
        Stage::InitLoader
    } else {
        Stage::Unknown
    }
}

/// The digits of a decimal number: all but a leading `+`.
pub open spec fn decimal_digits(s: Seq<u8>) -> Seq<u8> {
    if s.len() > 0 && s[0] == 43 {
        s.drop_first()
    } else {
        s
    }
}

/// `s` is a decimal number: an optional `+`, then at least one digit.
pub open spec fn is_decimal(s: Seq<u8>) -> bool {
    &&& decimal_digits(s).len() > 0
    &&& forall|i: int| 0 <= i < decimal_digits(s).len() ==> 48 <= #[trigger] decimal_digits(s)[i] <= 57
}

/// The value of the decimal digits in `d`.
pub open spec fn digits_value(d: Seq<u8>) -> nat
    decreases d.len(),
{
    if d.len() == 0 {
        0
    } else {
        digits_value(d.drop_last()) * 10 + (d.last() - 48) as nat
    }
}

/// The value of a decimal number, its sign skipped.
pub open spec fn decimal_value(s: Seq<u8>) -> nat {
    digits_value(decimal_digits(s))
}

/// A `u32` written in decimal, as `str::parse::<u32>` reads it: an optional `+`, at
/// least one digit and nothing else, and a value that fits.
pub fn parse_u32(s: &[u8]) -> (r: Option<u32>)
    ensures
        r matches Some(v) <==> (is_decimal(s@) && decimal_value(s@) <= u32::MAX),
        r matches Some(v) ==> v == decimal_value(s@),
{
    let n = s.len();
    let mut i: usize = 0;
    if n > 0 && s[0] == 43 {
        i = 1;
    }
    let start = i;
    let ghost digits = s@.skip(start as int);
    proof {
        assert(digits =~= decimal_digits(s@));
    }
    if start == n {
        return None;
    }
    let mut value: u64 = 0;
    while i < n
        invariant
            start <= i <= n,
            n == s@.len(),
            start < n,
            digits == s@.skip(start as int),
            digits == decimal_digits(s@),
            value == digits_value(digits.take(i - start)),
            value <= u32::MAX,
            forall|k: int| 0 <= k < i - start ==> 48 <= #[trigger] digits[k] <= 57,
        decreases n - i,
    {
        let c = s[i];
        if c < 48 || c > 57 {
            proof {
                assert(decimal_digits(s@)[i - start] == c);
            }
            return None;
        }
        let ghost before = digits.take(i - start);
        proof {
            assert(digits.take(i - start + 1).drop_last() =~= before);
            assert(digits.take(i - start + 1).last() == c);
        }
        let next = value * 10 + (c - 48) as u64;
        if next > 0xffff_ffff {
            proof {
                if is_decimal(s@) {
                    lemma_digits_prefix_le(digits, i - start + 1);
                }
            }
            return None;
        }
        value = next;
        i = i + 1;
    }
    proof {
        assert(digits.take(n - start) =~= digits);
    }
    Some(value as u32)
}

/// More digits never make a number smaller.
proof fn lemma_digits_prefix_le(d: Seq<u8>, k: int)
    requires
        0 <= k <= d.len(),
        forall|i: int| 0 <= i < d.len() ==> 48 <= #[trigger] d[i] <= 57,
    ensures
        digits_value(d.take(k)) <= digits_value(d),
    decreases d.len() - k,
{
    if k == d.len() {
        assert(d.take(k) =~= d);
    } else {
        assert(d.take(k + 1).drop_last() =~= d.take(k));
        assert(d.take(k + 1).last() == d[k]);
        lemma_digits_prefix_le(d, k + 1);
    }
}

/// The file descriptor named by an environment entry `FD=<number>`, NUL-terminated.
pub fn parse_envp_to_file(envp0: &[u8]) -> (r: Option<SysFd>)
    requires
        envp0@.len() > 0,
        envp0@.last() == 0,
    ensures
        ({
            let s = envp0@.drop_last();
            let value = s.skip(3);
            r matches Some(fd) <==> (s.len() >= 3 && s[0] == 70 && s[1] == 68 && s[2] == 61
                && is_decimal(value) && decimal_value(value) <= u32::MAX)
        }),
        r matches Some(fd) ==> fd.0 == decimal_value(envp0@.drop_last().skip(3)),
{
    let n = envp0.len() - 1;
    if n >= 3 && envp0[0] == 70 && envp0[1] == 68 && envp0[2] == 61 {
        let value = vstd::slice::slice_subrange(envp0, 3, n);
        proof {
            assert(value@ =~= envp0@.drop_last().skip(3));
        }
        match parse_u32(value) {
            Some(fd) => Some(SysFd(fd)),
            None => None,
        }
    } else {
        None
    }
}

/// What the program runs as: the tracer only from a sealed executable, and either
/// stage only with a file descriptor in its environment.
pub fn run_mode(stage: Stage, exe_sealed: bool, envp0: &[u8]) -> (r: RunMode)
    requires
        envp0@.len() > 0,
        envp0@.last() == 0,
    ensures
        stage is Unknown ==> r is Unknown,
        stage is Tracer && !exe_sealed ==> r is Unknown,
        stage is Tracer && exe_sealed ==> match parse_envp_fd(envp0@) {
            Some(fd) => r == RunMode::Tracer(SysFd(fd)),
            None => r is Unknown,
        },
        stage is InitLoader ==> match parse_envp_fd(envp0@) {
            Some(fd) => r == RunMode::InitLoader(SysFd(fd)),
            None => r is Unknown,
        },
{
    match stage {
        Stage::Unknown => RunMode::Unknown,
        Stage::Tracer => if exe_sealed {
            match parse_envp_to_file(envp0) {
                Some(file) => RunMode::Tracer(file),
                None => RunMode::Unknown,
            }
        } else {
            RunMode::Unknown
        },
        Stage::InitLoader => match parse_envp_to_file(envp0) {
            Some(file) => RunMode::InitLoader(file),
            None => RunMode::Unknown,
        },
    }
}

/// The descriptor number an `FD=<number>` entry names, if it is one.
pub open spec fn parse_envp_fd(envp0: Seq<u8>) -> Option<u32> {
    let s = envp0.drop_last();
    let value = s.skip(3);
    if s.len() >= 3 && s[0] == 70 && s[1] == 68 && s[2] == 61 && is_decimal(value)
        && decimal_value(value) <= u32::MAX {
        Some(decimal_value(value) as u32)
    } else {
        None
    }
}

/// An entry of `/proc/self/fd`: a link named by a descriptor number, or the directory
/// itself or its parent.
pub open spec fn proc_fd_entry_ok(d_type: u8, name: Seq<u8>) -> bool {
    ||| d_type == abi::DT_LNK && is_decimal(name) && decimal_value(name) <= u32::MAX
    ||| d_type == abi::DT_DIR && (name == seq![46u8] || name == seq![46u8, 46u8])
}

/// The open descriptor that an entry of `/proc/self/fd` stands for, if any.
pub fn proc_fd_entry(d_type: u8, name: &[u8]) -> (r: Option<SysFd>)
    requires
        proc_fd_entry_ok(d_type, name@),
    ensures
        d_type == abi::DT_LNK ==> r == Some(SysFd(decimal_value(name@) as u32)),
        d_type != abi::DT_LNK ==> r is None,
{
    if d_type == abi::DT_LNK {
        match parse_u32(name) {
            Some(fd) => Some(SysFd(fd)),
            None => None,
        }
    } else {
        None
    }
}

} // verus!
