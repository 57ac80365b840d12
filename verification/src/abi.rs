//! Linux ABI constants and page arithmetic used by the sandbox.
use vstd::prelude::*;

verus! {

// linux/include/uapi/linux/mman.h
pub const MAP_SHARED: isize = 0x01;
pub const MAP_PRIVATE: isize = 0x02;
pub const MAP_ANONYMOUS: isize = 0x20;
pub const MAP_FIXED: isize = 0x10;
pub const MAP_GROWSDOWN: isize = 0x100;
pub const MAP_FIXED_NOREPLACE: isize = 0x100000;

// linux/include/uapi/asm-generic/mman-common.h
pub const PROT_READ: isize = 1;
pub const PROT_WRITE: isize = 2;
pub const PROT_EXEC: isize = 4;

/// linux/arch/x86/include/asm/page_types.h
pub const PAGE_SHIFT: usize = 12;
pub const PAGE_SIZE: usize = 4096;
pub const PAGE_MASK: usize = 4095;

/// The offset of an address within its page.
pub open spec fn spec_page_offset(addr: usize) -> int {
    addr as int % PAGE_SIZE as int
}

pub fn page_offset(addr: usize) -> (r: usize)
    ensures
        r == spec_page_offset(addr),
{
    let r = addr & PAGE_MASK;
    assert(addr & 4095 == addr % 4096) by (bit_vector);
    r
}

/// The start of the page that holds `addr`.
pub fn page_round_down(addr: usize) -> (r: usize)
    ensures
        r == addr - addr % 4096,
        r % 4096 == 0,
{
    let r = addr & !PAGE_MASK;
    assert(addr & !4095usize == addr - addr % 4096) by (bit_vector);
    assert((addr - addr % 4096) % 4096 == 0) by (nonlinear_arith);
    r
}

/// The first page boundary at or above `addr`.
pub fn page_round_up(addr: usize) -> (r: usize)
    requires
        addr % 4096 == 0 || addr - addr % 4096 + 4096 <= usize::MAX,
    ensures
        addr % 4096 == 0 ==> r == addr,
        addr % 4096 != 0 ==> r == addr - addr % 4096 + 4096,
        r % 4096 == 0,
        addr <= r < addr + 4096,
{
    if page_offset(addr) == 0 {
        addr
    } else {
        let down = page_round_down(addr);
        assert((down + 4096) % 4096 == 0) by (nonlinear_arith)
            requires
                down % 4096 == 0,
        ;
        PAGE_SIZE + down
    }
}

/// linux/include/uapi/linux/time.h
#[derive(Debug, Clone, Copy, PartialEq, Eq, Structural)]
pub struct TimeSpec {
    pub tv_sec: u64,
    pub tv_nsec: u64,
}

impl TimeSpec {
    pub fn from_secs(n: u64) -> (r: Self)
        ensures
            r.tv_sec == n,
            r.tv_nsec == 0,
    {
        TimeSpec { tv_sec: n, tv_nsec: 0 }
    }
}

// getdents(2)
#[derive(Debug, Clone, Copy, PartialEq, Eq, Structural)]
pub struct LinuxDirentHeader {
    pub d_ino: u64,
    pub d_off: i64,
    pub d_reclen: u16,
    pub d_type: u8,
    pub d_name: u8,
}

// POSIX dirent.h or linux fs_types.h
pub const DT_UNKNOWN: u8 = 0;
pub const DT_FIFO: u8 = 1;
pub const DT_CHR: u8 = 2;
pub const DT_DIR: u8 = 4;
pub const DT_BLK: u8 = 6;
pub const DT_REG: u8 = 8;
pub const DT_LNK: u8 = 10;
pub const DT_SOCK: u8 = 12;
pub const DT_WHT: u8 = 14;

// linux/include/linux/socket.h
#[derive(Default, Debug, Clone, Copy, PartialEq, Eq, Structural)]
pub struct CMsgHdr {
    pub cmsg_len: usize,
    pub cmsg_level: i32,
    pub cmsg_type: i32,
}

// cmsg_type
pub const SCM_RIGHTS: i32 = 1;

// cmsg_level
pub const SOL_SOCKET: i32 = 1;

/// siginfo_t, linux/include/uapi/asm-generic/siginfo.h
#[derive(Default, Debug, Clone, Copy)]
pub struct SigInfo {
    pub si_signo: u32,
    pub si_errno: u32,
    pub si_code: u32,
    pad0: u32,
    pub si_pid: u32,
    pub si_uid: u32,
    pub si_status: u32,
    pad1: u32,
    pub si_utime: usize,
    pub si_stime: usize,
    pub fields: [u32; 20],
}

/// sigset_t, linux/include/uapi/asm-generic/signal.h
#[derive(Debug, Clone, Copy)]
pub struct SigSet {
    pub sig: [u64; 1],
}

/// linux/include/uapi/linux/utsname.h
#[derive(Debug, Clone, Copy)]
pub struct UtsName {
    pub sysname: [u8; 65],
    pub nodename: [u8; 65],
    pub release: [u8; 65],
    pub version: [u8; 65],
    pub machine: [u8; 65],
}

/// linux/include/uapi/linux/binfmts.h
pub const BINPRM_BUF_SIZE: usize = 256;

// errno, linux/include/uapi/asm-generic/errno-base.h
pub const EINTR: i32 = 4;
pub const EIO: i32 = 5;
pub const E2BIG: i32 = 7;
pub const ENOEXEC: i32 = 8;
pub const ECHILD: i32 = 10;
pub const EAGAIN: i32 = 11;
pub const EFAULT: i32 = 14;
pub const EEXIST: i32 = 17;
pub const EINVAL: i32 = 22;
pub const ENOSYS: i32 = 38;
pub const ECONNRESET: i32 = 104;

// linux/include/uapi/asm-generic/fcntl.h
pub const O_RDONLY: usize = 0;
pub const O_WRONLY: usize = 1;
pub const O_RDWR: usize = 2;
pub const AT_SYMLINK_NOFOLLOW: i32 = 0x100;
pub const AT_FDCWD: i32 = -100;

// linux/include/uapi/linux/auxvec.h
pub const AT_NULL: usize = 0;
pub const AT_PHDR: usize = 3;
pub const AT_PHENT: usize = 4;
pub const AT_PHNUM: usize = 5;
pub const AT_PAGESZ: usize = 6;
pub const AT_BASE: usize = 7;
pub const AT_FLAGS: usize = 8;
pub const AT_ENTRY: usize = 9;
pub const AT_UID: usize = 11;
pub const AT_EUID: usize = 12;
pub const AT_GID: usize = 13;
pub const AT_EGID: usize = 14;
pub const AT_PLATFORM: usize = 15;
pub const AT_HWCAP: usize = 16;
pub const AT_CLKTCK: usize = 17;
pub const AT_SECURE: usize = 23;
pub const AT_RANDOM: usize = 25;
pub const AT_HWCAP2: usize = 26;
pub const AT_EXECFN: usize = 31;
pub const AT_SYSINFO_EHDR: usize = 33;

// linux/include/asm-generic/param.h
pub const USER_HZ: usize = 100;

// Special syscall number
pub const SYSCALL_BLOCKED: isize = -1;

// linux/arch/x86/include/asm/elf.h (64-bit)
pub const STACK_RND_MASK: usize = 0x3fffff;

// the brk randomization mask, linux has this hardcoded in linux/arch/x86/kernel/process.c
pub const BRK_RND_MASK: usize = 0x1fff;

// The initial stack pointer is aligned to 16 bytes.
pub const ELF_STACK_ALIGN: usize = 16;
pub const ELF_STACK_ALIGN_MASK: usize = 15;

// prctl(PR_SET_MM, ...), linux/include/uapi/linux/prctl.h
pub const PR_SET_MM: isize = 35;
pub const PR_SET_MM_START_CODE: isize = 1;
pub const PR_SET_MM_END_CODE: isize = 2;
pub const PR_SET_MM_START_DATA: isize = 3;
pub const PR_SET_MM_END_DATA: isize = 4;
pub const PR_SET_MM_START_STACK: isize = 5;
pub const PR_SET_MM_START_BRK: isize = 6;
pub const PR_SET_MM_BRK: isize = 7;
pub const PR_SET_MM_ARG_START: isize = 8;
pub const PR_SET_MM_ARG_END: isize = 9;
pub const PR_SET_MM_ENV_START: isize = 10;
pub const PR_SET_MM_ENV_END: isize = 11;
pub const PR_SET_MM_AUXV: isize = 12;
pub const PR_SET_MM_EXE_FILE: isize = 13;

/// struct stat, linux/arch/x86/include/uapi/asm/stat.h (64-bit)
#[derive(Debug, Clone, Copy)]
pub struct Stat {
    pub st_dev: u64,
    pub st_ino: u64,
    pub st_nlink: u64,
    pub st_mode: u32,
    pub st_uid: u32,
    pub st_gid: u32,
    pub pad0: u32,
    pub st_rdev: u64,
    pub st_size: i64,
    pub st_blksize: i64,
    pub st_blocks: i64,
    pub st_atime: u64,
    pub st_atime_nsec: u64,
    pub st_mtime: u64,
    pub st_mtime_nsec: u64,
    pub st_ctime: u64,
    pub st_ctime_nsec: u64,
    pub unused: [i64; 3],
}

// Where the fields of struct utsname start.
pub const UTSNAME_SYSNAME: usize = 0;
pub const UTSNAME_NODENAME: usize = 65;
pub const UTSNAME_RELEASE: usize = 130;
pub const UTSNAME_VERSION: usize = 195;
pub const UTSNAME_MACHINE: usize = 260;

// fcntl(2) commands and file seals, linux/include/uapi/linux/fcntl.h
pub const F_SETFD: usize = 2;
pub const F_SETFL: usize = 4;
pub const F_SETOWN: usize = 8;
pub const FASYNC: usize = 0o20000;
pub const F_GET_SEALS: usize = 1034;
pub const F_SEAL_SEAL: usize = 1;
pub const F_SEAL_SHRINK: usize = 2;
pub const F_SEAL_GROW: usize = 4;
pub const F_SEAL_WRITE: usize = 8;

// linux/include/uapi/asm-generic/signal.h
pub const SIGTRAP: u8 = 5;
pub const SIGSEGV: u8 = 11;
pub const SIGCHLD: u8 = 17;
pub const SIGSYS: u8 = 31;

// linux/include/uapi/asm-generic/siginfo.h
pub const CLD_EXITED: u32 = 1;
pub const CLD_TRAPPED: u32 = 4;

// linux/include/uapi/linux/ptrace.h: the stop status of a ptrace event is
// `SIGTRAP | event << 8`.
pub const PTRACE_EVENT_FORK: u32 = 1;
pub const PTRACE_EVENT_EXEC: u32 = 4;
pub const PTRACE_EVENT_SECCOMP: u32 = 7;
pub const PTRACE_SIG_FORK: u32 = 0x105;
pub const PTRACE_SIG_EXEC: u32 = 0x405;
pub const PTRACE_SIG_SECCOMP: u32 = 0x705;

} // verus!
