//! Deciding how the tracer answers a system call made inside the sandbox.
//!
//! Each call is answered directly with a value, forwarded to the IPC server, or handed
//! to one of the tracer's own operations on the stopped process; the tracer performs
//! the chosen action and stores the result with `ret_to_regs`.
use vstd::prelude::*;
use crate::abi;
use crate::protocol::{
    Errno, FileStat, FollowLinks, FromTask, LogLevel, Syscall, VFile, VPid, VPtr, VString,
    VStringBuffer,
};
use crate::mem::{VPage, spec_round_down, spec_round_up};
use core::ops::Range;

verus! {

// x86_64 system call numbers, arch/x86/entry/syscalls/syscall_64.tbl
pub const NR_OPEN: usize = 2;
pub const NR_CLOSE: usize = 3;
pub const NR_STAT: usize = 4;
pub const NR_FSTAT: usize = 5;
pub const NR_LSTAT: usize = 6;
pub const NR_MMAP: usize = 9;
pub const NR_MUNMAP: usize = 11;
pub const NR_BRK: usize = 12;
pub const NR_IOCTL: usize = 16;
pub const NR_MREMAP: usize = 25;
pub const NR_ACCESS: usize = 21;
pub const NR_GETPID: usize = 39;
pub const NR_CLONE: usize = 56;
pub const NR_FORK: usize = 57;
pub const NR_EXECVE: usize = 59;
pub const NR_WAIT4: usize = 61;
pub const NR_UNAME: usize = 63;
pub const NR_GETCWD: usize = 79;
pub const NR_CHDIR: usize = 80;
pub const NR_FCHDIR: usize = 81;
pub const NR_READLINK: usize = 89;
pub const NR_SYSINFO: usize = 99;
pub const NR_GETUID: usize = 102;
pub const NR_GETGID: usize = 104;
pub const NR_GETEUID: usize = 107;
pub const NR_GETEGID: usize = 108;
pub const NR_SETPGID: usize = 109;
pub const NR_GETPPID: usize = 110;
pub const NR_GETPGRP: usize = 111;
pub const NR_GETPGID: usize = 121;
pub const NR_STATFS: usize = 137;
pub const NR_FSTATFS: usize = 138;
pub const NR_PRCTL: usize = 157;
pub const NR_GETTID: usize = 186;
pub const NR_GETDENTS64: usize = 217;
pub const NR_SET_TID_ADDRESS: usize = 218;
pub const NR_OPENAT: usize = 257;
pub const NR_NEWFSTATAT: usize = 262;
pub const NR_GETRANDOM: usize = 318;

/// A file descriptor number in the traced process.
#[derive(Debug, Clone, Copy, Eq, PartialEq, Structural)]
pub struct RemoteFd(pub u32);

impl RemoteFd {
    pub fn invalid() -> (r: RemoteFd)
        ensures
            r.0 == u32::MAX,
    {
        RemoteFd(u32::MAX)
    }
}

/// The syscall return value for an error: the negative errno itself.
pub fn return_errno(err: Errno) -> (r: isize)
    requires
        err.0 < 0,
    ensures
        r == err.0,
{
    err.0 as isize
}

pub open spec fn result_value(result: Result<(), Errno>) -> isize {
    match result {
        Ok(()) => 0,
        Err(e) => e.0 as isize,
    }
}

pub fn return_result(result: Result<(), Errno>) -> (r: isize)
    requires
        result matches Err(e) ==> e.0 < 0,
    ensures
        r == result_value(result),
{
    match result {
        Ok(()) => 0,
        Err(err) => return_errno(err),
    }
}

pub fn return_vptr_result(result: Result<VPtr, Errno>) -> (r: isize)
    requires
        result matches Err(e) ==> e.0 < 0,
    ensures
        r == match result {
            Ok(p) => p.0 as isize,
            Err(e) => e.0 as isize,
        },
{
    match result {
        Ok(ptr) => ptr.0 as isize,
        Err(err) => return_errno(err),
    }
}

pub fn return_size_result(result: Result<usize, Errno>) -> (r: isize)
    requires
        result matches Err(e) ==> e.0 < 0,
    ensures
        r == match result {
            Ok(s) => s as isize,
            Err(e) => e.0 as isize,
        },
{
    match result {
        Ok(s) => s as isize,
        Err(err) => return_errno(err),
    }
}

/// A failed access to the traced process's memory is a fault.
pub fn fault_or<T>(result: Result<T, ()>) -> (r: Result<T, Errno>)
    ensures
        match result {
            Ok(t) => r == Ok::<T, Errno>(t),
            Err(_) => r == Err::<T, Errno>(Errno(-14i32)),
        },
{
    match result {
        Ok(t) => Ok(t),
        Err(()) => Err(Errno(-abi::EFAULT)),
    }
}

/// How the reply of the IPC server becomes the syscall's return value.
#[derive(Debug, Clone, Copy, Eq, PartialEq)]
pub enum ReplyConversion {
    /// `Reply(Result<(), Errno>)`, through `return_result`.
    Unit,
    /// `SizeReply(Result<usize, Errno>)`, through `return_size_result`.
    Size,
    /// `FileReply`: the file is installed in the process and its number returned.
    File,
    /// `FileStatReply`: the stat is written at this address.
    Stat(VPtr),
}

/// What the tracer does with a system call.
#[derive(Debug, Clone, Copy, Eq, PartialEq)]
pub enum SyscallAction {
    /// Return this value at once.
    Return(isize),
    /// Send the request to the IPC server and convert its reply.
    Ipc(FromTask, ReplyConversion),
    Brk(VPtr),
    Exec { filename: VString, argv: VPtr, envp: VPtr },
    Uname(VPtr),
    Fstat { fd: RemoteFd, out: VPtr },
    Statfs(VPtr),
    Close(RemoteFd),
    /// Not supported: the tracer stops.
    Unsupported,
}

pub open spec fn arg_ptr(call: Syscall, i: int) -> VPtr {
    VPtr(call.args[i] as usize)
}

pub open spec fn arg_string(call: Syscall, i: int) -> VString {
    VString(arg_ptr(call, i))
}

/// The action for each supported syscall number.
pub open spec fn action_for(call: Syscall, vpid: VPid) -> SyscallAction {
    let nr = call.nr as usize;
    if nr == NR_BRK {
        SyscallAction::Brk(arg_ptr(call, 0))
    } else if nr == NR_EXECVE {
        SyscallAction::Exec {
            filename: arg_string(call, 0),
            argv: arg_ptr(call, 1),
            envp: arg_ptr(call, 2),
        }
    } else if nr == NR_UNAME {
        SyscallAction::Uname(arg_ptr(call, 0))
    } else if nr == NR_GETPID || nr == NR_GETTID {
        SyscallAction::Return(vpid.0 as isize)
    } else if nr == NR_GETPPID {
        SyscallAction::Return(1)
    } else if nr == NR_GETUID || nr == NR_GETGID || nr == NR_GETEUID || nr == NR_GETEGID || nr
        == NR_GETPGRP || nr == NR_SETPGID || nr == NR_GETPGID || nr == NR_SYSINFO || nr
        == NR_SET_TID_ADDRESS || nr == NR_IOCTL || nr == NR_GETDENTS64 || nr == NR_FCHDIR {
        SyscallAction::Return(0)
    } else if nr == NR_WAIT4 {
        SyscallAction::Return(-10isize)
    } else if nr == NR_STAT || nr == NR_LSTAT {
        SyscallAction::Ipc(
            FromTask::FileStat {
                file: None,
                path: Some(arg_string(call, 0)),
                follow_links: if nr == NR_STAT {
                    FollowLinks::Follow
                } else {
                    FollowLinks::NoFollow
                },
            },
            ReplyConversion::Stat(arg_ptr(call, 1)),
        )
    } else if nr == NR_FSTAT {
        SyscallAction::Fstat { fd: RemoteFd(call.args[0] as u32), out: arg_ptr(call, 1) }
    } else if nr == NR_NEWFSTATAT {
        if call.args[0] as i32 != abi::AT_FDCWD {
            SyscallAction::Unsupported
        } else {
            SyscallAction::Ipc(
                FromTask::FileStat {
                    file: None,
                    path: Some(arg_string(call, 1)),
                    follow_links: if (call.args[3] as i32) & abi::AT_SYMLINK_NOFOLLOW != 0 {
                        FollowLinks::NoFollow
                    } else {
                        FollowLinks::Follow
                    },
                },
                ReplyConversion::Stat(arg_ptr(call, 2)),
            )
        }
    } else if nr == NR_STATFS || nr == NR_FSTATFS {
        SyscallAction::Statfs(arg_ptr(call, 1))
    } else if nr == NR_ACCESS {
        SyscallAction::Ipc(
            FromTask::FileAccess { dir: None, path: arg_string(call, 0), mode: call.args[1] as i32 },
            ReplyConversion::Unit,
        )
    } else if nr == NR_GETCWD {
        SyscallAction::Ipc(
            FromTask::GetWorkingDir(VStringBuffer(arg_string(call, 0), call.args[1] as usize)),
            ReplyConversion::Size,
        )
    } else if nr == NR_READLINK {
        SyscallAction::Ipc(
            FromTask::ReadLink(
                arg_string(call, 0),
                VStringBuffer(arg_string(call, 1), call.args[2] as usize),
            ),
            ReplyConversion::Size,
        )
    } else if nr == NR_CHDIR {
        SyscallAction::Ipc(FromTask::ChangeWorkingDir(arg_string(call, 0)), ReplyConversion::Unit)
    } else if nr == NR_OPEN {
        SyscallAction::Ipc(
            FromTask::FileOpen {
                dir: None,
                path: arg_string(call, 0),
                flags: call.args[1] as i32,
                mode: call.args[2] as i32,
            },
            ReplyConversion::File,
        )
    } else if nr == NR_CLOSE {
        SyscallAction::Close(RemoteFd(call.args[0] as u32))
    } else if nr == NR_OPENAT && call.args[0] as i32 == abi::AT_FDCWD {
        SyscallAction::Ipc(
            FromTask::FileOpen {
                dir: None,
                path: arg_string(call, 1),
                flags: call.args[2] as i32,
                mode: call.args[3] as i32,
            },
            ReplyConversion::File,
        )
    } else {
        SyscallAction::Unsupported
    }
}

/// `a` asks the IPC server for the status of the path at `path` and has it written at
/// `out`, following a final symbolic link exactly when `follow` holds.
pub open spec fn is_path_stat(a: SyscallAction, path: isize, out: isize, follow: bool) -> bool {
    a matches SyscallAction::Ipc(FromTask::FileStat { file, path: p, follow_links }, conv) && file
        is None && p == Some(VString(VPtr(path as usize))) && conv == ReplyConversion::Stat(
        VPtr(out as usize),
    ) && (follow_links is Follow <==> follow)
}

/// `stat` follows a final symbolic link and `lstat` does not; both ask for the status of
/// the path in their first argument and have it written at their second. `newfstatat`
/// relative to the working directory does the same with its second and third arguments,
/// and follows links unless its flags hold `AT_SYMLINK_NOFOLLOW`.
pub proof fn lemma_stat_calls_follow_links(call: Syscall, vpid: VPid)
    ensures
        call.nr as usize == NR_STAT ==> is_path_stat(
            action_for(call, vpid),
            call.args[0],
            call.args[1],
            true,
        ),
        call.nr as usize == NR_LSTAT ==> is_path_stat(
            action_for(call, vpid),
            call.args[0],
            call.args[1],
            false,
        ),
        call.nr as usize == NR_NEWFSTATAT && call.args[0] as i32 == abi::AT_FDCWD ==> is_path_stat(
            action_for(call, vpid),
            call.args[1],
            call.args[2],
            (call.args[3] as i32) & abi::AT_SYMLINK_NOFOLLOW == 0,
        ),
{
}

/// `a` asks the IPC server to open the path at `path` with `flags` and `mode`, relative
/// to the working directory, and installs the file it gets back.
pub open spec fn is_path_open(a: SyscallAction, path: isize, flags: isize, mode: isize) -> bool {
    a matches SyscallAction::Ipc(FromTask::FileOpen { dir, path: p, flags: f, mode: m }, conv) && dir
        is None && p == VString(VPtr(path as usize)) && f == flags as i32 && m == mode as i32 && conv
        is File
}

/// The process-id calls answer with the caller's own sandbox pid (its parent is always
/// the sandbox's init, pid 1); `open` and `openat` relative to the working directory
/// forward their path, flags and mode and install the file; `brk` asks for the break in
/// its argument; any other `openat` is not supported.
pub proof fn lemma_decided_calls(call: Syscall, vpid: VPid)
    ensures
        call.nr as usize == NR_GETPID || call.nr as usize == NR_GETTID ==> action_for(call, vpid)
            == SyscallAction::Return(vpid.0 as isize),
        call.nr as usize == NR_GETPPID ==> action_for(call, vpid) == SyscallAction::Return(1),
        call.nr as usize == NR_OPEN ==> is_path_open(
            action_for(call, vpid),
            call.args[0],
            call.args[1],
            call.args[2],
        ),
        call.nr as usize == NR_OPENAT && call.args[0] as i32 == abi::AT_FDCWD ==> is_path_open(
            action_for(call, vpid),
            call.args[1],
            call.args[2],
            call.args[3],
        ),
        call.nr as usize == NR_OPENAT && call.args[0] as i32 != abi::AT_FDCWD ==> action_for(
            call,
            vpid,
        ) is Unsupported,
        call.nr as usize == NR_BRK ==> action_for(call, vpid) == SyscallAction::Brk(
            VPtr(call.args[0] as usize),
        ),
{
}

/// The level at which the emulated call is logged.
pub open spec fn log_level_for(call: Syscall) -> LogLevel {
    if call.nr as usize == NR_NEWFSTATAT {
        LogLevel::Warn
    } else {
        LogLevel::Debug
    }
}

/// Decide what to do with `call`, made by the process whose sandbox pid is `vpid`.
pub fn decide(call: &Syscall, vpid: VPid) -> (r: (SyscallAction, LogLevel))
    ensures
        r.0 == action_for(*call, vpid),
        r.1 == log_level_for(*call),
        call.nr as usize == NR_STAT ==> is_path_stat(r.0, call.args[0], call.args[1], true),
        call.nr as usize == NR_LSTAT ==> is_path_stat(r.0, call.args[0], call.args[1], false),
        call.nr as usize == NR_NEWFSTATAT && call.args[0] as i32 == abi::AT_FDCWD ==> is_path_stat(
            r.0,
            call.args[1],
            call.args[2],
            (call.args[3] as i32) & abi::AT_SYMLINK_NOFOLLOW == 0,
        ),
{
    proof {
        lemma_stat_calls_follow_links(*call, vpid);
    }
    let args = call.args;
    let nr = call.nr as usize;
    let arg_ptr = |idx: usize| -> (p: VPtr)
        requires
            idx < 6,
        ensures
            p == VPtr(args[idx as int] as usize),
        { VPtr(args[idx] as usize) };
    let arg_string = |idx: usize| -> (p: VString)
        requires
            idx < 6,
        ensures
            p == VString(VPtr(args[idx as int] as usize)),
        { VString(VPtr(args[idx] as usize)) };
    let log_level = if nr == NR_NEWFSTATAT {
        LogLevel::Warn
    } else {
        LogLevel::Debug
    };
    let action = if nr == NR_BRK {
        SyscallAction::Brk(arg_ptr(0))
    } else if nr == NR_EXECVE {
        SyscallAction::Exec { filename: arg_string(0), argv: arg_ptr(1), envp: arg_ptr(2) }
    } else if nr == NR_UNAME {
        SyscallAction::Uname(arg_ptr(0))
    } else if nr == NR_GETPID || nr == NR_GETTID {
        SyscallAction::Return(vpid.0 as isize)
    } else if nr == NR_GETPPID {
        SyscallAction::Return(1)
    } else if nr == NR_GETUID || nr == NR_GETGID || nr == NR_GETEUID || nr == NR_GETEGID || nr
        == NR_GETPGRP || nr == NR_SETPGID || nr == NR_GETPGID || nr == NR_SYSINFO || nr
        == NR_SET_TID_ADDRESS || nr == NR_IOCTL || nr == NR_GETDENTS64 || nr == NR_FCHDIR {
        SyscallAction::Return(0)
    } else if nr == NR_WAIT4 {
        SyscallAction::Return(-abi::ECHILD as isize)
    } else if nr == NR_STAT || nr == NR_LSTAT {
        SyscallAction::Ipc(
            FromTask::FileStat {
                file: None,
                path: Some(arg_string(0)),
                follow_links: if nr == NR_STAT {
                    FollowLinks::Follow
                } else {
                    FollowLinks::NoFollow
                },
            },
            ReplyConversion::Stat(arg_ptr(1)),
        )
    } else if nr == NR_FSTAT {
        SyscallAction::Fstat { fd: RemoteFd(args[0] as u32), out: arg_ptr(1) }
    } else if nr == NR_NEWFSTATAT {
        if args[0] as i32 != abi::AT_FDCWD {
            SyscallAction::Unsupported
        } else {
            let flags = args[3] as i32;
            SyscallAction::Ipc(
                FromTask::FileStat {
                    file: None,
                    path: Some(arg_string(1)),
                    follow_links: if (flags & abi::AT_SYMLINK_NOFOLLOW) != 0 {
                        FollowLinks::NoFollow
                    } else {
                        FollowLinks::Follow
                    },
                },
                ReplyConversion::Stat(arg_ptr(2)),
            )
        }
    } else if nr == NR_STATFS || nr == NR_FSTATFS {
        SyscallAction::Statfs(arg_ptr(1))
    } else if nr == NR_ACCESS {
        SyscallAction::Ipc(
            FromTask::FileAccess { dir: None, path: arg_string(0), mode: args[1] as i32 },
            ReplyConversion::Unit,
        )
    } else if nr == NR_GETCWD {
        SyscallAction::Ipc(
            FromTask::GetWorkingDir(VStringBuffer(arg_string(0), args[1] as usize)),
            ReplyConversion::Size,
        )
    } else if nr == NR_READLINK {
        SyscallAction::Ipc(
            FromTask::ReadLink(arg_string(0), VStringBuffer(arg_string(1), args[2] as usize)),
            ReplyConversion::Size,
        )
    } else if nr == NR_CHDIR {
        SyscallAction::Ipc(FromTask::ChangeWorkingDir(arg_string(0)), ReplyConversion::Unit)
    } else if nr == NR_OPEN {
        SyscallAction::Ipc(
            FromTask::FileOpen {
                dir: None,
                path: arg_string(0),
                flags: args[1] as i32,
                mode: args[2] as i32,
            },
            ReplyConversion::File,
        )
    } else if nr == NR_CLOSE {
        SyscallAction::Close(RemoteFd(args[0] as u32))
    } else if nr == NR_OPENAT && args[0] as i32 == abi::AT_FDCWD {
        SyscallAction::Ipc(
            FromTask::FileOpen {
                dir: None,
                path: arg_string(1),
                flags: args[2] as i32,
                mode: args[3] as i32,
            },
            ReplyConversion::File,
        )
    } else {
        SyscallAction::Unsupported
    };
    (action, log_level)
}

/// The outcome of a step that borrowed a resource, once the resource was released: the
/// step's own error comes first, then the release's.
pub fn with_cleanup<T>(main: Result<T, Errno>, cleanup: Result<(), Errno>) -> (r: Result<T, Errno>)
    ensures
        main is Err ==> r == main,
        main is Ok && cleanup is Ok ==> r == main,
        main is Ok ==> (cleanup matches Err(e) ==> r == Err::<T, Errno>(e)),
{
    match (main, cleanup) {
        (Ok(r), Ok(())) => Ok(r),
        (Err(e), _) => Err(e),
        (Ok(_), Err(e)) => Err(e),
    }
}

/// The number of 512-byte blocks that `size` bytes take up: `(size + 511) / 512`,
/// dividing towards zero.
pub open spec fn blocks_for(size: i64) -> int {
    let rounded = size + 511;
    if rounded >= 0 {
        rounded / 512
    } else {
        -((-rounded) / 512)
    }
}

/// The `struct stat` that a stat call writes for a file of the image.
pub fn user_stat(vfile: VFile, file_stat: &FileStat) -> (r: abi::Stat)
    requires
        file_stat.st_size <= i64::MAX - 511,
    ensures
        r == (abi::Stat {
            st_dev: file_stat.st_dev,
            st_ino: vfile.inode as u64,
            st_nlink: file_stat.st_nlink,
            st_mode: file_stat.st_mode,
            st_uid: file_stat.st_uid,
            st_gid: file_stat.st_gid,
            pad0: 0,
            st_rdev: file_stat.st_rdev,
            st_size: file_stat.st_size,
            st_blksize: 4096,
            st_blocks: blocks_for(file_stat.st_size) as i64,
            st_atime: file_stat.st_atime,
            st_atime_nsec: file_stat.st_atime_nsec,
            st_mtime: file_stat.st_mtime,
            st_mtime_nsec: file_stat.st_mtime_nsec,
            st_ctime: file_stat.st_ctime,
            st_ctime_nsec: file_stat.st_ctime_nsec,
            unused: r.unused,
        }),
        r.unused@ == seq![0i64, 0i64, 0i64],
{
    let rounded = file_stat.st_size + 511;
    let blocks = if rounded >= 0 {
        rounded / 512
    } else {
        -((-rounded) / 512)
    };
    let unused = [0i64; 3];
    proof {
        assert(unused@ =~= seq![0i64, 0i64, 0i64]);
    }
    abi::Stat {
        st_dev: file_stat.st_dev,
        st_ino: vfile.inode as u64,
        st_nlink: file_stat.st_nlink,
        st_mode: file_stat.st_mode,
        st_uid: file_stat.st_uid,
        st_gid: file_stat.st_gid,
        pad0: 0,
        st_rdev: file_stat.st_rdev,
        st_size: file_stat.st_size,
        st_blksize: 4096,
        st_blocks: blocks,
        st_atime: file_stat.st_atime,
        st_atime_nsec: file_stat.st_atime_nsec,
        st_mtime: file_stat.st_mtime,
        st_mtime_nsec: file_stat.st_mtime_nsec,
        st_ctime: file_stat.st_ctime,
        st_ctime_nsec: file_stat.st_ctime_nsec,
        unused,
    }
}

/// "Linux", NUL-terminated.
pub open spec fn uname_sysname() -> Seq<u8> {
    seq![76u8, 105, 110, 117, 120, 0]
}

/// "host", NUL-terminated.
pub open spec fn uname_nodename() -> Seq<u8> {
    seq![104u8, 111, 115, 116, 0]
}

/// "4.0.0-bandsocks", NUL-terminated.
pub open spec fn uname_release() -> Seq<u8> {
    seq![52u8, 46, 48, 46, 48, 45, 98, 97, 110, 100, 115, 111, 99, 107, 115, 0]
}

/// "#1 SMP", NUL-terminated.
pub open spec fn uname_version() -> Seq<u8> {
    seq![35u8, 49, 32, 83, 77, 80, 0]
}

/// "x86_64", NUL-terminated.
pub open spec fn uname_machine() -> Seq<u8> {
    seq![120u8, 56, 54, 95, 54, 52, 0]
}

/// What `uname` writes into the `struct utsname` at `dest`: each string at the start
/// of its field.
pub fn uname_fields(dest: VPtr) -> (r: Vec<(VPtr, Vec<u8>)>)
    requires
        dest.0 + abi::UTSNAME_MACHINE <= usize::MAX,
    ensures
        r@.len() == 5,
        r@[0].0.0 == dest.0 + abi::UTSNAME_SYSNAME && r@[0].1@ == uname_sysname(),
        r@[1].0.0 == dest.0 + abi::UTSNAME_NODENAME && r@[1].1@ == uname_nodename(),
        r@[2].0.0 == dest.0 + abi::UTSNAME_RELEASE && r@[2].1@ == uname_release(),
        r@[3].0.0 == dest.0 + abi::UTSNAME_VERSION && r@[3].1@ == uname_version(),
        r@[4].0.0 == dest.0 + abi::UTSNAME_MACHINE && r@[4].1@ == uname_machine(),
{
    let sysname: Vec<u8> = vec![76u8, 105, 110, 117, 120, 0];
    let nodename: Vec<u8> = vec![104u8, 111, 115, 116, 0];
    let release: Vec<u8> = vec![52u8, 46, 48, 46, 48, 45, 98, 97, 110, 100, 115, 111, 99, 107, 115, 0];
    let version: Vec<u8> = vec![35u8, 49, 32, 83, 77, 80, 0];
    let machine: Vec<u8> = vec![120u8, 56, 54, 95, 54, 52, 0];
    proof {
        assert(sysname@ =~= uname_sysname());
        assert(nodename@ =~= uname_nodename());
        assert(release@ =~= uname_release());
        assert(version@ =~= uname_version());
        assert(machine@ =~= uname_machine());
    }
    let mut r: Vec<(VPtr, Vec<u8>)> = Vec::new();
    r.push((dest.add(abi::UTSNAME_SYSNAME), sysname));
    r.push((dest.add(abi::UTSNAME_NODENAME), nodename));
    r.push((dest.add(abi::UTSNAME_RELEASE), release));
    r.push((dest.add(abi::UTSNAME_VERSION), version));
    r.push((dest.add(abi::UTSNAME_MACHINE), machine));
    r
}

/// How the memory behind the emulated heap changes for a `brk` call.
#[derive(Debug)]
pub enum BrkAction {
    /// The heap keeps its pages.
    Keep,
    /// The heap shrinks to nothing: unmap these pages.
    Unmap(Range<VPage>),
    /// The heap had no pages: map these, anonymous and writable.
    MapAnonymous(Range<VPage>),
    /// Resize the heap's pages to this many bytes.
    Remap(Range<VPage>, usize),
}

/// The emulated heap: it starts at `brk_start` and its end is `brk`.
#[derive(Debug, Clone, Copy, PartialEq, Eq, Structural)]
pub struct TaskMemManagement {
    pub brk: VPtr,
    pub brk_start: VPage,
}

pub open spec fn max_addr(a: usize, b: usize) -> usize {
    if a >= b { a } else { b }
}

/// A heap end can be rounded up to a page.
pub open spec fn brk_roundable(start: VPage, brk: VPtr) -> bool {
    let a = max_addr(start.addr(), brk.0);
    a % 4096 == 0 || spec_round_down(a) + 4096 <= usize::MAX
}

impl TaskMemManagement {
    /// Plan a `brk(new_brk)` call. A zero argument only asks for the current end.
    /// Otherwise the end moves to `new_brk` (never below the start), and the pages
    /// behind the heap follow, where the page that holds its end changes. The new end
    /// takes effect once the memory change succeeded.
    pub fn brk_plan(&self, new_brk: VPtr) -> (r: (BrkAction, VPtr))
        requires
            new_brk.0 != 0 ==> brk_roundable(self.brk_start, self.brk) && brk_roundable(
                self.brk_start,
                new_brk,
            ),
        ensures
            new_brk.0 == 0 ==> r.0 is Keep && r.1 == self.brk,
            new_brk.0 != 0 ==> {
                let start = self.brk_start.addr();
                let old_page = spec_round_up(max_addr(start, self.brk.0));
                let new_page = spec_round_up(max_addr(start, new_brk.0));
                &&& r.1.0 == max_addr(start, new_brk.0)
                &&& (new_page == old_page ==> r.0 is Keep)
                &&& (new_page != old_page && new_page == start ==> (r.0 matches BrkAction::Unmap(p)
                    && p.start.addr() == start && p.end.addr() == old_page))
                &&& (new_page != old_page && new_page != start && old_page == start ==> (r.0 matches BrkAction::MapAnonymous(p)
                    && p.start.addr() == start && p.end.addr() == new_page))
                &&& (new_page != old_page && new_page != start && old_page != start ==> (r.0 matches BrkAction::Remap(p, len)
                    && p.start.addr() == start && p.end.addr() == old_page && len == new_page - start))
            },
    {
        if new_brk.0 == 0 {
            return (BrkAction::Keep, self.brk);
        }
        let start = self.brk_start;
        let start_ptr = start.ptr();
        let old_end = if start_ptr.0 >= self.brk.0 { start_ptr } else { self.brk };
        let new_end = if start_ptr.0 >= new_brk.0 { start_ptr } else { new_brk };
        let old_page = VPage::round_up(old_end);
        let new_page = VPage::round_up(new_end);
        let action = if new_page.ptr().0 == old_page.ptr().0 {
            BrkAction::Keep
        } else if new_page.ptr().0 == start_ptr.0 {
            BrkAction::Unmap(start..old_page)
        } else if old_page.ptr().0 == start_ptr.0 {
            BrkAction::MapAnonymous(start..new_page)
        } else {
            BrkAction::Remap(start..old_page, new_page.ptr().0 - start_ptr.0)
        };
        (action, new_end)
    }

    /// Finish a `brk` call planned by `brk_plan`, once its memory change (if any) has been
    /// made: on success the heap end becomes the planned end, which the call returns; on
    /// failure the heap is left as it was and the call returns the error.
    pub fn brk_commit(&mut self, planned_end: VPtr, change: Result<(), Errno>) -> (r: Result<
        VPtr,
        Errno,
    >)
        ensures
            change is Ok ==> final(self).brk == planned_end && final(self).brk_start == old(
                self,
            ).brk_start && r == Ok::<VPtr, Errno>(planned_end),
            change matches Err(e) ==> *final(self) == *old(self) && r == Err::<VPtr, Errno>(e),
    {
        match change {
            Ok(()) => {
                self.brk = planned_end;
                Ok(planned_end)
            },
            Err(e) => Err(e),
        }
    }
}

} // verus!
