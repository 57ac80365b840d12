//! Types shared by the runtime and the sandbox process: identifiers, pointers into the
//! sandboxed address space, the register file, and the IPC messages.
use vstd::prelude::*;

verus! {

/// Exit codes returned by the sand process.
pub const EXIT_OK: usize = 0;
pub const EXIT_PANIC: usize = 120;
pub const EXIT_DISCONNECTED: usize = 121;
pub const EXIT_IO_ERROR: usize = 122;
pub const EXIT_OUT_OF_MEM: usize = 123;

#[derive(Debug, Copy, Clone, Eq, PartialEq, Structural)]
pub enum LogLevel {
    Off,
    Error,
    Warn,
    Info,
    Debug,
    Trace,
}

#[derive(Debug, Copy, Clone, Eq, PartialEq, Structural)]
pub enum FollowLinks {
    NoFollow,
    Follow,
}

#[derive(Debug, Copy, Clone, Eq, PartialEq, Structural)]
pub struct FileStat {
    pub st_dev: u64,
    pub st_nlink: u64,
    pub st_mode: u32,
    pub st_uid: u32,
    pub st_gid: u32,
    pub st_rdev: u64,
    pub st_size: i64,
    pub st_atime: u64,
    pub st_atime_nsec: u64,
    pub st_mtime: u64,
    pub st_mtime_nsec: u64,
    pub st_ctime: u64,
    pub st_ctime_nsec: u64,
}

pub type INodeNum = usize;

#[derive(Debug, Copy, Clone, PartialEq, Eq, Structural)]
pub struct VFile {
    pub inode: INodeNum,
}

/// A file descriptor number in the sand process or the runtime.
#[derive(Debug, PartialEq, Eq, Copy, Clone, Structural)]
pub struct SysFd(pub u32);

impl Default for SysFd {
    fn default() -> (r: Self)
        ensures
            r.0 == u32::MAX,
    {
        SysFd(u32::MAX)
    }
}

#[derive(Debug, Copy, Clone, Eq, PartialEq, Structural)]
pub struct ProcessHandle {
    pub mem: SysFd,
    pub maps: SysFd,
}

#[derive(Debug, PartialEq, Eq, Copy, Clone, Structural)]
pub struct SysPid(pub u32);

#[derive(Debug, PartialEq, Eq, Copy, Clone, Structural)]
pub struct Signal(pub u32);

#[derive(Debug, PartialEq, Eq, Copy, Clone, Structural)]
pub struct Errno(pub i32);

/// A process id inside the sandbox.
#[derive(Debug, PartialEq, Eq, Copy, Clone, Structural)]
pub struct VPid(pub u32);

/// A pointer into the address space of a sandboxed process.
#[derive(PartialEq, Eq, Structural, Copy, Clone, Debug)]
pub struct VPtr(pub usize);

impl VPtr {
    pub fn null() -> (r: VPtr)
        ensures
            r.0 == 0,
    {
        VPtr(0)
    }

    pub fn add(&self, count: usize) -> (r: VPtr)
        requires
            self.0 + count <= usize::MAX,
        ensures
            r.0 == self.0 + count,
    {
        VPtr(self.0 + count)
    }
}

/// A NUL-terminated string in the sandboxed address space.
#[derive(Debug, PartialEq, Eq, Copy, Clone, Structural)]
pub struct VString(pub VPtr);

/// A writable buffer of the given size in the sandboxed address space.
#[derive(Debug, PartialEq, Eq, Copy, Clone, Structural)]
pub struct VStringBuffer(pub VString, pub usize);

/// A system call as seen at a ptrace stop.
#[derive(PartialEq, Eq, Copy, Clone, Debug)]
pub struct Syscall {
    pub nr: isize,
    pub args: [isize; 6],
    pub ret: isize,
    pub ip: usize,
    pub sp: usize,
}

/// user_regs_struct, linux/arch/x86/include/asm/user_64.h
#[derive(Default, PartialEq, Eq, Structural, Copy, Clone, Debug)]
pub struct UserRegs {
    pub r15: usize,
    pub r14: usize,
    pub r13: usize,
    pub r12: usize,
    pub bp: usize,
    pub bx: usize,
    pub r11: usize,
    pub r10: usize,
    pub r9: usize,
    pub r8: usize,
    pub ax: usize,
    pub cx: usize,
    pub dx: usize,
    pub si: usize,
    pub di: usize,
    pub orig_ax: usize,
    pub ip: usize,
    pub cs: usize,
    pub flags: usize,
    pub sp: usize,
    pub ss: usize,
    pub fs_base: usize,
    pub gs_base: usize,
    pub ds: usize,
    pub es: usize,
    pub fs: usize,
    pub gs: usize,
}

/// The register holding syscall argument `i` in the x86_64 syscall convention.
pub open spec fn arg_reg(regs: UserRegs, i: int) -> usize {
    if i == 0 {
        regs.di
    } else if i == 1 {
        regs.si
    } else if i == 2 {
        regs.dx
    } else if i == 3 {
        regs.r10
    } else if i == 4 {
        regs.r8
    } else {
        regs.r9
    }
}

/// Argument `i` of `args`, as a register holds it; zero past the end.
pub open spec fn arg_or_zero(args: Seq<isize>, i: int) -> usize {
    if i < args.len() {
        args[i] as usize
    } else {
        0usize
    }
}

/// `regs` with the six argument registers set from `args`.
pub open spec fn with_args(regs: UserRegs, args: Seq<isize>) -> UserRegs {
    UserRegs {
        di: arg_or_zero(args, 0),
        si: arg_or_zero(args, 1),
        dx: arg_or_zero(args, 2),
        r10: arg_or_zero(args, 3),
        r8: arg_or_zero(args, 4),
        r9: arg_or_zero(args, 5),
        ..regs
    }
}

impl Syscall {
    /// The syscall described by the registers at a syscall stop.
    pub fn from_regs(regs: &UserRegs) -> (r: Self)
        ensures
            r.ip == regs.ip,
            r.sp == regs.sp,
            r.nr == regs.orig_ax as isize,
            r.ret == regs.ax as isize,
            forall|i: int| 0 <= i < 6 ==> r.args[i] == arg_reg(*regs, i) as isize,
    {
        Syscall {
            ip: regs.ip,
            sp: regs.sp,
            nr: regs.orig_ax as isize,
            ret: regs.ax as isize,
            args: [
                regs.di as isize,
                regs.si as isize,
                regs.dx as isize,
                regs.r10 as isize,
                regs.r8 as isize,
                regs.r9 as isize,
            ],
        }
    }

    /// Store up to six syscall arguments; missing ones become zero.
    pub fn args_to_regs(args: &[isize], regs: &mut UserRegs)
        requires
            args@.len() <= 6,
        ensures
            forall|i: int|
                0 <= i < 6 ==> arg_reg(*final(regs), i) == (if i < args@.len() {
                    args@[i] as usize
                } else {
                    0usize
                }),
            *final(regs) == with_args(*old(regs), args@),
    {
        let n = args.len();
        regs.di = if n > 0 { args[0] as usize } else { 0 };
        regs.si = if n > 1 { args[1] as usize } else { 0 };
        regs.dx = if n > 2 { args[2] as usize } else { 0 };
        regs.r10 = if n > 3 { args[3] as usize } else { 0 };
        regs.r8 = if n > 4 { args[4] as usize } else { 0 };
        regs.r9 = if n > 5 { args[5] as usize } else { 0 };
    }

    pub fn nr_to_regs(nr: isize, regs: &mut UserRegs)
        ensures
            *final(regs) == (UserRegs { ax: nr as usize, ..*old(regs) }),
    {
        regs.ax = nr as usize;
    }

    pub fn ret_to_regs(ret_data: isize, regs: &mut UserRegs)
        ensures
            *final(regs) == (UserRegs { ax: ret_data as usize, ..*old(regs) }),
    {
        regs.ax = ret_data as usize;
    }

    pub fn ret_from_regs(regs: &UserRegs) -> (r: isize)
        ensures
            r == regs.ax as isize,
    {
        regs.ax as isize
    }

    /// Set the syscall number to resume, or `SYSCALL_BLOCKED` to skip the call.
    pub fn orig_nr_to_regs(nr: isize, regs: &mut UserRegs)
        ensures
            *final(regs) == (UserRegs { orig_ax: nr as usize, ..*old(regs) }),
    {
        regs.orig_ax = nr as usize;
    }
}

#[derive(Debug, Copy, Clone, Eq, PartialEq)]
pub enum LogMessage {
    Emulated(Syscall),
    Remote(Syscall),
    Signal(u8, UserRegs),
}

#[derive(Debug, Copy, Clone, Eq, PartialEq, Structural)]
pub struct TracerSettings {
    pub max_log_level: LogLevel,
    pub instruction_trace: bool,
}

/// A message delivered to one of the lightweight tasks in the tracer.
#[derive(Debug, Copy, Clone, Eq, PartialEq)]
pub enum ToTask {
    OpenProcessReply(ProcessHandle),
    FileReply(Result<(VFile, SysFd), Errno>),
    FileStatReply(Result<(VFile, FileStat), Errno>),
    SizeReply(Result<usize, Errno>),
    Reply(Result<(), Errno>),
}

/// A message originating from one lightweight task in the tracer.
#[derive(Debug, Copy, Clone, Eq, PartialEq)]
pub enum FromTask {
    OpenProcess(SysPid),
    FileAccess { dir: Option<VFile>, path: VString, mode: i32 },
    FileOpen { dir: Option<VFile>, path: VString, flags: i32, mode: i32 },
    FileStat { file: Option<VFile>, path: Option<VString>, follow_links: FollowLinks },
    ReadLink(VString, VStringBuffer),
    ProcessKill(VPid, Signal),
    ChangeWorkingDir(VString),
    GetWorkingDir(VStringBuffer),
    Exited(i32),
    Log(LogLevel, LogMessage),
}

/// Any message sent from the IPC server to the sand process.
#[derive(Debug, Copy, Clone, Eq, PartialEq)]
pub enum MessageToSand {
    Task { task: VPid, op: ToTask },
    Init { args: SysFd, tracer_settings: TracerSettings },
}

/// Any message sent from the sand process to the IPC server.
#[derive(Debug, Copy, Clone, Eq, PartialEq)]
pub enum MessageFromSand {
    Task { task: VPid, op: FromTask },
}

/// Fixed size header for the variable sized initial args data.
#[derive(Debug, Copy, Clone, Default, PartialEq, Eq, Structural)]
pub struct InitArgsHeader {
    pub dir_len: usize,
    pub filename_len: usize,
    pub argv_len: usize,
    pub arg_count: usize,
    pub envp_len: usize,
    pub env_count: usize,
}

} // verus!
