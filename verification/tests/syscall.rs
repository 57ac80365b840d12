use bandsocks::mem::VPage;
use bandsocks::protocol::{
    Errno, FileStat, FollowLinks, FromTask, LogLevel, Syscall, VFile, VPid, VPtr, VString,
    VStringBuffer,
};
use bandsocks::syscall::{
    decide, fault_or, return_errno, return_result, return_size_result, return_vptr_result,
    uname_fields, user_stat, with_cleanup, BrkAction, RemoteFd, ReplyConversion, SyscallAction,
    TaskMemManagement, NR_BRK, NR_GETPID, NR_NEWFSTATAT, NR_OPENAT, NR_STAT, NR_WAIT4,
};

fn call(nr: usize, args: [isize; 6]) -> Syscall {
    Syscall { nr: nr as isize, args, ret: 0, ip: 0, sp: 0 }
}

#[test]
fn return_values() {
    assert_eq!(return_errno(Errno(-2)), -2);
    assert_eq!(return_result(Ok(())), 0);
    assert_eq!(return_result(Err(Errno(-13))), -13);
    assert_eq!(return_vptr_result(Ok(VPtr(0x1000))), 0x1000);
    assert_eq!(return_size_result(Ok(7)), 7);
    assert_eq!(return_size_result(Err(Errno(-34))), -34);
    assert_eq!(fault_or::<u8>(Err(())), Err(Errno(-14)));
    assert_eq!(fault_or(Ok(3u8)), Ok(3));
    assert_eq!(RemoteFd::invalid(), RemoteFd(u32::MAX));
}

#[test]
fn dispatch_decisions() {
    assert_eq!(decide(&call(NR_GETPID, [0; 6]), VPid(7)), (SyscallAction::Return(7), LogLevel::Debug));
    assert_eq!(decide(&call(NR_WAIT4, [0; 6]), VPid(7)).0, SyscallAction::Return(-10));
    assert_eq!(decide(&call(NR_BRK, [0x5000, 0, 0, 0, 0, 0]), VPid(1)).0, SyscallAction::Brk(VPtr(0x5000)));
    assert_eq!(
        decide(&call(NR_STAT, [0x100, 0x200, 0, 0, 0, 0]), VPid(1)).0,
        SyscallAction::Ipc(
            FromTask::FileStat { file: None, path: Some(VString(VPtr(0x100))), follow_links: FollowLinks::Follow },
            ReplyConversion::Stat(VPtr(0x200)),
        )
    );
    let at = decide(&call(NR_NEWFSTATAT, [-100, 0x10, 0x20, 0x100, 0, 0]), VPid(1));
    assert_eq!(at.1, LogLevel::Warn);
    assert_eq!(
        at.0,
        SyscallAction::Ipc(
            FromTask::FileStat { file: None, path: Some(VString(VPtr(0x10))), follow_links: FollowLinks::NoFollow },
            ReplyConversion::Stat(VPtr(0x20)),
        )
    );
    assert_eq!(decide(&call(NR_NEWFSTATAT, [3, 0x10, 0x20, 0, 0, 0]), VPid(1)).0, SyscallAction::Unsupported);
    assert_eq!(
        decide(&call(NR_OPENAT, [-100, 0x30, 2, 0o644, 0, 0]), VPid(1)).0,
        SyscallAction::Ipc(
            FromTask::FileOpen { dir: None, path: VString(VPtr(0x30)), flags: 2, mode: 0o644 },
            ReplyConversion::File,
        )
    );
    assert_eq!(decide(&call(NR_OPENAT, [4, 0x30, 2, 0, 0, 0]), VPid(1)).0, SyscallAction::Unsupported);
    assert_eq!(decide(&call(9999, [0; 6]), VPid(1)).0, SyscallAction::Unsupported);
    let _ = VStringBuffer(VString(VPtr(0)), 0);
}

#[test]
fn cleanup_errors_come_second() {
    assert_eq!(with_cleanup(Ok(5), Ok(())), Ok(5));
    assert_eq!(with_cleanup::<u8>(Err(Errno(-1)), Err(Errno(-2))), Err(Errno(-1)));
    assert_eq!(with_cleanup(Ok(5), Err(Errno(-2))), Err(Errno(-2)));
}

#[test]
fn stat_record() {
    let fs = FileStat {
        st_dev: 1,
        st_nlink: 2,
        st_mode: 0o100644,
        st_uid: 3,
        st_gid: 4,
        st_rdev: 0,
        st_size: 1025,
        st_atime: 10,
        st_atime_nsec: 11,
        st_mtime: 12,
        st_mtime_nsec: 13,
        st_ctime: 14,
        st_ctime_nsec: 15,
    };
    let s = user_stat(VFile { inode: 99 }, &fs);
    assert_eq!((s.st_ino, s.st_blksize, s.st_blocks, s.st_size), (99, 4096, 3, 1025));
    assert_eq!((s.st_mode, s.st_uid, s.st_gid, s.pad0), (0o100644, 3, 4, 0));
    assert_eq!(s.unused, [0; 3]);
    let empty = user_stat(VFile { inode: 1 }, &FileStat { st_size: 0, ..fs });
    assert_eq!(empty.st_blocks, 0);
}

#[test]
fn uname_strings() {
    let f = uname_fields(VPtr(0x1000));
    assert_eq!(f.len(), 5);
    assert_eq!(f[0], (VPtr(0x1000), b"Linux\0".to_vec()));
    assert_eq!(f[1], (VPtr(0x1000 + 65), b"host\0".to_vec()));
    assert_eq!(f[2], (VPtr(0x1000 + 130), b"4.0.0-bandsocks\0".to_vec()));
    assert_eq!(f[3], (VPtr(0x1000 + 195), b"#1 SMP\0".to_vec()));
    assert_eq!(f[4], (VPtr(0x1000 + 260), b"x86_64\0".to_vec()));
}

#[test]
fn brk_commits() {
    let start = VPage::round_down(VPtr(0x600000));
    let mut mm = TaskMemManagement { brk: VPtr(0x600000), brk_start: start };
    let (_, end) = mm.brk_plan(VPtr(0x601234));
    assert_eq!(mm.brk_commit(end, Err(Errno(-12))), Err(Errno(-12)));
    assert_eq!(mm.brk, VPtr(0x600000));
    assert_eq!(mm.brk_commit(end, Ok(())), Ok(VPtr(0x601234)));
    assert_eq!(mm.brk, VPtr(0x601234));
    let (_, end) = mm.brk_plan(VPtr(0x100));
    assert_eq!(mm.brk_commit(end, Ok(())), Ok(VPtr(0x600000)));
}

#[test]
fn brk_plans() {
    let start = VPage::round_down(VPtr(0x600000));
    let mm = TaskMemManagement { brk: VPtr(0x600000), brk_start: start };
    let (action, brk) = mm.brk_plan(VPtr(0));
    assert!(matches!(action, BrkAction::Keep));
    assert_eq!(brk, VPtr(0x600000));
    let (action, brk) = mm.brk_plan(VPtr(0x601234));
    match action {
        BrkAction::MapAnonymous(p) => assert_eq!((p.start.ptr(), p.end.ptr()), (VPtr(0x600000), VPtr(0x602000))),
        other => panic!("{:?}", other),
    }
    assert_eq!(brk, VPtr(0x601234));
    let grown = TaskMemManagement { brk: VPtr(0x601234), brk_start: start };
    let (action, _) = grown.brk_plan(VPtr(0x601fff));
    assert!(matches!(action, BrkAction::Keep));
    match grown.brk_plan(VPtr(0x603001)).0 {
        BrkAction::Remap(p, len) => {
            assert_eq!((p.start.ptr(), p.end.ptr()), (VPtr(0x600000), VPtr(0x602000)));
            assert_eq!(len, 0x4000);
        }
        other => panic!("{:?}", other),
    }
    let (action, brk) = grown.brk_plan(VPtr(0x100));
    match action {
        BrkAction::Unmap(p) => assert_eq!((p.start.ptr(), p.end.ptr()), (VPtr(0x600000), VPtr(0x602000))),
        other => panic!("{:?}", other),
    }
    assert_eq!(brk, VPtr(0x600000));
}
