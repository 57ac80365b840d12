use bandsocks::buffer::{Error, IPCBuffer, BYTES_MAX};
use bandsocks::protocol::{
    Errno, FileStat, FromTask, LogLevel, LogMessage, MessageFromSand, MessageToSand,
    ProcessHandle, Syscall, SysFd, SysPid, ToTask, TracerSettings, UserRegs, VFile, VPid, VPtr,
    VString,
};

#[test]
fn tests_bools() {
    let mut buf = IPCBuffer::new();
    buf.push_back(&true).unwrap();
    assert_eq!(buf.as_slice().bytes, &[1]);
    assert_eq!(buf.pop_front::<bool>(), Ok(true));
    assert!(buf.is_empty());
    buf.push_back(&false).unwrap();
    assert_eq!(buf.as_slice().bytes, &[0]);
    assert_eq!(buf.pop_front::<bool>(), Ok(false));
    assert!(buf.is_empty());
    buf.push_back_byte(1).unwrap();
    buf.push_back_byte(0).unwrap();
    assert_eq!(buf.pop_front::<bool>(), Ok(true));
    assert_eq!(buf.pop_front::<bool>(), Ok(false));
    assert!(buf.is_empty());
    buf.push_back_byte(2).unwrap();
    assert_eq!(buf.pop_front::<bool>(), Err(Error::InvalidValue));
    assert_eq!(buf.as_slice().bytes, &[2]);
}

#[test]
fn protocol_bools() {
    let mut buf = IPCBuffer::new();
    buf.push_back(&true).unwrap();
    assert_eq!(buf.as_slice().bytes, &[1]);
    assert_eq!(buf.pop_front::<bool>(), Ok(true));
    assert!(buf.is_empty());
    buf.push_back(&false).unwrap();
    assert_eq!(buf.as_slice().bytes, &[0]);
    assert_eq!(buf.pop_front::<bool>(), Ok(false));
    assert!(buf.is_empty());
    buf.push_back_byte(1).unwrap();
    buf.push_back_byte(0).unwrap();
    assert_eq!(buf.pop_front::<bool>(), Ok(true));
    assert_eq!(buf.pop_front::<bool>(), Ok(false));
    assert!(buf.is_empty());
    buf.push_back_byte(2).unwrap();
    assert_eq!(buf.pop_front::<bool>(), Err(Error::InvalidValue));
    assert_eq!(buf.as_slice().bytes, &[2]);
}

#[test]
fn tests_options() {
    let mut buf = IPCBuffer::new();
    buf.push_back(&Some(false)).unwrap();
    buf.push_back(&Some(42u8)).unwrap();
    buf.push_back::<Option<u64>>(&None).unwrap();
    buf.push_back::<Option<()>>(&None).unwrap();
    assert_eq!(buf.as_slice().bytes, &[1, 0, 1, 42, 0, 0]);
    assert_eq!(buf.pop_front::<Option<bool>>(), Ok(Some(false)));
    assert_eq!(buf.pop_front::<Option<u8>>(), Ok(Some(42u8)));
    assert_eq!(buf.pop_front::<Option<u64>>(), Ok(None));
    assert_eq!(buf.pop_front::<Option<()>>(), Ok(None));
    assert!(buf.is_empty());
}

#[test]
fn protocol_options() {
    let mut buf = IPCBuffer::new();
    buf.push_back(&Some(false)).unwrap();
    buf.push_back(&Some(42u8)).unwrap();
    buf.push_back::<Option<u64>>(&None).unwrap();
    buf.push_back::<Option<()>>(&None).unwrap();
    assert_eq!(buf.as_slice().bytes, &[1, 0, 1, 42, 0, 0]);
    assert_eq!(buf.pop_front::<Option<bool>>(), Ok(Some(false)));
    assert_eq!(buf.pop_front::<Option<u8>>(), Ok(Some(42u8)));
    assert_eq!(buf.pop_front::<Option<u64>>(), Ok(None));
    assert_eq!(buf.pop_front::<Option<()>>(), Ok(None));
    assert!(buf.is_empty());
}

#[test]
fn tests_messages() {
    let msg1 = MessageToSand::Task {
        task: VPid(12345),
        op: ToTask::FileReply(Ok((VFile { inode: 0x12345678abcdef01 }, SysFd(5)))),
    };
    let msg2 = MessageToSand::Task {
        task: VPid(39503),
        op: ToTask::FileReply(Err(Errno(2333))),
    };
    let msg3 = MessageToSand::Task {
        task: VPid(29862),
        op: ToTask::FileReply(Ok((VFile { inode: 0 }, SysFd(99999)))),
    };
    let msg4 = MessageToSand::Task {
        task: VPid(125),
        op: ToTask::FileReply(Ok((VFile { inode: 777777 }, SysFd(299)))),
    };
    let mut buf = IPCBuffer::new();
    buf.push_back(&msg1).unwrap();
    buf.push_back(&msg2).unwrap();
    buf.push_back(&msg3).unwrap();
    buf.push_back(&msg4).unwrap();
    assert_eq!(buf.as_slice().bytes.len(), 56);
    assert_eq!(buf.as_slice().files.len(), 3);
    assert_eq!(buf.pop_front::<MessageToSand>(), Ok(msg1));
    assert_eq!(buf.pop_front::<MessageToSand>(), Ok(msg2));
    assert_eq!(buf.pop_front::<MessageToSand>(), Ok(msg3));
    assert_eq!(buf.pop_front::<MessageToSand>(), Ok(msg4));
    assert!(buf.is_empty());
}

fn check_incomplete_message() {
    let mut buf = IPCBuffer::new();
    assert_eq!(buf.pop_front::<MessageToSand>(), Err(Error::UnexpectedEnd));
    buf.extend_bytes(&[0x00]).unwrap();
    assert_eq!(buf.pop_front::<MessageToSand>(), Err(Error::UnexpectedEnd));
    buf.push_back_file(SysFd(10)).unwrap();
    buf.extend_bytes(&[0x99]).unwrap();
    assert_eq!(buf.pop_front::<MessageToSand>(), Err(Error::UnexpectedEnd));
    buf.push_back_file(SysFd(20)).unwrap();
    assert_eq!(buf.pop_front::<MessageToSand>(), Err(Error::UnexpectedEnd));
    buf.extend_bytes(&[0x99, 0x66, 0x66]).unwrap();
    assert_eq!(buf.pop_front::<MessageToSand>(), Err(Error::UnexpectedEnd));
    buf.extend_bytes(&[0x00]).unwrap();
    assert_eq!(
        buf.pop_front::<MessageToSand>(),
        Ok(MessageToSand::Task {
            task: VPid(0x66669999),
            op: ToTask::OpenProcessReply(ProcessHandle { mem: SysFd(10), maps: SysFd(20) })
        })
    );
    assert!(buf.is_empty());
}

#[test]
fn tests_incomplete_message() {
    check_incomplete_message();
}

#[test]
fn protocol_incomplete_message() {
    check_incomplete_message();
}

fn round_trip<T: bandsocks::wire::WireFormat + PartialEq + std::fmt::Debug>(
    msg: T,
    bytes: &[u8],
    files: &[SysFd],
) {
    let mut buf = IPCBuffer::new();
    buf.push_back(&msg).unwrap();
    assert_eq!(buf.as_slice().bytes, bytes);
    assert_eq!(buf.as_slice().files, files);
    assert_eq!(buf.pop_front::<T>(), Ok(msg));
    assert!(buf.is_empty());
}

#[test]
fn u32_values() {
    round_trip(0x12345678u32, &[0x78, 0x56, 0x34, 0x12], &[]);
    round_trip(0x00000000u32, &[0x00, 0x00, 0x00, 0x00], &[]);
    round_trip(0xffffffffu32, &[0xff, 0xff, 0xff, 0xff], &[]);
}

#[test]
fn u8_values() {
    round_trip(0x42u8, &[0x42], &[]);
    round_trip(0x00u8, &[0x00], &[]);
    round_trip(0xffu8, &[0xff], &[]);
}

#[test]
fn i32_values() {
    round_trip(0x7fffffffi32, &[0xff, 0xff, 0xff, 0x7f], &[]);
    round_trip(0i32, &[0x00, 0x00, 0x00, 0x00], &[]);
    round_trip(-1i32, &[0xff, 0xff, 0xff, 0xff], &[]);
}

#[test]
fn small_integer_values() {
    round_trip(0xffffu16, &[0xff, 0xff], &[]);
    round_trip(-1i16, &[0xff, 0xff], &[]);
    round_trip(50i8, &[50], &[]);
    round_trip(0i8, &[0x00], &[]);
    round_trip(-1i8, &[0xff], &[]);
}

#[test]
fn u64_values() {
    round_trip(0u64, &[0; 8], &[]);
    round_trip(0xffffffffffffffffu64, &[0xff; 8], &[]);
    round_trip(-1i64, &[0xff; 8], &[]);
}

#[test]
fn word_values() {
    round_trip(0x1122334455667788usize, &[0x88, 0x77, 0x66, 0x55, 0x44, 0x33, 0x22, 0x11], &[]);
    round_trip(-2isize, &[0xfe, 0xff, 0xff, 0xff, 0xff, 0xff, 0xff, 0xff], &[]);
}

#[test]
fn file_values() {
    round_trip(SysFd(0x87654321), &[], &[SysFd(0x87654321)]);
    round_trip(SysFd(0), &[], &[SysFd(0)]);
    round_trip::<Result<SysFd, Errno>>(Ok(SysFd(123)), &[0], &[SysFd(123)]);
    round_trip::<Result<SysFd, Errno>>(Err(Errno(-2)), &[1, 0xfe, 0xff, 0xff, 0xff], &[]);
}

#[test]
fn pointer_values() {
    round_trip(
        VPtr(0x1122334455667788),
        &[0x88, 0x77, 0x66, 0x55, 0x44, 0x33, 0x22, 0x11],
        &[],
    );
}

#[test]
fn pair_values() {
    round_trip((true, 0xabcdu16), &[1, 0xcd, 0xab], &[]);
    round_trip(
        (false, (SysFd(7), 0xaabbccdd00112233u64)),
        &[0, 0x33, 0x22, 0x11, 0x00, 0xdd, 0xcc, 0xbb, 0xaa],
        &[SysFd(7)],
    );
}

#[test]
fn sys_open_1() {
    round_trip(
        MessageFromSand::Task {
            task: VPid(0x12349955),
            op: FromTask::FileOpen {
                dir: None,
                path: VString(VPtr(0x5544332211009933)),
                mode: 0x55667788,
                flags: 0x34562222,
            },
        },
        &[
            0x00, 0x55, 0x99, 0x34, 0x12, 0x02, 0x00, 0x33, 0x99, 0x00, 0x11, 0x22, 0x33, 0x44,
            0x55, 0x22, 0x22, 0x56, 0x34, 0x88, 0x77, 0x66, 0x55,
        ],
        &[],
    );
}

#[test]
fn sys_open_2() {
    round_trip(
        MessageFromSand::Task {
            task: VPid(0x22222222),
            op: FromTask::FileOpen {
                dir: Some(VFile { inode: 0x8888777766665555 }),
                path: VString(VPtr(0x3333333333333333)),
                mode: 0x44444444,
                flags: 0x55555555,
            },
        },
        &[
            0x00, 0x22, 0x22, 0x22, 0x22, 0x02, 0x01, 0x55, 0x55, 0x66, 0x66, 0x77, 0x77, 0x88,
            0x88, 0x33, 0x33, 0x33, 0x33, 0x33, 0x33, 0x33, 0x33, 0x55, 0x55, 0x55, 0x55, 0x44,
            0x44, 0x44, 0x44,
        ],
        &[],
    );
}

#[test]
fn sys_open_reply_1() {
    round_trip(
        MessageToSand::Task {
            task: VPid(0x54555657),
            op: ToTask::FileReply(Ok((VFile { inode: 0x3333444455556666 }, SysFd(42)))),
        },
        &[0x00, 0x57, 0x56, 0x55, 0x54, 0x01, 0x00, 0x66, 0x66, 0x55, 0x55, 0x44, 0x44, 0x33, 0x33],
        &[SysFd(42)],
    );
}

#[test]
fn sys_open_reply_2() {
    round_trip(
        MessageToSand::Task {
            task: VPid(0x11223344),
            op: ToTask::FileReply(Err(Errno(-10))),
        },
        &[0x00, 0x44, 0x33, 0x22, 0x11, 0x01, 0x01, 0xf6, 0xff, 0xff, 0xff],
        &[],
    );
}

#[test]
fn process_open_reply_1() {
    round_trip(
        MessageToSand::Task {
            task: VPid(0x66669999),
            op: ToTask::OpenProcessReply(ProcessHandle { mem: SysFd(10), maps: SysFd(20) }),
        },
        &[0x00, 0x99, 0x99, 0x66, 0x66, 0],
        &[SysFd(10), SysFd(20)],
    );
}

#[test]
fn init_message() {
    round_trip(
        MessageToSand::Init {
            args: SysFd(3),
            tracer_settings: TracerSettings { max_log_level: LogLevel::Debug, instruction_trace: true },
        },
        &[0x01, 0x04, 0x01],
        &[SysFd(3)],
    );
}

#[test]
fn stat_reply() {
    let stat = FileStat {
        st_dev: 1,
        st_nlink: 2,
        st_mode: 0o100644,
        st_uid: 3,
        st_gid: 4,
        st_rdev: 5,
        st_size: -6,
        st_atime: 7,
        st_atime_nsec: 8,
        st_mtime: 9,
        st_mtime_nsec: 10,
        st_ctime: 11,
        st_ctime_nsec: 12,
    };
    let msg = MessageToSand::Task {
        task: VPid(1),
        op: ToTask::FileStatReply(Ok((VFile { inode: 9 }, stat))),
    };
    let mut buf = IPCBuffer::new();
    buf.push_back(&msg).unwrap();
    // variant, pid, variant, Ok, inode, then 10 eight-byte and 3 four-byte fields
    assert_eq!(buf.as_slice().bytes.len(), 1 + 4 + 1 + 1 + 8 + 10 * 8 + 3 * 4);
    assert_eq!(buf.pop_front::<MessageToSand>(), Ok(msg));
    assert!(buf.is_empty());
}

#[test]
fn log_message_with_registers() {
    let mut regs = UserRegs::default();
    regs.r15 = 1;
    regs.gs = 27;
    regs.orig_ax = 0x3c;
    let call = Syscall { nr: 60, args: [1, -2, 3, 4, 5, 6], ret: -38, ip: 0x401000, sp: 0x7ffe0000 };
    let msgs = [
        MessageFromSand::Task { task: VPid(7), op: FromTask::Log(LogLevel::Trace, LogMessage::Signal(11, regs)) },
        MessageFromSand::Task { task: VPid(8), op: FromTask::Log(LogLevel::Info, LogMessage::Emulated(call)) },
        MessageFromSand::Task { task: VPid(9), op: FromTask::OpenProcess(SysPid(1234)) },
        MessageFromSand::Task { task: VPid(10), op: FromTask::Exited(-1) },
    ];
    let mut buf = IPCBuffer::new();
    for m in msgs.iter() {
        buf.push_back(m).unwrap();
    }
    let expected = (1 + 4 + 1 + 1 + 1 + 1 + 27 * 8)
        + (1 + 4 + 1 + 1 + 1 + 10 * 8)
        + (1 + 4 + 1 + 4)
        + (1 + 4 + 1 + 4);
    assert_eq!(buf.as_slice().bytes.len(), expected);
    for m in msgs.iter() {
        assert_eq!(buf.pop_front::<MessageFromSand>(), Ok(*m));
    }
    assert!(buf.is_empty());
}

#[test]
fn unknown_variant_is_refused_and_kept() {
    let mut buf = IPCBuffer::new();
    buf.extend_bytes(&[0x02, 0x01, 0x02, 0x03, 0x04]).unwrap();
    assert_eq!(buf.pop_front::<MessageToSand>(), Err(Error::Deserialize));
    assert_eq!(buf.as_slice().bytes, &[0x02, 0x01, 0x02, 0x03, 0x04]);
    let mut buf = IPCBuffer::new();
    buf.extend_bytes(&[0x06]).unwrap();
    assert_eq!(buf.pop_front::<LogLevel>(), Err(Error::Deserialize));
    let mut buf = IPCBuffer::new();
    buf.extend_bytes(&[0x02]).unwrap();
    assert_eq!(buf.pop_front::<Result<u8, u8>>(), Err(Error::Deserialize));
    assert_eq!(buf.pop_front::<Option<u8>>(), Err(Error::InvalidValue));
    assert_eq!(buf.as_slice().bytes, &[0x02]);
}

#[test]
fn message_too_large_for_the_room_left() {
    let mut buf = IPCBuffer::new();
    let filler = vec![0u8; BYTES_MAX - 3];
    buf.extend_bytes(&filler).unwrap();
    assert_eq!(buf.push_back(&0x01020304u32), Err(Error::BufferFull));
    let mut buf = IPCBuffer::new();
    buf.extend_bytes(&filler).unwrap();
    assert_eq!(buf.push_back(&(1u8, 2u16)), Ok(()));
    assert_eq!(buf.push_back(&()), Ok(()));
    assert_eq!(buf.push_back(&0u8), Err(Error::BufferFull));
}
