//! How the messages to the sand process travel on the IPC channel, in the encoding of
//! `wire`.
//!
//! A struct is its fields in order, a newtype is its one field, and an enum is its variant
//! index byte followed by the fields of that variant.
use vstd::prelude::*;
use crate::buffer::{Error, IPCBuffer};
use crate::protocol::{
    Errno, FileStat, LogLevel, MessageToSand, ProcessHandle, SysFd, ToTask, TracerSettings,
    VFile, VPid,
};
use crate::wire::{
    WireFormat, Wire, cat, byte_wire, map_parsed, parse_byte, lemma_cat_assoc,
    lemma_parse_byte_wire, lemma_parse_byte_prefix, lemma_parse_byte_suffix, lemma_suffix_trans, put_byte, take_byte, put_tagged,
};

verus! {

impl WireFormat for VPid {
    open spec fn wire(&self) -> Wire {
        self.0.wire()
    }

    open spec fn parse(input: Wire) -> Result<(VPid, Wire), Error> {
        map_parsed(<u32 as WireFormat>::parse(input), |p: u32| VPid(p))
    }

    proof fn lemma_wire_roundtrip(&self, rest: Wire) {
        let p: u32 = self.0;
        p.lemma_wire_roundtrip(rest);
    }

    proof fn lemma_parse_prefix(input: Wire, more: Wire) {
        <u32 as WireFormat>::lemma_parse_prefix(input, more);
    }

    proof fn lemma_parse_suffix(input: Wire) {
        <u32 as WireFormat>::lemma_parse_suffix(input);
    }

    fn put(&self, buf: &mut IPCBuffer) -> (r: Result<(), Error>) {
        let p: u32 = self.0;
        p.put(buf)
    }

    fn take(buf: &mut IPCBuffer) -> (r: Result<VPid, Error>) {
        let p = <u32 as WireFormat>::take(buf)?;
        Ok(VPid(p))
    }
}

impl WireFormat for Errno {
    open spec fn wire(&self) -> Wire {
        self.0.wire()
    }

    open spec fn parse(input: Wire) -> Result<(Errno, Wire), Error> {
        map_parsed(<i32 as WireFormat>::parse(input), |p: i32| Errno(p))
    }

    proof fn lemma_wire_roundtrip(&self, rest: Wire) {
        let p: i32 = self.0;
        p.lemma_wire_roundtrip(rest);
    }

    proof fn lemma_parse_prefix(input: Wire, more: Wire) {
        <i32 as WireFormat>::lemma_parse_prefix(input, more);
    }

    proof fn lemma_parse_suffix(input: Wire) {
        <i32 as WireFormat>::lemma_parse_suffix(input);
    }

    fn put(&self, buf: &mut IPCBuffer) -> (r: Result<(), Error>) {
        let p: i32 = self.0;
        p.put(buf)
    }

    fn take(buf: &mut IPCBuffer) -> (r: Result<Errno, Error>) {
        let p = <i32 as WireFormat>::take(buf)?;
        Ok(Errno(p))
    }
}

impl WireFormat for VFile {
    open spec fn wire(&self) -> Wire {
        self.inode.wire()
    }

    open spec fn parse(input: Wire) -> Result<(VFile, Wire), Error> {
        map_parsed(<usize as WireFormat>::parse(input), |p: usize| VFile { inode: p })
    }

    proof fn lemma_wire_roundtrip(&self, rest: Wire) {
        let p: usize = self.inode;
        p.lemma_wire_roundtrip(rest);
    }

    proof fn lemma_parse_prefix(input: Wire, more: Wire) {
        <usize as WireFormat>::lemma_parse_prefix(input, more);
    }

    proof fn lemma_parse_suffix(input: Wire) {
        <usize as WireFormat>::lemma_parse_suffix(input);
    }

    fn put(&self, buf: &mut IPCBuffer) -> (r: Result<(), Error>) {
        let p: usize = self.inode;
        p.put(buf)
    }

    fn take(buf: &mut IPCBuffer) -> (r: Result<VFile, Error>) {
        let p = <usize as WireFormat>::take(buf)?;
        Ok(VFile { inode: p })
    }
}

impl WireFormat for ProcessHandle {
    open spec fn wire(&self) -> Wire {
        (self.mem, self.maps).wire()
    }

    open spec fn parse(input: Wire) -> Result<(ProcessHandle, Wire), Error> {
        map_parsed(<(SysFd, SysFd) as WireFormat>::parse(input), |p: (SysFd, SysFd)| ProcessHandle { mem: p.0, maps: p.1 })
    }

    proof fn lemma_wire_roundtrip(&self, rest: Wire) {
        let p: (SysFd, SysFd) = (self.mem, self.maps);
        p.lemma_wire_roundtrip(rest);
    }

    proof fn lemma_parse_prefix(input: Wire, more: Wire) {
        <(SysFd, SysFd) as WireFormat>::lemma_parse_prefix(input, more);
    }

    proof fn lemma_parse_suffix(input: Wire) {
        <(SysFd, SysFd) as WireFormat>::lemma_parse_suffix(input);
    }

    fn put(&self, buf: &mut IPCBuffer) -> (r: Result<(), Error>) {
        let p: (SysFd, SysFd) = (self.mem, self.maps);
        p.put(buf)
    }

    fn take(buf: &mut IPCBuffer) -> (r: Result<ProcessHandle, Error>) {
        let p = <(SysFd, SysFd) as WireFormat>::take(buf)?;
        Ok(ProcessHandle { mem: p.0, maps: p.1 })
    }
}

/// A log level is its variant index: `Off` is 0, up to `Trace` at 5.
pub open spec fn log_level_index(v: LogLevel) -> u8 {
    match v {
            LogLevel::Off => 0,
            LogLevel::Error => 1,
            LogLevel::Warn => 2,
            LogLevel::Info => 3,
            LogLevel::Debug => 4,
            LogLevel::Trace => 5,
    }
}
impl WireFormat for LogLevel {
    open spec fn wire(&self) -> Wire {
        byte_wire(log_level_index(*self))
    }

    open spec fn parse(input: Wire) -> Result<(LogLevel, Wire), Error> {
        match parse_byte(input) {
            Ok((b, rest)) => if b == 0 {
                Ok((LogLevel::Off, rest))
            } else if b == 1 {
                Ok((LogLevel::Error, rest))
            } else if b == 2 {
                Ok((LogLevel::Warn, rest))
            } else if b == 3 {
                Ok((LogLevel::Info, rest))
            } else if b == 4 {
                Ok((LogLevel::Debug, rest))
            } else if b == 5 {
                Ok((LogLevel::Trace, rest))
            } else {
                Err(Error::Deserialize)
            },
            Err(e) => Err(e),
        }
    }

    proof fn lemma_wire_roundtrip(&self, rest: Wire) {
        lemma_parse_byte_wire(log_level_index(*self), rest);
    }

    proof fn lemma_parse_prefix(input: Wire, more: Wire) {
        lemma_parse_byte_prefix(input, more);
    }

    proof fn lemma_parse_suffix(input: Wire) {
        lemma_parse_byte_suffix(input);
    }

    fn put(&self, buf: &mut IPCBuffer) -> (r: Result<(), Error>) {
        match *self {
            LogLevel::Off => put_byte(buf, 0),
            LogLevel::Error => put_byte(buf, 1),
            LogLevel::Warn => put_byte(buf, 2),
            LogLevel::Info => put_byte(buf, 3),
            LogLevel::Debug => put_byte(buf, 4),
            LogLevel::Trace => put_byte(buf, 5),
        }
    }

    fn take(buf: &mut IPCBuffer) -> (r: Result<LogLevel, Error>) {
        let b = take_byte(buf)?;
        if b == 0 {
            Ok(LogLevel::Off)
        } else if b == 1 {
            Ok(LogLevel::Error)
        } else if b == 2 {
            Ok(LogLevel::Warn)
        } else if b == 3 {
            Ok(LogLevel::Info)
        } else if b == 4 {
            Ok(LogLevel::Debug)
        } else if b == 5 {
            Ok(LogLevel::Trace)
        } else {
            Err(Error::Deserialize)
        }
    }
}

impl WireFormat for TracerSettings {
    open spec fn wire(&self) -> Wire {
        (self.max_log_level, self.instruction_trace).wire()
    }

    open spec fn parse(input: Wire) -> Result<(TracerSettings, Wire), Error> {
        map_parsed(<(LogLevel, bool) as WireFormat>::parse(input), |p: (LogLevel, bool)| TracerSettings { max_log_level: p.0, instruction_trace: p.1 })
    }

    proof fn lemma_wire_roundtrip(&self, rest: Wire) {
        let p: (LogLevel, bool) = (self.max_log_level, self.instruction_trace);
        p.lemma_wire_roundtrip(rest);
    }

    proof fn lemma_parse_prefix(input: Wire, more: Wire) {
        <(LogLevel, bool) as WireFormat>::lemma_parse_prefix(input, more);
    }

    proof fn lemma_parse_suffix(input: Wire) {
        <(LogLevel, bool) as WireFormat>::lemma_parse_suffix(input);
    }

    fn put(&self, buf: &mut IPCBuffer) -> (r: Result<(), Error>) {
        let p: (LogLevel, bool) = (self.max_log_level, self.instruction_trace);
        p.put(buf)
    }

    fn take(buf: &mut IPCBuffer) -> (r: Result<TracerSettings, Error>) {
        let p = <(LogLevel, bool) as WireFormat>::take(buf)?;
        Ok(TracerSettings { max_log_level: p.0, instruction_trace: p.1 })
    }
}

impl WireFormat for FileStat {
    open spec fn wire(&self) -> Wire {
        (self.st_dev, (self.st_nlink, (self.st_mode, (self.st_uid, (self.st_gid, (self.st_rdev, (self.st_size, (self.st_atime, (self.st_atime_nsec, (self.st_mtime, (self.st_mtime_nsec, (self.st_ctime, self.st_ctime_nsec)))))))))))).wire()
    }

    open spec fn parse(input: Wire) -> Result<(FileStat, Wire), Error> {
        map_parsed(<(u64, (u64, (u32, (u32, (u32, (u64, (i64, (u64, (u64, (u64, (u64, (u64, u64)))))))))))) as WireFormat>::parse(input), |p: (u64, (u64, (u32, (u32, (u32, (u64, (i64, (u64, (u64, (u64, (u64, (u64, u64))))))))))))| FileStat { st_dev: p.0, st_nlink: (p.1).0, st_mode: ((p.1).1).0, st_uid: (((p.1).1).1).0, st_gid: ((((p.1).1).1).1).0, st_rdev: (((((p.1).1).1).1).1).0, st_size: ((((((p.1).1).1).1).1).1).0, st_atime: (((((((p.1).1).1).1).1).1).1).0, st_atime_nsec: ((((((((p.1).1).1).1).1).1).1).1).0, st_mtime: (((((((((p.1).1).1).1).1).1).1).1).1).0, st_mtime_nsec: ((((((((((p.1).1).1).1).1).1).1).1).1).1).0, st_ctime: (((((((((((p.1).1).1).1).1).1).1).1).1).1).1).0, st_ctime_nsec: (((((((((((p.1).1).1).1).1).1).1).1).1).1).1).1 })
    }

    proof fn lemma_wire_roundtrip(&self, rest: Wire) {
        let p: (u64, (u64, (u32, (u32, (u32, (u64, (i64, (u64, (u64, (u64, (u64, (u64, u64)))))))))))) = (self.st_dev, (self.st_nlink, (self.st_mode, (self.st_uid, (self.st_gid, (self.st_rdev, (self.st_size, (self.st_atime, (self.st_atime_nsec, (self.st_mtime, (self.st_mtime_nsec, (self.st_ctime, self.st_ctime_nsec))))))))))));
        p.lemma_wire_roundtrip(rest);
    }

    proof fn lemma_parse_prefix(input: Wire, more: Wire) {
        <(u64, (u64, (u32, (u32, (u32, (u64, (i64, (u64, (u64, (u64, (u64, (u64, u64)))))))))))) as WireFormat>::lemma_parse_prefix(input, more);
    }

    proof fn lemma_parse_suffix(input: Wire) {
        <(u64, (u64, (u32, (u32, (u32, (u64, (i64, (u64, (u64, (u64, (u64, (u64, u64)))))))))))) as WireFormat>::lemma_parse_suffix(input);
    }

    fn put(&self, buf: &mut IPCBuffer) -> (r: Result<(), Error>) {
        let p: (u64, (u64, (u32, (u32, (u32, (u64, (i64, (u64, (u64, (u64, (u64, (u64, u64)))))))))))) = (self.st_dev, (self.st_nlink, (self.st_mode, (self.st_uid, (self.st_gid, (self.st_rdev, (self.st_size, (self.st_atime, (self.st_atime_nsec, (self.st_mtime, (self.st_mtime_nsec, (self.st_ctime, self.st_ctime_nsec))))))))))));
        p.put(buf)
    }

    fn take(buf: &mut IPCBuffer) -> (r: Result<FileStat, Error>) {
        let p = <(u64, (u64, (u32, (u32, (u32, (u64, (i64, (u64, (u64, (u64, (u64, (u64, u64)))))))))))) as WireFormat>::take(buf)?;
        Ok(FileStat { st_dev: p.0, st_nlink: (p.1).0, st_mode: ((p.1).1).0, st_uid: (((p.1).1).1).0, st_gid: ((((p.1).1).1).1).0, st_rdev: (((((p.1).1).1).1).1).0, st_size: ((((((p.1).1).1).1).1).1).0, st_atime: (((((((p.1).1).1).1).1).1).1).0, st_atime_nsec: ((((((((p.1).1).1).1).1).1).1).1).0, st_mtime: (((((((((p.1).1).1).1).1).1).1).1).1).0, st_mtime_nsec: ((((((((((p.1).1).1).1).1).1).1).1).1).1).0, st_ctime: (((((((((((p.1).1).1).1).1).1).1).1).1).1).1).0, st_ctime_nsec: (((((((((((p.1).1).1).1).1).1).1).1).1).1).1).1 })
    }
}

impl WireFormat for ToTask {
    open spec fn wire(&self) -> Wire {
        match *self {
            ToTask::OpenProcessReply(handle) => cat(byte_wire(0), handle.wire()),
            ToTask::FileReply(result) => cat(byte_wire(1), result.wire()),
            ToTask::FileStatReply(result) => cat(byte_wire(2), result.wire()),
            ToTask::SizeReply(result) => cat(byte_wire(3), result.wire()),
            ToTask::Reply(result) => cat(byte_wire(4), result.wire()),
        }
    }

    open spec fn parse(input: Wire) -> Result<(ToTask, Wire), Error> {
        match parse_byte(input) {
            Ok((b, rest)) => if b == 0 {
                map_parsed(<ProcessHandle as WireFormat>::parse(rest), |p: ProcessHandle| ToTask::OpenProcessReply(p))
            } else if b == 1 {
                map_parsed(<Result<(VFile, SysFd), Errno> as WireFormat>::parse(rest), |p: Result<(VFile, SysFd), Errno>| ToTask::FileReply(p))
            } else if b == 2 {
                map_parsed(<Result<(VFile, FileStat), Errno> as WireFormat>::parse(rest), |p: Result<(VFile, FileStat), Errno>| ToTask::FileStatReply(p))
            } else if b == 3 {
                map_parsed(<Result<usize, Errno> as WireFormat>::parse(rest), |p: Result<usize, Errno>| ToTask::SizeReply(p))
            } else if b == 4 {
                map_parsed(<Result<(), Errno> as WireFormat>::parse(rest), |p: Result<(), Errno>| ToTask::Reply(p))
            } else {
                Err(Error::Deserialize)
            },
            Err(e) => Err(e),
        }
    }

    proof fn lemma_wire_roundtrip(&self, rest: Wire) {
        match *self {
            ToTask::OpenProcessReply(handle) => {
                let p: ProcessHandle = handle;
                lemma_cat_assoc(byte_wire(0), p.wire(), rest);
                lemma_parse_byte_wire(0, cat(p.wire(), rest));
                p.lemma_wire_roundtrip(rest);
            },
            ToTask::FileReply(result) => {
                let p: Result<(VFile, SysFd), Errno> = result;
                lemma_cat_assoc(byte_wire(1), p.wire(), rest);
                lemma_parse_byte_wire(1, cat(p.wire(), rest));
                p.lemma_wire_roundtrip(rest);
            },
            ToTask::FileStatReply(result) => {
                let p: Result<(VFile, FileStat), Errno> = result;
                lemma_cat_assoc(byte_wire(2), p.wire(), rest);
                lemma_parse_byte_wire(2, cat(p.wire(), rest));
                p.lemma_wire_roundtrip(rest);
            },
            ToTask::SizeReply(result) => {
                let p: Result<usize, Errno> = result;
                lemma_cat_assoc(byte_wire(3), p.wire(), rest);
                lemma_parse_byte_wire(3, cat(p.wire(), rest));
                p.lemma_wire_roundtrip(rest);
            },
            ToTask::Reply(result) => {
                let p: Result<(), Errno> = result;
                lemma_cat_assoc(byte_wire(4), p.wire(), rest);
                lemma_parse_byte_wire(4, cat(p.wire(), rest));
                p.lemma_wire_roundtrip(rest);
            },
        }
    }

    proof fn lemma_parse_prefix(input: Wire, more: Wire) {
        lemma_parse_byte_prefix(input, more);
        let (b, rest) = parse_byte(input)->Ok_0;
        if b == 0 {
            <ProcessHandle as WireFormat>::lemma_parse_prefix(rest, more);
        } else if b == 1 {
            <Result<(VFile, SysFd), Errno> as WireFormat>::lemma_parse_prefix(rest, more);
        } else if b == 2 {
            <Result<(VFile, FileStat), Errno> as WireFormat>::lemma_parse_prefix(rest, more);
        } else if b == 3 {
            <Result<usize, Errno> as WireFormat>::lemma_parse_prefix(rest, more);
        } else if b == 4 {
            <Result<(), Errno> as WireFormat>::lemma_parse_prefix(rest, more);
        }
    }

    proof fn lemma_parse_suffix(input: Wire) {
        lemma_parse_byte_suffix(input);
        let (b, rest) = parse_byte(input)->Ok_0;
        if b == 0 {
            <ProcessHandle as WireFormat>::lemma_parse_suffix(rest);
            lemma_suffix_trans(input, rest, <ProcessHandle as WireFormat>::parse(rest)->Ok_0.1);
        } else if b == 1 {
            <Result<(VFile, SysFd), Errno> as WireFormat>::lemma_parse_suffix(rest);
            lemma_suffix_trans(input, rest, <Result<(VFile, SysFd), Errno> as WireFormat>::parse(rest)->Ok_0.1);
        } else if b == 2 {
            <Result<(VFile, FileStat), Errno> as WireFormat>::lemma_parse_suffix(rest);
            lemma_suffix_trans(input, rest, <Result<(VFile, FileStat), Errno> as WireFormat>::parse(rest)->Ok_0.1);
        } else if b == 3 {
            <Result<usize, Errno> as WireFormat>::lemma_parse_suffix(rest);
            lemma_suffix_trans(input, rest, <Result<usize, Errno> as WireFormat>::parse(rest)->Ok_0.1);
        } else if b == 4 {
            <Result<(), Errno> as WireFormat>::lemma_parse_suffix(rest);
            lemma_suffix_trans(input, rest, <Result<(), Errno> as WireFormat>::parse(rest)->Ok_0.1);
        }
    }

    fn put(&self, buf: &mut IPCBuffer) -> (r: Result<(), Error>) {
        match *self {
            ToTask::OpenProcessReply(handle) => {
                let p: ProcessHandle = handle;
                put_tagged(buf, 0, &p)
            },
            ToTask::FileReply(result) => {
                let p: Result<(VFile, SysFd), Errno> = result;
                put_tagged(buf, 1, &p)
            },
            ToTask::FileStatReply(result) => {
                let p: Result<(VFile, FileStat), Errno> = result;
                put_tagged(buf, 2, &p)
            },
            ToTask::SizeReply(result) => {
                let p: Result<usize, Errno> = result;
                put_tagged(buf, 3, &p)
            },
            ToTask::Reply(result) => {
                let p: Result<(), Errno> = result;
                put_tagged(buf, 4, &p)
            },
        }
    }

    fn take(buf: &mut IPCBuffer) -> (r: Result<ToTask, Error>) {
        let b = take_byte(buf)?;
        if b == 0 {
            let p = <ProcessHandle as WireFormat>::take(buf)?;
            Ok(ToTask::OpenProcessReply(p))
        } else if b == 1 {
            let p = <Result<(VFile, SysFd), Errno> as WireFormat>::take(buf)?;
            Ok(ToTask::FileReply(p))
        } else if b == 2 {
            let p = <Result<(VFile, FileStat), Errno> as WireFormat>::take(buf)?;
            Ok(ToTask::FileStatReply(p))
        } else if b == 3 {
            let p = <Result<usize, Errno> as WireFormat>::take(buf)?;
            Ok(ToTask::SizeReply(p))
        } else if b == 4 {
            let p = <Result<(), Errno> as WireFormat>::take(buf)?;
            Ok(ToTask::Reply(p))
        } else {
            Err(Error::Deserialize)
        }
    }
}

impl WireFormat for MessageToSand {
    open spec fn wire(&self) -> Wire {
        match *self {
            MessageToSand::Task { task, op } => cat(byte_wire(0), (task, op).wire()),
            MessageToSand::Init { args, tracer_settings } => cat(byte_wire(1), (args, tracer_settings).wire()),
        }
    }

    open spec fn parse(input: Wire) -> Result<(MessageToSand, Wire), Error> {
        match parse_byte(input) {
            Ok((b, rest)) => if b == 0 {
                map_parsed(<(VPid, ToTask) as WireFormat>::parse(rest), |p: (VPid, ToTask)| MessageToSand::Task { task: p.0, op: p.1 })
            } else if b == 1 {
                map_parsed(<(SysFd, TracerSettings) as WireFormat>::parse(rest), |p: (SysFd, TracerSettings)| MessageToSand::Init { args: p.0, tracer_settings: p.1 })
            } else {
                Err(Error::Deserialize)
            },
            Err(e) => Err(e),
        }
    }

    proof fn lemma_wire_roundtrip(&self, rest: Wire) {
        match *self {
            MessageToSand::Task { task, op } => {
                let p: (VPid, ToTask) = (task, op);
                lemma_cat_assoc(byte_wire(0), p.wire(), rest);
                lemma_parse_byte_wire(0, cat(p.wire(), rest));
                p.lemma_wire_roundtrip(rest);
            },
            MessageToSand::Init { args, tracer_settings } => {
                let p: (SysFd, TracerSettings) = (args, tracer_settings);
                lemma_cat_assoc(byte_wire(1), p.wire(), rest);
                lemma_parse_byte_wire(1, cat(p.wire(), rest));
                p.lemma_wire_roundtrip(rest);
            },
        }
    }

    proof fn lemma_parse_prefix(input: Wire, more: Wire) {
        lemma_parse_byte_prefix(input, more);
        let (b, rest) = parse_byte(input)->Ok_0;
        if b == 0 {
            <(VPid, ToTask) as WireFormat>::lemma_parse_prefix(rest, more);
        } else if b == 1 {
            <(SysFd, TracerSettings) as WireFormat>::lemma_parse_prefix(rest, more);
        }
    }

    proof fn lemma_parse_suffix(input: Wire) {
        lemma_parse_byte_suffix(input);
        let (b, rest) = parse_byte(input)->Ok_0;
        if b == 0 {
            <(VPid, ToTask) as WireFormat>::lemma_parse_suffix(rest);
            lemma_suffix_trans(input, rest, <(VPid, ToTask) as WireFormat>::parse(rest)->Ok_0.1);
        } else if b == 1 {
            <(SysFd, TracerSettings) as WireFormat>::lemma_parse_suffix(rest);
            lemma_suffix_trans(input, rest, <(SysFd, TracerSettings) as WireFormat>::parse(rest)->Ok_0.1);
        }
    }

    fn put(&self, buf: &mut IPCBuffer) -> (r: Result<(), Error>) {
        match *self {
            MessageToSand::Task { task, op } => {
                let p: (VPid, ToTask) = (task, op);
                put_tagged(buf, 0, &p)
            },
            MessageToSand::Init { args, tracer_settings } => {
                let p: (SysFd, TracerSettings) = (args, tracer_settings);
                put_tagged(buf, 1, &p)
            },
        }
    }

    fn take(buf: &mut IPCBuffer) -> (r: Result<MessageToSand, Error>) {
        let b = take_byte(buf)?;
        if b == 0 {
            let p = <(VPid, ToTask) as WireFormat>::take(buf)?;
            Ok(MessageToSand::Task { task: p.0, op: p.1 })
        } else if b == 1 {
            let p = <(SysFd, TracerSettings) as WireFormat>::take(buf)?;
            Ok(MessageToSand::Init { args: p.0, tracer_settings: p.1 })
        } else {
            Err(Error::Deserialize)
        }
    }
}

} // verus!
