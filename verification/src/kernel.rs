//! Memory areas of a traced process, as seen by the tracer: page-aligned mappings with
//! their permissions and backing file, and the kernel-provided areas (vDSO, vvar,
//! vsyscall) that must survive when the process's own memory is replaced.
use vstd::prelude::*;
use core::ops::Range;
use crate::maps::{MemArea, MemAreaName, maps_line, read_mem_area};
use crate::mem::{MappedPages, MappedRange, MemFlags, MemProtect, VPage, VPtr, spec_round_down};
use crate::parser::{ByteReader, Stream, eof};

verus! {

/// A device number, major and minor.
#[derive(Eq, PartialEq, Structural, Copy, Clone, Debug)]
pub struct KernelDevice(pub usize, pub usize);

/// The file behind a mapping: its device and inode.
#[derive(Eq, PartialEq, Structural, Copy, Clone, Debug)]
pub struct KernelFile {
    pub device: KernelDevice,
    pub inode: usize,
}

impl KernelFile {
    /// The file of anonymous and kernel-provided mappings.
    pub fn null() -> (r: Self)
        ensures
            r == (KernelFile { device: KernelDevice(0, 0), inode: 0 }),
    {
        KernelFile { device: KernelDevice(0, 0), inode: 0 }
    }
}

#[derive(Debug, Eq, PartialEq, Structural, Copy, Clone)]
pub enum KernelMemName {
    Unnamed,
    VDSO,
    VVar,
    VSyscall,
    Path,
    Other,
}

pub open spec fn kernel_name(n: MemAreaName) -> KernelMemName {
    match n {
        MemAreaName::Unnamed => KernelMemName::Unnamed,
        MemAreaName::VDSO => KernelMemName::VDSO,
        MemAreaName::VVar => KernelMemName::VVar,
        MemAreaName::VSyscall => KernelMemName::VSyscall,
        MemAreaName::Path => KernelMemName::Path,
        MemAreaName::Other => KernelMemName::Other,
    }
}

/// A page-aligned area of a process's memory map.
#[derive(Debug)]
pub struct KernelMemArea {
    pub name: KernelMemName,
    pub pages: MappedPages,
    pub flags: MemFlags,
    pub file: KernelFile,
}

impl KernelMemArea {
    /// This area is the page-aligned form of the maps line `a`.
    pub open spec fn describes(&self, a: MemArea) -> bool {
        &&& self.name == kernel_name(a.name)
        &&& self.flags == (MemFlags {
            protect: MemProtect { read: a.read, write: a.write, execute: a.execute },
            mayshare: a.mayshare,
        })
        &&& self.file == (KernelFile { device: KernelDevice(a.dev_major, a.dev_minor), inode: a.inode })
        &&& self.pages.start_addr() == a.start
        &&& self.pages.end_addr() == a.end
        &&& self.pages.file_offset() == a.offset
    }

    /// Same name, permissions and file, over page ranges that share a page.
    pub open spec fn spec_is_overlap(&self, other: &Self) -> bool {
        &&& self.name == other.name
        &&& self.flags == other.flags
        &&& self.file == other.file
        &&& self.pages.start_addr() < self.pages.end_addr()
        &&& other.pages.start_addr() < other.pages.end_addr()
        &&& self.pages.start_addr() < other.pages.end_addr()
        &&& other.pages.start_addr() < self.pages.end_addr()
    }

    pub fn is_overlap(&self, other: &Self) -> (r: bool)
        ensures
            r == self.spec_is_overlap(other),
    {
        self.name == other.name && self.flags == other.flags && self.file == other.file
            && self.pages.is_overlap(&other.pages)
    }

    /// Convert a parsed maps line; fails when its range or offset is not page-aligned.
    pub fn from_mem_area(a: &MemArea) -> (r: Result<KernelMemArea, ()>)
        ensures
            r is Ok <==> (a.start % 4096 == 0 && a.end % 4096 == 0 && a.offset % 4096 == 0),
            r matches Ok(k) ==> k.describes(*a),
    {
        let range = MappedRange { mem: VPtr(a.start)..VPtr(a.end), file_start: a.offset };
        let pages = MappedPages::parse(&range)?;
        let name = match a.name {
            MemAreaName::Unnamed => KernelMemName::Unnamed,
            MemAreaName::VDSO => KernelMemName::VDSO,
            MemAreaName::VVar => KernelMemName::VVar,
            MemAreaName::VSyscall => KernelMemName::VSyscall,
            MemAreaName::Path => KernelMemName::Path,
            MemAreaName::Other => KernelMemName::Other,
        };
        Ok(
            KernelMemArea {
                name,
                pages,
                flags: MemFlags {
                    protect: MemProtect { read: a.read, write: a.write, execute: a.execute },
                    mayshare: a.mayshare,
                },
                file: KernelFile { device: KernelDevice(a.dev_major, a.dev_minor), inode: a.inode },
            },
        )
    }
}

/// Reads the page-aligned areas of a memory map one line at a time.
pub struct KernelMemIterator {
    pub stream: ByteReader,
}

impl KernelMemIterator {
    pub fn new(stream: ByteReader) -> (r: Self)
        ensures
            r.stream == stream,
    {
        KernelMemIterator { stream }
    }

    /// The next area: `None` at the end of the map, `Some(Err(()))` for a malformed or
    /// unaligned line.
    pub fn next(&mut self) -> (r: Option<Result<KernelMemArea, ()>>)
        ensures
            old(self).stream.rest().len() == 0 ==> r is None && final(self).stream.rest() == old(
                self,
            ).stream.rest(),
            old(self).stream.rest().len() > 0 ==> match maps_line(old(self).stream.rest()) {
                Some((area, n)) => {
                    &&& final(self).stream.rest() == old(self).stream.rest().skip(n)
                    &&& (r matches Some(Ok(_)) <==> (area.start % 4096 == 0 && area.end % 4096 == 0
                        && area.offset % 4096 == 0))
                    &&& r matches Some(x) && (r matches Some(Ok(k)) ==> k.describes(area))
                },
                None => r matches Some(Err(_)),
            },
    {
        let at_end = eof(&mut self.stream);
        if at_end.is_ok() {
            None
        } else {
            match read_mem_area(&mut self.stream) {
                Ok(area) => Some(KernelMemArea::from_mem_area(&area)),
                Err(()) => Some(Err(())),
            }
        }
    }
}

/// The kernel-provided areas of a process.
#[derive(Debug)]
pub struct KernelMemAreas {
    pub vdso: KernelMemArea,
    pub vvar: KernelMemArea,
    pub vsyscall: Option<KernelMemArea>,
    pub vdso_syscall: VPtr,
    pub task_end: VPage,
}

impl KernelMemAreas {
    /// An area belongs to userspace unless it overlaps one of the kernel-provided areas.
    /// Overlap rather than equality is tested, since vvar can change size.
    pub fn is_userspace_area(&self, area: &KernelMemArea) -> (r: bool)
        ensures
            r == !(area.spec_is_overlap(&self.vdso) || area.spec_is_overlap(&self.vvar) || (
            self.vsyscall matches Some(v) && area.spec_is_overlap(&v))),
    {
        if area.is_overlap(&self.vdso) {
            return false;
        }
        if area.is_overlap(&self.vvar) {
            return false;
        }
        match &self.vsyscall {
            Some(vsyscall) => {
                if area.is_overlap(vsyscall) {
                    return false;
                }
            },
            None => {},
        }
        true
    }
}

/// Whether a kernel-provided area may be recorded in `scan`: each kind appears once,
/// unbacked by a file, with the permissions the kernel gives it.
pub open spec fn scan_accepts(scan: KernelAreaScan, map: KernelMemArea) -> bool {
    let null = KernelFile { device: KernelDevice(0, 0), inode: 0 };
    match map.name {
        KernelMemName::VDSO => {
            &&& map.flags == (MemFlags {
                protect: MemProtect { read: true, write: false, execute: true },
                mayshare: false,
            })
            &&& map.file == null
            &&& scan.vdso is None
        },
        KernelMemName::VVar => {
            &&& map.flags == (MemFlags {
                protect: MemProtect { read: true, write: false, execute: false },
                mayshare: false,
            })
            &&& map.file == null
            &&& scan.vvar is None
        },
        KernelMemName::VSyscall => {
            &&& !map.flags.protect.write
            &&& map.flags.protect.execute
            &&& !map.flags.mayshare
            &&& map.file == null
            &&& scan.vsyscall is None
        },
        _ => true,
    }
}

/// The kernel-provided areas found so far while reading a process's memory map, and
/// the lowest page any of them starts at: where the task's own memory must end.
#[derive(Debug)]
pub struct KernelAreaScan {
    pub vdso: Option<KernelMemArea>,
    pub vvar: Option<KernelMemArea>,
    pub vsyscall: Option<KernelMemArea>,
    pub task_end: VPage,
}

impl KernelAreaScan {
    /// Nothing found yet; the task may reach the top of the address space.
    pub fn new() -> (r: Self)
        ensures
            r.vdso is None,
            r.vvar is None,
            r.vsyscall is None,
            r.task_end.addr() == spec_round_down(usize::MAX),
    {
        KernelAreaScan { vdso: None, vvar: None, vsyscall: None, task_end: VPage::max() }
    }

    /// Whether `map` may be recorded: what `scan_accepts` asks, tested.
    pub fn accepts(&self, map: &KernelMemArea) -> (r: bool)
        ensures
            r == scan_accepts(*self, *map),
    {
        let f = map.flags;
        let p = f.protect;
        let null_file = map.file.device.0 == 0 && map.file.device.1 == 0 && map.file.inode == 0;
        match map.name {
            KernelMemName::VDSO => p.read && !p.write && p.execute && !f.mayshare && null_file
                && self.vdso.is_none(),
            KernelMemName::VVar => p.read && !p.write && !p.execute && !f.mayshare && null_file
                && self.vvar.is_none(),
            KernelMemName::VSyscall => !p.write && p.execute && !f.mayshare && null_file
                && self.vsyscall.is_none(),
            _ => true,
        }
    }

    /// Take in the next area of the map. A kernel-provided one is recorded, and lowers
    /// the end of the task's memory to its first page; any other is passed over.
    pub fn record(&mut self, map: KernelMemArea)
        requires
            scan_accepts(*old(self), map),
        ensures
            ({
                let kernel = map.name is VDSO || map.name is VVar || map.name is VSyscall;
                &&& final(self).vdso == (if map.name is VDSO { Some(map) } else { old(self).vdso })
                &&& final(self).vvar == (if map.name is VVar { Some(map) } else { old(self).vvar })
                &&& final(self).vsyscall == (if map.name is VSyscall {
                    Some(map)
                } else {
                    old(self).vsyscall
                })
                &&& final(self).task_end.addr() == (if kernel && map.pages.start_addr()
                    < old(self).task_end.addr() {
                    map.pages.start_addr()
                } else {
                    old(self).task_end.addr()
                })
            }),
    {
        let kernel = match map.name {
            KernelMemName::VDSO => true,
            KernelMemName::VVar => true,
            KernelMemName::VSyscall => true,
            _ => false,
        };
        if kernel {
            let start = map.pages.mem_pages().start;
            if start.ptr().0 < self.task_end.ptr().0 {
                self.task_end = start;
            }
        }
        match map.name {
            KernelMemName::VDSO => {
                self.vdso = Some(map);
            },
            KernelMemName::VVar => {
                self.vvar = Some(map);
            },
            KernelMemName::VSyscall => {
                self.vsyscall = Some(map);
            },
            _ => {},
        }
    }

    /// The memory of the vDSO, to search for its system call instruction, once both the
    /// vDSO and the vvar area have been found; `None` while either is missing.
    pub fn vdso_range(&self) -> (r: Option<Range<VPtr>>)
        ensures
            r is None <==> self.vdso is None || self.vvar is None,
            r matches Some(g) ==> g.start.0 == self.vdso->Some_0.pages.start_addr() && g.end.0
                == self.vdso->Some_0.pages.end_addr(),
    {
        match (&self.vdso, &self.vvar) {
            (Some(vdso), Some(_)) => Some(vdso.pages.mem_range()),
            _ => None,
        }
    }

    /// The kernel-provided areas, once the whole map was read and the system call
    /// instruction was found inside the vDSO.
    pub fn finish(self, vdso_syscall: VPtr) -> (r: KernelMemAreas)
        requires
            self.vdso is Some,
            self.vvar is Some,
        ensures
            Some(r.vdso) == self.vdso,
            Some(r.vvar) == self.vvar,
            r.vsyscall == self.vsyscall,
            r.vdso_syscall == vdso_syscall,
            r.task_end == self.task_end,
    {
        KernelMemAreas {
            vdso: self.vdso.unwrap(),
            vvar: self.vvar.unwrap(),
            vsyscall: self.vsyscall,
            vdso_syscall,
            task_end: self.task_end,
        }
    }
}

} // verus!
