//! A sandboxing container runtime's core logic: the byte-stream parsers used on procfs
//! files, the memory-map model of a traced process, seccomp filter construction, the IPC
//! message buffer with the wire encoding of the messages, and the in-memory image
//! filesystem.
use vstd::prelude::*;

pub mod abi;
pub mod args;
pub mod binformat;
pub mod bpf;
pub mod client;
pub mod fd_copy;
pub mod init;
pub mod ipc;
pub mod buffer;
pub mod kernel;
pub mod layout;
pub mod maps;
pub mod mem;
pub mod nolibc;
pub mod parser;
pub mod protocol;
pub mod rw;
pub mod stack;
pub mod startup;
pub mod syscall;
pub mod table;
pub mod task;
pub mod tar;
pub mod trampoline;
pub mod vfs;
pub mod wire;
pub mod wire_to_sand;
pub mod wire_from_sand;
