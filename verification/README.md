# bandsocks

The core of a container runtime that runs each process of an image under a ptrace
tracer with a seccomp filter, emulating the system calls that touch the filesystem.

`src/` is the library, written in Verus and verified:

- `buffer`, `wire`, `wire_to_sand`, `wire_from_sand`: the IPC buffer (two bounded FIFO
  queues over fixed storage) and the encoding of every message on it, with the laws that
  what is pushed is popped back, in order.
- `protocol`, `abi`, `syscall`, `task`, `trampoline`, `layout`, `stack`, `kernel`, `maps`, `mem`, `fd_copy`,
  `rw`, `parser`, `nolibc`, `init`, `startup`, `ipc`: the tracer's decisions, the parsers
  for procfs files and directory records, the process memory model and the start-up of
  the sandbox process.
- `binformat`: ELF and script detection and loading decisions.
- `bpf`: seccomp filter programs, with the laws that the comparisons they contain send
  control where they should.
- `vfs`, `tar`, `client`: the in-memory image filesystem and the image client's settings.
- `table`: the table of sandboxed processes.

`app/` holds what needs the operating system: file paths, reading procfs files, the
loops that run the library's decisions against a traced process (the emulator, the
loader), the socket, and the platform's cache directory. `tests/` runs the library.
