use bandsocks::init::cstr_vec_pointers;
use bandsocks::protocol::{Errno, SysFd};
use bandsocks::startup::{
    check_sealed_exe, parse_envp_to_file, parse_u32, proc_fd_entry, run_mode, stage_of, RunMode,
    Stage, STAGE_1_TRACER, STAGE_2_INIT_LOADER,
};

#[test]
fn stages() {
    assert_eq!(&STAGE_1_TRACER, b"sand\0");
    assert_eq!(&STAGE_2_INIT_LOADER, b"sand-exec\0");
    assert_eq!(stage_of(b"sand\0", 1, 1), Stage::Tracer);
    assert_eq!(stage_of(b"sand-exec\0", 1, 1), Stage::InitLoader);
    assert_eq!(stage_of(b"sand\0", 2, 1), Stage::Unknown);
    assert_eq!(stage_of(b"sand", 1, 1), Stage::Unknown);
    assert_eq!(stage_of(b"bash\0", 1, 1), Stage::Unknown);
}

#[test]
fn seals() {
    assert_eq!(check_sealed_exe(Ok(15)), Ok(true));
    assert_eq!(check_sealed_exe(Ok(7)), Ok(false));
    assert_eq!(check_sealed_exe(Err(Errno(-9))), Err(Errno(-9)));
}

#[test]
fn numbers_parse_like_str_parse() {
    for s in ["0", "42", "+7", "4294967295", "4294967296", "", "+", "-1", "1a", " 1", "007"] {
        assert_eq!(parse_u32(s.as_bytes()), s.parse::<u32>().ok(), "{}", s);
    }
}

#[test]
fn fd_from_environment() {
    assert_eq!(parse_envp_to_file(b"FD=5\0"), Some(SysFd(5)));
    assert_eq!(parse_envp_to_file(b"FD=\0"), None);
    assert_eq!(parse_envp_to_file(b"FX=5\0"), None);
    assert_eq!(parse_envp_to_file(b"FD=5=6\0"), None);
    assert_eq!(run_mode(Stage::Tracer, true, b"FD=9\0"), RunMode::Tracer(SysFd(9)));
    assert_eq!(run_mode(Stage::Tracer, false, b"FD=9\0"), RunMode::Unknown);
    assert_eq!(run_mode(Stage::InitLoader, false, b"FD=3\0"), RunMode::InitLoader(SysFd(3)));
    assert_eq!(run_mode(Stage::InitLoader, false, b"HOME=/\0"), RunMode::Unknown);
    assert_eq!(run_mode(Stage::Unknown, true, b"FD=3\0"), RunMode::Unknown);
}

#[test]
fn proc_fd_entries() {
    assert_eq!(proc_fd_entry(10, b"17"), Some(SysFd(17)));
    assert_eq!(proc_fd_entry(4, b".."), None);
    assert_eq!(proc_fd_entry(4, b"."), None);
}

#[test]
fn string_pointers() {
    let v = b"ls\0-l\0\0";
    let mut ptrs = [9usize; 3];
    cstr_vec_pointers(v, 0x1000, 2, &mut ptrs);
    assert_eq!(ptrs, [0x1000, 0x1003, 0]);
    let mut empty = [9usize; 1];
    cstr_vec_pointers(b"\0", 0x2000, 0, &mut empty);
    assert_eq!(empty, [0]);
}
