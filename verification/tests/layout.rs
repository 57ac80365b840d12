use bandsocks::abi::{PR_SET_MM, PR_SET_MM_AUXV, PR_SET_MM_BRK, PR_SET_MM_START_CODE};
use bandsocks::layout::{install_step, InstallStep, MemLayout, INSTALL_CALLS};
use bandsocks::protocol::{Errno, VPtr};

#[test]
fn new_layout_is_empty() {
    let l = MemLayout::new(VPtr(0x7ff000));
    assert_eq!(l.start_code, VPtr(usize::MAX));
    assert_eq!(l.end_code, VPtr(0));
    assert_eq!(l.start_stack, VPtr(0x7ff000));
    assert_eq!(l.brk, VPtr(0));
}

#[test]
fn ranges_grow_to_cover() {
    let mut l = MemLayout::new(VPtr(0));
    l.extend_code(VPtr(0x401000), 0x1000);
    l.extend_code(VPtr(0x400000), 0x100);
    assert_eq!((l.start_code, l.end_code), (VPtr(0x400000), VPtr(0x402000)));
    l.extend_data(VPtr(0x600000), 0x10);
    assert_eq!((l.start_data, l.end_data), (VPtr(0x600000), VPtr(0x600010)));
    l.extend_memory(VPtr(0x600000), 0x2000);
    l.extend_memory(VPtr(0x500000), 0x10);
    assert_eq!((l.start_brk, l.brk), (VPtr(0x602000), VPtr(0x602000)));
}

#[test]
fn brk_randomization() {
    let mut l = MemLayout::new(VPtr(0));
    l.extend_memory(VPtr(0x600000), 0x123);
    l.randomize_brk(3);
    assert_eq!(l.brk, VPtr(0x604000));
    assert_eq!(l.start_brk, VPtr(0x604000));
    let mut m = MemLayout::new(VPtr(0));
    m.randomize_brk(0x2000);
    assert_eq!(m.brk, VPtr(0));
}

#[test]
fn install_arguments() {
    let mut l = MemLayout::new(VPtr(0x7000));
    l.auxv_ptr = VPtr(0x9000);
    l.auxv_len = 0x150;
    l.brk = VPtr(0x5000);
    let args = l.install_args();
    assert_eq!(args[0], [PR_SET_MM, PR_SET_MM_START_CODE, -1, 0]);
    assert_eq!(args[6], [PR_SET_MM, PR_SET_MM_BRK, 0x5000, 0]);
    assert_eq!(args[12], [PR_SET_MM, PR_SET_MM_AUXV, 0x9000, 0x150]);
    assert_eq!(PR_SET_MM, 35);
    assert_eq!(MemLayout::install_result(0), Ok(()));
    assert_eq!(MemLayout::install_result(-1), Err(Errno(-1)));
}

#[test]
fn install_stops_at_first_failure() {
    assert_eq!(install_step(0, 0), InstallStep::Next(1));
    assert_eq!(install_step(5, -1), InstallStep::Done(Err(Errno(-1))));
    assert_eq!(install_step(INSTALL_CALLS - 1, 0), InstallStep::Done(Ok(())));
    let results = [0isize, 0, 0, -22, 0, 0, 0, 0, 0, 0, 0, 0, 0];
    let mut i = 0;
    let mut calls = 0;
    let outcome = loop {
        calls += 1;
        match install_step(i, results[i]) {
            InstallStep::Next(n) => i = n,
            InstallStep::Done(r) => break r,
        }
    };
    assert_eq!(outcome, Err(Errno(-22)));
    assert_eq!(calls, 4);
}
