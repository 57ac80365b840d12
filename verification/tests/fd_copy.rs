use bandsocks::fd_copy::{copy_exact_result, zero_file_growth, FdCopy};
use bandsocks::protocol::Errno;

#[test]
fn whole_copy_in_parts() {
    let mut c = FdCopy::new(100, 7, 10000);
    let mut parts = vec![];
    while let Some(part) = c.next_part(4096) {
        parts.push((part, c.src_offset, c.dest_offset));
        c.record(part, part, part);
    }
    assert_eq!(parts, vec![(4096, 100, 7), (4096, 4196, 4103), (1808, 8292, 8199)]);
    assert_eq!(c.transferred, 10000);
    assert_eq!(c.remaining, 0);
    assert!(!c.stopped);
    assert_eq!(copy_exact_result(c.transferred, 10000), Ok(()));
}

#[test]
fn short_write_stops_the_copy() {
    let mut c = FdCopy::new(0, 0, 5000);
    let part = c.next_part(4096).unwrap();
    c.record(part, part, 1000);
    assert!(c.stopped);
    assert_eq!(c.transferred, 1000);
    assert_eq!(c.next_part(4096), None);
    assert_eq!(copy_exact_result(c.transferred, 5000), Err(Errno(-5)));
}

#[test]
fn end_of_source_stops_the_copy() {
    let mut c = FdCopy::new(0, 0, 5000);
    let part = c.next_part(4096).unwrap();
    c.record(part, part, part);
    let part = c.next_part(4096).unwrap();
    assert_eq!(part, 904);
    c.record(part, 0, 0);
    assert!(c.stopped);
    assert_eq!(c.transferred, 4096);
    assert_eq!(c.next_part(4096), None);
}

#[test]
fn empty_copy() {
    let c = FdCopy::new(0, 0, 0);
    assert_eq!(c.next_part(4096), None);
    assert_eq!(copy_exact_result(c.transferred, 0), Ok(()));
}

#[test]
fn zero_file_grows_only_when_needed() {
    assert_eq!(zero_file_growth(0, 4096), Some(4095));
    assert_eq!(zero_file_growth(8192, 4096), None);
    assert_eq!(zero_file_growth(4096, 4096), None);
}
