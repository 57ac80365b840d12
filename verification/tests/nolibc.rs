use bandsocks::nolibc::{
    c_unwrap_nul, DirIterator, DIRENT_BUF_SIZE, DIRENT_HEADER_SIZE, DIRENT_NAME_OFFSET,
};

fn record(ino: u64, off: i64, d_type: u8, name: &[u8], reclen: u16) -> Vec<u8> {
    let mut r = Vec::new();
    r.extend_from_slice(&ino.to_le_bytes());
    r.extend_from_slice(&off.to_le_bytes());
    r.extend_from_slice(&reclen.to_le_bytes());
    r.push(d_type);
    r.extend_from_slice(name);
    r.push(0);
    r.resize(reclen as usize, 0);
    r
}

#[test]
fn strips_the_nul() {
    assert_eq!(c_unwrap_nul(b"abc\0"), b"abc");
    assert_eq!(c_unwrap_nul(b"\0"), b"");
}

#[test]
fn header_layout() {
    assert_eq!(DIRENT_HEADER_SIZE, 24);
    assert_eq!(DIRENT_NAME_OFFSET, 19);
    assert_eq!(DIRENT_BUF_SIZE, 512);
}

#[test]
fn reads_records_then_drains() {
    let mut data = record(5, 1, 4, b".", 24);
    data.extend(record(77, -3, 8, b"file.txt", 32));
    let mut it = DirIterator::new();
    assert!(it.is_drained());
    assert!(it.next().is_none());
    it.refill(&data);
    assert!(!it.is_drained());
    {
        let d = it.next().unwrap();
        assert_eq!((d.d_ino, d.d_off, d.d_type), (5, 1, 4));
        assert_eq!(d.d_name, b".");
    }
    {
        let d = it.next().unwrap();
        assert_eq!((d.d_ino, d.d_off, d.d_type), (77, -3, 8));
        assert_eq!(d.d_name, b"file.txt");
    }
    assert!(it.is_drained());
    assert!(it.next().is_none());
}

/// Drive the reader as a directory stream: refill from the next read whenever drained.
fn read_stream(reads: Vec<Vec<u8>>) -> Vec<(u8, Vec<u8>)> {
    let mut reads = reads.into_iter();
    let mut it = DirIterator::new();
    let mut out = Vec::new();
    loop {
        if it.is_drained() {
            it.refill(&reads.next().unwrap_or_default());
        }
        match it.next() {
            Some(d) => out.push((d.d_type, d.d_name.to_vec())),
            None => break,
        }
    }
    out
}

#[test]
fn stream_over_refills_yields_each_entry_once_in_order() {
    let mut first = record(1, 1, 4, b".", 24);
    first.extend(record(2, 2, 4, b"..", 24));
    let second = record(3, 3, 10, b"0", 24);
    let mut third = record(4, 4, 10, b"1", 24);
    third.extend(record(5, 5, 10, b"2", 32));
    let after_end = record(6, 6, 10, b"9", 24);
    let got = read_stream(vec![first, second, third, Vec::new(), after_end]);
    let names: Vec<&[u8]> = got.iter().map(|(_, n)| n.as_slice()).collect();
    assert_eq!(names, vec![&b"."[..], b"..", b"0", b"1", b"2"]);
    assert_eq!(got[2].0, 10);
}
