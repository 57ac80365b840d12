use bandsocks::init::INIT_ARGS_HEADER_LEN;
use bandsocks::protocol::InitArgsHeader;

fn header() -> InitArgsHeader {
    InitArgsHeader {
        dir_len: 2,
        filename_len: 8,
        argv_len: 11,
        arg_count: 2,
        envp_len: 5,
        env_count: 1,
    }
}

#[test]
fn header_bytes_are_little_endian_words() {
    let bytes = header().as_bytes();
    assert_eq!(bytes.len(), INIT_ARGS_HEADER_LEN);
    assert_eq!(&bytes[0..8], &[2, 0, 0, 0, 0, 0, 0, 0]);
    assert_eq!(&bytes[8..16], &[8, 0, 0, 0, 0, 0, 0, 0]);
    assert_eq!(&bytes[40..48], &[1, 0, 0, 0, 0, 0, 0, 0]);
    assert_eq!(InitArgsHeader::from_bytes(&bytes), header());
}

#[test]
fn header_word_order() {
    let mut bytes = vec![0u8; INIT_ARGS_HEADER_LEN];
    bytes[24] = 0x34;
    bytes[25] = 0x12;
    let h = InitArgsHeader::from_bytes(&bytes);
    assert_eq!(h.arg_count, 0x1234);
    assert_eq!(h.dir_len, 0);
    assert_eq!(h.env_count, 0);
}

#[test]
fn body_is_cut_in_four() {
    let h = header();
    assert_eq!(h.body_len(), Some(26));
    assert_eq!(h.pointer_slots(), Some(5));
    let body = b"/\0/bin/sh\0sh\0-c\0true\0A=1\0\0";
    assert_eq!(body.len(), 26);
    let (dir, filename, argv, envp) = h.split_body(body);
    assert_eq!(dir, b"/\0");
    assert_eq!(filename, b"/bin/sh\0");
    assert_eq!(argv, b"sh\0-c\0true\0");
    assert_eq!(envp, b"A=1\0\0");
}

#[test]
fn sizes_that_overflow() {
    let mut h = header();
    h.envp_len = usize::MAX;
    assert_eq!(h.body_len(), None);
    h.env_count = usize::MAX - 1;
    assert_eq!(h.pointer_slots(), None);
    h.env_count = usize::MAX - 4;
    assert_eq!(h.pointer_slots(), Some(usize::MAX));
}
