use bandsocks::buffer::{Error, IPCBuffer, BYTES_MAX, FILES_MAX};
use bandsocks::protocol::SysFd;

#[test]
fn restore_after_bad_value() {
    let mut buf = IPCBuffer::new();
    buf.push_back_byte(2).unwrap();
    let pos = buf.save_position();
    assert_eq!(buf.pop_front_byte(), Ok(2));
    assert!(buf.is_empty());
    buf.restore_position(pos);
    assert_eq!(buf.as_slice().bytes, &[2]);
}

#[test]
fn integers_are_little_endian() {
    let mut buf = IPCBuffer::new();
    buf.push_back(&0x12345678u32).unwrap();
    buf.push_back(&(-1i32)).unwrap();
    assert_eq!(buf.as_slice().bytes, &[0x78, 0x56, 0x34, 0x12, 0xff, 0xff, 0xff, 0xff]);
    assert_eq!(buf.pop_front::<u32>(), Ok(0x12345678));
    assert_eq!(buf.pop_front::<i32>(), Ok(-1));
    buf.push_back(&0x1122334455667788u64).unwrap();
    assert_eq!(buf.as_slice().bytes, &[0x88, 0x77, 0x66, 0x55, 0x44, 0x33, 0x22, 0x11]);
    assert_eq!(buf.pop_front::<u64>(), Ok(0x1122334455667788));
    assert!(buf.is_empty());
}

#[test]
fn files_travel_apart_from_bytes() {
    let mut buf = IPCBuffer::new();
    buf.push_back(&(0u8, SysFd(123))).unwrap();
    assert_eq!(buf.as_slice().bytes, &[0]);
    assert_eq!(buf.as_slice().files, &[SysFd(123)]);
    buf.push_back(&(1u8, -2i32)).unwrap();
    assert_eq!(buf.as_slice().bytes, &[0, 1, 0xfe, 0xff, 0xff, 0xff]);
    assert_eq!(buf.pop_front::<(u8, SysFd)>(), Ok((0, SysFd(123))));
    assert_eq!(buf.pop_front::<(u8, i32)>(), Ok((1, -2)));
    assert!(buf.is_empty());
}

#[test]
fn reading_past_the_end() {
    let mut buf = IPCBuffer::new();
    assert_eq!(buf.pop_front::<u8>(), Err(Error::UnexpectedEnd));
    assert_eq!(buf.pop_front::<SysFd>(), Err(Error::UnexpectedEnd));
    buf.extend_bytes(&[1, 2, 3]).unwrap();
    assert_eq!(buf.pop_front::<u32>(), Err(Error::UnexpectedEnd));
    assert_eq!(buf.as_slice().bytes, &[1, 2, 3]);
    assert_eq!(buf.front_bytes(2), Ok(&[1u8, 2][..]));
    assert_eq!(buf.front_bytes(4), Err(Error::UnexpectedEnd));
    buf.pop_front_bytes(2);
    assert_eq!(buf.pop_front_byte(), Ok(3));
    assert_eq!(buf.pop_front_byte(), Err(Error::UnexpectedEnd));
}

#[test]
fn full_buffer_and_refill() {
    let mut buf = IPCBuffer::new();
    let big = vec![7u8; BYTES_MAX];
    assert_eq!(buf.extend_bytes(&big), Ok(()));
    assert_eq!(buf.push_back_byte(1), Err(Error::BufferFull));
    buf.pop_front_bytes(BYTES_MAX - 1);
    assert_eq!(buf.push_back_byte(1), Err(Error::BufferFull));
    assert_eq!(buf.begin_fill(), (BYTES_MAX - 1, FILES_MAX));
    buf.commit_fill(&[8, 9], &[SysFd(4)]);
    assert_eq!(buf.as_slice().bytes, &[7, 8, 9]);
    assert_eq!(buf.as_slice().files, &[SysFd(4)]);
    for i in 0..FILES_MAX - 1 {
        buf.push_back_file(SysFd(i as u32)).unwrap();
    }
    assert_eq!(buf.push_back_file(SysFd(0)), Err(Error::BufferFull));
}
