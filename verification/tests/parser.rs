use bandsocks::parser::{FileReadState, ReadStep};
use bandsocks::parser::{
    byte, bytes, eof, flag, space, spaces, switch, u64_0x, u64_dec, u64_hex, until_byte,
    until_byte_inclusive, ByteReader, Stream, Token,
};

#[test]
fn blah() {
    let mut r = ByteReader::from_bytes(b"blah");
    assert_eq!(r.next(), Some(Ok(b'b')));
    assert_eq!(r.next(), Some(Ok(b'l')));
    assert_eq!(r.next(), Some(Ok(b'a')));
    assert_eq!(r.next(), Some(Ok(b'h')));
    assert_eq!(r.next(), None);
    assert_eq!(r.next(), None);
}

#[test]
fn blah2() {
    let mut r = ByteReader::from_bytes(b"blah");
    assert_eq!(byte(&mut r, b'b'), Ok(()));
    assert_eq!(byte(&mut r, b'b'), Err(()));
    assert_eq!(eof(&mut r), Err(()));
    assert_eq!(byte(&mut r, b'l'), Ok(()));
    assert_eq!(eof(&mut r), Err(()));
    assert_eq!(byte(&mut r, b'a'), Ok(()));
    assert_eq!(byte(&mut r, b'a'), Err(()));
    assert_eq!(byte(&mut r, b'h'), Ok(()));
    assert_eq!(eof(&mut r), Ok(()));
    assert_eq!(byte(&mut r, b'a'), Err(()));
    assert_eq!(eof(&mut r), Ok(()));
}

#[test]
fn switch1() {
    let mut r = ByteReader::from_bytes(b"blahblahb");
    let mut tokens = [
        Token::new(b"blarblar", &100),
        Token::new(b"bla", &42),
        Token::new(b"brrrrr", &50),
        Token::new(b"h", &1),
    ];
    assert_eq!(Ok(&42), switch(&mut r, &mut tokens));
    assert_eq!(Ok(&1), switch(&mut r, &mut tokens));
    assert_eq!(Ok(&42), switch(&mut r, &mut tokens));
    assert_eq!(Ok(&1), switch(&mut r, &mut tokens));
    assert_eq!(Err(()), switch(&mut r, &mut tokens));
}

#[test]
fn switch2() {
    let mut r = ByteReader::from_bytes(b"abappap");
    let mut tokens = [
        Token::new(b"a", &1),
        Token::new(b"b", &2),
        Token::new(b"p", &3),
    ];
    assert_eq!(Ok(&1), switch(&mut r, &mut tokens));
    assert_eq!(Ok(&2), switch(&mut r, &mut tokens));
    assert_eq!(Ok(&1), switch(&mut r, &mut tokens));
    assert_eq!(Ok(&3), switch(&mut r, &mut tokens));
    assert_eq!(Ok(&3), switch(&mut r, &mut tokens));
    assert_eq!(Ok(&1), switch(&mut r, &mut tokens));
    assert_eq!(Ok(&3), switch(&mut r, &mut tokens));
    assert_eq!(Err(()), switch(&mut r, &mut tokens));
    assert_eq!(Err(()), switch(&mut r, &mut tokens));
}

#[test]
fn switch3() {
    let mut r = ByteReader::from_bytes(b"false");
    assert_eq!(
        Ok(&false),
        switch(&mut r, &mut [Token::new(b"false", &false)])
    );
}

#[test]
fn switch_prefers_earliest_completion_then_list_order() {
    let mut r = ByteReader::from_bytes(b"abc");
    let mut tokens = [Token::new(b"abc", &1), Token::new(b"ab", &2), Token::new(b"ab", &3)];
    assert_eq!(Ok(&2), switch(&mut r, &mut tokens));
    assert_eq!(r.next(), Some(Ok(b'c')));
}

#[test]
fn switch_failure_leaves_mismatching_byte() {
    let mut r = ByteReader::from_bytes(b"abx");
    let mut tokens = [Token::new(b"abc", &1)];
    assert_eq!(Err(()), switch(&mut r, &mut tokens));
    assert_eq!(r.next(), Some(Ok(b'x')));
}

#[test]
fn decimal_numbers() {
    let mut r = ByteReader::from_bytes(b"12345 x");
    assert_eq!(u64_dec(&mut r), Ok(12345));
    assert_eq!(u64_dec(&mut r), Err(()));
    assert_eq!(spaces(&mut r), Ok(()));
    assert_eq!(u64_dec(&mut r), Err(()));
    assert_eq!(r.next(), Some(Ok(b'x')));
}

#[test]
fn decimal_wraps_like_u64() {
    let mut r = ByteReader::from_bytes(b"18446744073709551616");
    assert_eq!(u64_dec(&mut r), Ok(0));
    assert_eq!(eof(&mut r), Ok(()));
}

#[test]
fn hex_numbers() {
    let mut r = ByteReader::from_bytes(b"7fFf-0x10g");
    assert_eq!(u64_hex(&mut r), Ok(0x7fff));
    assert_eq!(byte(&mut r, b'-'), Ok(()));
    assert_eq!(u64_0x(&mut r), Ok(0x10));
    assert_eq!(u64_hex(&mut r), Err(()));
    assert_eq!(r.next(), Some(Ok(b'g')));
}

#[test]
fn hex_prefix_required() {
    let mut r = ByteReader::from_bytes(b"0y12");
    assert_eq!(u64_0x(&mut r), Err(()));
    assert_eq!(r.next(), Some(Ok(b'y')));
}

#[test]
fn until_and_spaces() {
    let mut r = ByteReader::from_bytes(b"abc\tdef \t ghi");
    assert_eq!(until_byte(&mut r, b'\t'), Ok(()));
    assert_eq!(space(&mut r), Ok(()));
    assert_eq!(until_byte_inclusive(&mut r, b' '), Ok(()));
    assert_eq!(spaces(&mut r), Ok(()));
    assert_eq!(bytes(&mut r, b"ghi"), Ok(()));
    assert_eq!(eof(&mut r), Ok(()));
    let mut r = ByteReader::from_bytes(b"abc");
    assert_eq!(until_byte(&mut r, b'z'), Err(()));
    assert_eq!(eof(&mut r), Ok(()));
}

#[test]
fn flags() {
    let mut r = ByteReader::from_bytes(b"r-x");
    assert_eq!(flag(&mut r, b'r', b'-'), Ok(true));
    assert_eq!(flag(&mut r, b'w', b'-'), Ok(false));
    assert_eq!(flag(&mut r, b'w', b'-'), Err(()));
    assert_eq!(r.next(), Some(Ok(b'x')));
}

#[test]
fn partial_bytes_match_consumes_prefix() {
    let mut r = ByteReader::from_bytes(b"abd");
    assert_eq!(bytes(&mut r, b"abc"), Err(()));
    assert_eq!(r.next(), Some(Ok(b'd')));
}

#[test]
fn file_read_state_steps() {
    let mut st = FileReadState::new();
    assert_eq!(st.step(false), ReadStep::Buffered);
    assert_eq!(st.step(true), ReadStep::Read(0));
    assert_eq!(st.record_read(100, 256), Ok(100));
    assert_eq!(st.step(true), ReadStep::Read(100));
    assert_eq!(st.record_read(-5, 256), Err(()));
    assert_eq!(st, FileReadState { position: 100, open: true });
    assert_eq!(st.record_read(0, 256), Ok(0));
    assert_eq!(st.step(true), ReadStep::Ended);
    assert_eq!(st.step(false), ReadStep::Buffered);
    assert_eq!(st.position, 100);
}
