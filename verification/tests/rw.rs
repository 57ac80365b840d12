use bandsocks::parser::ByteReader;
use bandsocks::protocol::{Errno, VPtr, VString};
use bandsocks::rw::{
    padded_words, pointer_array_entry, string_array_item, syscall_found, vstring_len, ByteSearch,
    SEARCH_CHUNK, SYSCALL_INSTRUCTION,
};

fn search(memory: &[u8], base: usize, area: std::ops::Range<usize>, pattern: &[u8]) -> Option<VPtr> {
    let mut s = ByteSearch::new(&(VPtr(area.start)..VPtr(area.end)), pattern.len());
    while let Some(at) = s.next_read() {
        let mut chunk = [0u8; SEARCH_CHUNK];
        for (i, b) in chunk.iter_mut().enumerate() {
            *b = *memory.get(at.0 - base + i).unwrap_or(&0);
        }
        if let Some(found) = s.scan(&chunk, pattern) {
            return Some(found);
        }
    }
    None
}

#[test]
fn finds_patterns_across_chunks() {
    let base = 0x1000;
    let mut memory = vec![0x90u8; 1000];
    memory[255] = 0x0f;
    memory[256] = 0x05;
    assert_eq!(search(&memory, base, base..base + 1000, &SYSCALL_INSTRUCTION), Some(VPtr(base + 255)));
    memory[255] = 0;
    assert_eq!(search(&memory, base, base..base + 1000, &SYSCALL_INSTRUCTION), None);
    memory[700] = 0x0f;
    memory[701] = 0x05;
    assert_eq!(search(&memory, base, base..base + 1000, &SYSCALL_INSTRUCTION), Some(VPtr(base + 700)));
    assert_eq!(search(&memory, base, base + 10..base + 10, &SYSCALL_INSTRUCTION), None);
    assert_eq!(syscall_found(Some(VPtr(5))), Ok(VPtr(5)));
    assert_eq!(syscall_found(None), Err(Errno(-38)));
}

#[test]
fn c_string_lengths() {
    let mut r = ByteReader::from_bytes(b"xxhello\0rest");
    assert_eq!(vstring_len(&mut r, 2), Ok(6));
    let mut r = ByteReader::from_bytes(b"\0");
    assert_eq!(vstring_len(&mut r, 0), Ok(1));
    let mut r = ByteReader::from_bytes(b"no nul");
    assert_eq!(vstring_len(&mut r, 0), Err(Errno(-14)));
    let mut r = ByteReader::from_bytes(b"ab");
    assert_eq!(vstring_len(&mut r, 5), Err(Errno(-14)));
}

#[test]
fn padded_word_layout() {
    assert_eq!(padded_words(b""), vec![0]);
    assert_eq!(padded_words(b"x86_64\0"), vec![u64::from_le_bytes(*b"x86_64\0\0"), 0]);
    assert_eq!(
        padded_words(b"0123456789"),
        vec![u64::from_le_bytes(*b"01234567"), u64::from_le_bytes(*b"89\0\0\0\0\0\0"), 0]
    );
}

#[test]
fn pointer_arrays() {
    assert_eq!(string_array_item(VPtr(0)), None);
    assert_eq!(string_array_item(VPtr(0x40)), Some(VString(VPtr(0x40))));
    assert_eq!(pointer_array_entry(VPtr(0x1000), 3), VPtr(0x1018));
}

#[test]
fn empty_area_reads_nothing() {
    let s = ByteSearch::new(&(VPtr(0x2000)..VPtr(0x2000)), 0);
    assert_eq!(s.next_read(), None);
    assert_eq!(search(&[], 0x2000, 0x2000..0x1000, &[]), None);
    assert_eq!(search(&[0u8; 4], 0x2000, 0x2000..0x2004, &[]), Some(VPtr(0x2000)));
}
