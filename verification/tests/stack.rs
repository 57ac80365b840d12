use bandsocks::mem::VPage;
use bandsocks::protocol::{Errno, VPtr};
use bandsocks::stack::{StackBuilder, BUILDER_SIZE_LIMIT, INITIAL_STACK_FREE};

fn top() -> VPage {
    VPage::round_down(VPtr(0x7fff_0000_0000))
}

#[test]
fn random_top() {
    let s = StackBuilder::new(top(), 5);
    assert_eq!(s.stored_vector_count(), 0);
    let mut s = s;
    assert_eq!(s.skip_bytes(0), Ok(VPtr(0x7fff_0000_0000 - 5 * 4096)));
    let masked = StackBuilder::new(top(), 0x40_0001);
    let mut masked = masked;
    assert_eq!(masked.skip_bytes(0), Ok(VPtr(0x7fff_0000_0000 - 4096)));
}

#[test]
fn pushes_and_alignment() {
    let mut s = StackBuilder::new(top(), 0);
    let p = s.skip_bytes(7).unwrap();
    assert_eq!(p, VPtr(0x7fff_0000_0000 - 7));
    assert_eq!(s.file_offset(p), BUILDER_SIZE_LIMIT - 7);
    assert_eq!(s.align(16), VPtr(0x7fff_0000_0000 - 16));
    assert_eq!(s.skip_bytes(BUILDER_SIZE_LIMIT), Err(Errno(-7)));
    assert_eq!(s.skip_bytes(BUILDER_SIZE_LIMIT - 16), Ok(VPtr(0x7fff_0000_0000 - BUILDER_SIZE_LIMIT)));
}

#[test]
fn stored_vectors() {
    let mut s = StackBuilder::new(top(), 0);
    assert_eq!(s.store_offset(), BUILDER_SIZE_LIMIT);
    s.record_stored(3);
    assert_eq!(s.stored_vector_bytes(), 24);
    assert_eq!(s.store_offset(), BUILDER_SIZE_LIMIT + 24);
    let (ptr, offset, len) = s.stored_vectors_target().unwrap();
    assert_eq!((ptr, offset, len), (VPtr(0x7fff_0000_0000 - 24), BUILDER_SIZE_LIMIT - 24, 24));
    s.commit_stored_vectors(ptr);
    assert_eq!(s.stored_vector_count(), 0);
    let (stack, size, offset) = s.initial_stack();
    assert_eq!(stack.sp, VPtr(0x7fff_0000_0000 - 24));
    assert_eq!(stack.pages.start.ptr(), VPtr(0x7fff_0000_0000 - 24 - INITIAL_STACK_FREE - 4072));
    assert_eq!(stack.pages.end.ptr(), VPtr(0x7fff_0000_0000));
    assert_eq!((size, offset), (24, BUILDER_SIZE_LIMIT - 24));
}
