use bandsocks::tar::{pad_to_block_multiple, BLOCK_LEN};

#[test]
fn pads_to_whole_blocks() {
    assert_eq!(BLOCK_LEN, 512);
    assert_eq!(pad_to_block_multiple(0), 0);
    assert_eq!(pad_to_block_multiple(1), 512);
    assert_eq!(pad_to_block_multiple(511), 512);
    assert_eq!(pad_to_block_multiple(512), 512);
    assert_eq!(pad_to_block_multiple(513), 1024);
    assert_eq!(pad_to_block_multiple(1536), 1536);
}
