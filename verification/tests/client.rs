use bandsocks::client::{all_found, check_blob_size, registry_is_reusable, ClientBuilder, ImageError};

#[test]
fn chosen_cache_dir_wins() {
    let mut b = ClientBuilder::configure();
    b.cache_dir(b"/tmp/cache");
    assert_eq!(b.select_cache_dir(Err(ImageError::NoDefaultCacheDir)), Ok(b"/tmp/cache".to_vec()));
    assert_eq!(b.build_cache_dir(), Ok(b"/tmp/cache".to_vec()));
}

#[test]
fn default_is_used_without_a_choice() {
    let b = ClientBuilder::configure();
    assert_eq!(b.select_cache_dir(Ok(b"/home/u/.cache/bandsocks".to_vec())), Ok(b"/home/u/.cache/bandsocks".to_vec()));
    assert_eq!(b.select_cache_dir(Err(ImageError::NoDefaultCacheDir)), Err(ImageError::NoDefaultCacheDir));
}

#[test]
fn platform_default_or_error() {
    let r = ClientBuilder::configure().build_cache_dir();
    assert!(r.is_ok() || r == Err(ImageError::NoDefaultCacheDir));
}

#[test]
fn last_choice_wins() {
    let mut b = ClientBuilder::configure();
    b.cache_dir(b"/a").cache_dir(b"/b");
    assert_eq!(b.build_cache_dir(), Ok(b"/b".to_vec()));
}

#[test]
fn registry_connection_reuse() {
    assert!(!registry_is_reusable(None, b"registry-1.docker.io", b"library/busybox"));
    assert!(registry_is_reusable(
        Some((&b"registry-1.docker.io"[..], &b"library/busybox"[..])),
        b"registry-1.docker.io",
        b"library/busybox"
    ));
    assert!(!registry_is_reusable(
        Some((&b"registry-1.docker.io"[..], &b"library/busybox"[..])),
        b"registry-1.docker.io",
        b"library/alpine"
    ));
    assert!(!registry_is_reusable(
        Some((&b"quay.io"[..], &b"library/busybox"[..])),
        b"registry-1.docker.io",
        b"library/busybox"
    ));
}

#[test]
fn blob_sizes() {
    assert_eq!(check_blob_size(760, 760), Ok(()));
    assert_eq!(check_blob_size(759, 760), Err(ImageError::UnexpectedContentSize));
    assert_eq!(check_blob_size(0, 1 << 40), Err(ImageError::UnexpectedContentSize));
}

#[test]
fn blob_lists() {
    assert_eq!(all_found(vec![Some(1), Some(2), Some(3)]), Some(vec![1, 2, 3]));
    assert_eq!(all_found(vec![Some(1), None, Some(3)]), None);
    assert_eq!(all_found::<u8>(vec![]), Some(vec![]));
}
