use bandsocks::args::env_pair;

#[test]
fn env_settings() {
    assert_eq!(env_pair(b"PATH=/bin:/usr/bin"), (b"PATH".to_vec(), b"/bin:/usr/bin".to_vec()));
    assert_eq!(env_pair(b"A=b=c"), (b"A".to_vec(), b"b=c".to_vec()));
    assert_eq!(env_pair(b"EMPTY="), (b"EMPTY".to_vec(), Vec::new()));
    assert_eq!(env_pair(b"NOVALUE"), (b"NOVALUE".to_vec(), Vec::new()));
    assert_eq!(env_pair(b""), (Vec::new(), Vec::new()));
    assert_eq!(env_pair(b"=x"), (Vec::new(), b"x".to_vec()));
}
