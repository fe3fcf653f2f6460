use crustls::rustls_version;

const VERSION_TEXT: &[u8] = b"crustls/0.1.0/rustls/0.19.1";

#[test]
fn version_truncates_to_capacity_less_one() {
    let mut buf = vec![0xAAu8; 5];
    let n = rustls_version(&mut buf);
    assert_eq!(n, 4);
    assert_eq!(&buf[..4], &VERSION_TEXT[..4]);
    assert_eq!(buf[4], 0);
}

#[test]
fn version_zero_length_buffer_writes_nothing() {
    let mut buf: Vec<u8> = Vec::new();
    let n = rustls_version(&mut buf);
    assert_eq!(n, 0);
    assert_eq!(buf.len(), 0);
}

#[test]
fn version_writes_full_string_and_nul() {
    let mut buf = vec![0xAAu8; 64];
    let n = rustls_version(&mut buf);
    assert_eq!(n, VERSION_TEXT.len());
    assert_eq!(&buf[..n], VERSION_TEXT);
    assert_eq!(buf[n], 0);
    assert_eq!(buf[n + 1], 0xAA);
    assert_eq!(buf.len(), 64);
}

#[test]
fn version_exact_fit_still_keeps_nul() {
    let mut buf = vec![0xAAu8; VERSION_TEXT.len() + 1];
    let n = rustls_version(&mut buf);
    assert_eq!(n, VERSION_TEXT.len());
    assert_eq!(&buf[..n], VERSION_TEXT);
    assert_eq!(buf[n], 0);
}
