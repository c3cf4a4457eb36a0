use rpi_imager_tui::transfer::{
    compression_for_path, hash_text_matches, progress_hundredths, source_path, str_ends_with,
    Compression, TransferError,
};

#[test]
fn decoder_follows_extension() {
    assert_eq!(compression_for_path("/images/os.img.xz").unwrap(), Compression::Xz);
    assert_eq!(compression_for_path("/images/os.img.gz").unwrap(), Compression::Gzip);
    assert_eq!(compression_for_path("/images/os.img.zst").unwrap(), Compression::Zstd);
    assert_eq!(compression_for_path("/images/os.img").unwrap(), Compression::Plain);
    assert_eq!(compression_for_path("").unwrap(), Compression::Plain);
}

#[test]
fn zip_is_refused() {
    match compression_for_path("/images/os.zip") {
        Err(TransferError::SourceUnavailable(m)) => assert!(m.contains("ZIP files are not supported")),
        other => panic!("unexpected {:?}", other),
    }
}

#[test]
fn source_path_comes_from_the_url() {
    assert_eq!(source_path("https://downloads.example.com/a/os.img.xz?x=1"), "/a/os.img.xz");
    assert_eq!(source_path("/home/pi/os.img.gz"), "//home/pi/os.img.gz");
    assert_eq!(compression_for_path(&source_path("https://h/os.zip")).is_err(), true);
}

#[test]
fn suffix_test() {
    assert!(str_ends_with("abc.xz", ".xz"));
    assert!(!str_ends_with("xz", ".xz"));
    assert!(str_ends_with("abc", ""));
}

#[test]
fn progress_is_capped_below_hundred() {
    assert_eq!(progress_hundredths(0, 100), 0);
    assert_eq!(progress_hundredths(50, 100), 5000);
    assert_eq!(progress_hundredths(1, 3), 3333);
    assert_eq!(progress_hundredths(995, 1000), 9900);
    assert_eq!(progress_hundredths(100, 100), 9900);
    assert_eq!(progress_hundredths(u64::MAX, u64::MAX - 1), 9900);
    assert_eq!(progress_hundredths(u64::MAX - 1, u64::MAX), 9900);
    assert_eq!(progress_hundredths(u64::MAX / 2, u64::MAX), 4999);
}

#[test]
fn expected_hash_compares_without_case() {
    assert!(hash_text_matches("ABCDEF0123", "abcdef0123"));
    assert!(hash_text_matches("abcdef0123", "abcdef0123"));
    assert!(!hash_text_matches("abcdef0124", "abcdef0123"));
    assert!(!hash_text_matches("abcdef012", "abcdef0123"));
    assert!(!hash_text_matches("GBCDEF0123", "abcdef0123"));
}
