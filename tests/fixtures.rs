use async_compression::tokio::bufread::{GzipDecoder, XzDecoder, ZstdDecoder};
use rpi_imager_tui::transfer::{compression_for_path, Compression};
use sha2::{Digest, Sha256};
use tokio::io::{AsyncRead, AsyncReadExt};

const PAYLOAD_SHA256: &str = "06582324c2fd65dfe4a64eeaa5d3e715231ccbbe37cd8c148db621c83028ff96";

const GZ: [u8; 47] = [
    31, 139, 8, 0, 0, 0, 0, 0, 2, 3, 43, 74, 44, 46, 72, 74, 45, 42, 170, 84, 40, 200, 84, 200,
    204, 77, 76, 79, 85, 72, 203, 172, 40, 41, 45, 74, 229, 2, 0, 21, 138, 131, 55, 27, 0, 0, 0,
];

const XZ: [u8; 84] = [
    253, 55, 122, 88, 90, 0, 0, 4, 230, 214, 180, 70, 2, 0, 33, 1, 22, 0, 0, 0, 116, 47, 229, 163,
    1, 0, 26, 114, 97, 115, 112, 98, 101, 114, 114, 121, 32, 112, 105, 32, 105, 109, 97, 103, 101,
    32, 102, 105, 120, 116, 117, 114, 101, 10, 0, 0, 18, 94, 117, 158, 158, 87, 131, 127, 0, 1,
    51, 27, 247, 25, 136, 94, 31, 182, 243, 125, 1, 0, 0, 0, 0, 4, 89, 90,
];

const ZST: [u8; 40] = [
    40, 181, 47, 253, 36, 27, 217, 0, 0, 114, 97, 115, 112, 98, 101, 114, 114, 121, 32, 112, 105,
    32, 105, 109, 97, 103, 101, 32, 102, 105, 120, 116, 117, 114, 101, 10, 139, 218, 24, 79,
];

/// Decodes `data` with the decoder the library picks for `path`, and hashes it.
fn decoded_sha256(path: &str, data: &'static [u8]) -> String {
    let mut reader: Box<dyn AsyncRead + Unpin> = match compression_for_path(path).unwrap() {
        Compression::Xz => Box::new(XzDecoder::new(data)),
        Compression::Gzip => Box::new(GzipDecoder::new(data)),
        Compression::Zstd => Box::new(ZstdDecoder::new(data)),
        Compression::Plain => Box::new(data),
    };
    let rt = tokio::runtime::Builder::new_current_thread().build().unwrap();
    let mut out = Vec::new();
    rt.block_on(reader.read_to_end(&mut out)).unwrap();
    hex::encode(Sha256::digest(&out))
}

#[test]
fn gzip_fixture_decodes_to_known_hash() {
    assert_eq!(decoded_sha256("/fixture.img.gz", &GZ), PAYLOAD_SHA256);
}

#[test]
fn xz_fixture_decodes_to_known_hash() {
    assert_eq!(decoded_sha256("/fixture.img.xz", &XZ), PAYLOAD_SHA256);
}

#[test]
fn zstd_fixture_decodes_to_known_hash() {
    assert_eq!(decoded_sha256("/fixture.img.zst", &ZST), PAYLOAD_SHA256);
}

#[test]
fn plain_source_passes_through() {
    assert_eq!(decoded_sha256("/fixture.img", b"raspberry pi image fixture\n"), PAYLOAD_SHA256);
}
