//! Decisions of the transfer engine: which decoder a source needs, how
//! progress is reported, and whether the written image can be trusted.

use vstd::prelude::*;
use vstd::string::*;
use crate::text::{opt_string_view, push_str};

verus! {

/// Decoder applied to the source stream.
#[derive(Debug, Clone, Copy, PartialEq, Eq, Structural)]
pub enum Compression {
    Xz,
    Gzip,
    Zstd,
    /// No known extension: the bytes are written as they come.
    Plain,
}

/// Why a transfer stopped.
#[derive(Debug, Clone)]
pub enum TransferError {
    /// The source could not be opened or read, or its format is not supported.
    SourceUnavailable(String),
    /// The target device could not be opened or written.
    DeviceUnavailable(String),
    /// The downloaded bytes do not hash to the expected SHA-256.
    IntegrityError(String),
    /// What the device holds differs from what was written.
    WriteVerificationError(String),
}

impl TransferError {
    /// The message carried by the error.
    pub fn message(&self) -> (r: &str)
        ensures
            r@ == self.spec_message(),
    {
        match self {
            TransferError::SourceUnavailable(m) => m.as_str(),
            TransferError::DeviceUnavailable(m) => m.as_str(),
            TransferError::IntegrityError(m) => m.as_str(),
            TransferError::WriteVerificationError(m) => m.as_str(),
        }
    }

    pub open spec fn spec_message(&self) -> Seq<char> {
        match self {
            TransferError::SourceUnavailable(m) => m@,
            TransferError::DeviceUnavailable(m) => m@,
            TransferError::IntegrityError(m) => m@,
            TransferError::WriteVerificationError(m) => m@,
        }
    }
}

/// Size of the blocks read from the decoder and written to the device.
pub const CHUNK_SIZE: usize = 4194304;

/// Least time between two progress reports, in milliseconds.
pub const PROGRESS_INTERVAL_MS: u64 = 500;

/// Progress shown before the transfer has been verified, in hundredths of a
/// percent: never the full hundred.
pub const PROGRESS_CAP: u64 = 9900;

pub const ZIP_UNSUPPORTED: &'static str = "ZIP files are not supported yet. Please choose an .xz, .gz, or .zst image.";

pub open spec fn ends_with(s: Seq<char>, suffix: Seq<char>) -> bool {
    suffix.len() <= s.len() && s.subrange(s.len() - suffix.len(), s.len() as int) == suffix
}

/// Whether `s` ends with `suffix`.
pub fn str_ends_with(s: &str, suffix: &str) -> (r: bool)
    ensures
        r == ends_with(s@, suffix@),
{
    let n = s.unicode_len();
    let m = suffix.unicode_len();
    if m > n {
        return false;
    }
    let start = n - m;
    let mut i: usize = 0;
    while i < m
        invariant
            n == s@.len(),
            m == suffix@.len(),
            start == n - m,
            i <= m,
            forall|j: int| 0 <= j < i ==> s@[start + j] == suffix@[j],
        decreases m - i,
    {
        if s.get_char(start + i) != suffix.get_char(i) {
            assert(s@.subrange(start as int, n as int)[i as int] != suffix@[i as int]);
            return false;
        }
        i = i + 1;
    }
    assert(s@.subrange(start as int, n as int) =~= suffix@);
    true
}

/// The decoder for a source path, or nothing for a ZIP archive.
pub open spec fn compression_of(path: Seq<char>) -> Option<Compression> {
    if ends_with(path, ".xz"@) {
        Some(Compression::Xz)
    } else if ends_with(path, ".gz"@) {
        Some(Compression::Gzip)
    } else if ends_with(path, ".zst"@) {
        Some(Compression::Zstd)
    } else if ends_with(path, ".zip"@) {
        None
    } else {
        Some(Compression::Plain)
    }
}

/// Chooses the decoder from the file extension of the source path alone;
/// a `.zip` source is refused.
pub fn compression_for_path(path: &str) -> (r: Result<Compression, TransferError>)
    ensures
        match compression_of(path@) {
            Some(c) => r == Ok::<Compression, TransferError>(c),
            None => r matches Err(TransferError::SourceUnavailable(m)) && m@ == ZIP_UNSUPPORTED@,
        },
{
    if str_ends_with(path, ".xz") {
        Ok(Compression::Xz)
    } else if str_ends_with(path, ".gz") {
        Ok(Compression::Gzip)
    } else if str_ends_with(path, ".zst") {
        Ok(Compression::Zstd)
    } else if str_ends_with(path, ".zip") {
        Err(TransferError::SourceUnavailable(String::from_str(ZIP_UNSUPPORTED)))
    } else {
        Ok(Compression::Plain)
    }
}

/// A source path ending in `.zip` has no decoder: the transfer refuses it.
pub proof fn lemma_zip_refused(path: Seq<char>)
    requires
        ends_with(path, ".zip"@),
    ensures
        compression_of(path) is None,
{
    reveal_strlit(".zip");
    reveal_strlit(".xz");
    reveal_strlit(".gz");
    reveal_strlit(".zst");
    let n = path.len() as int;
    assert(path.subrange(n - 4, n)[3] == path[n - 1]);
    assert(path[n - 1] == 'p');
    if ends_with(path, ".xz"@) {
        assert(path.subrange(n - 3, n)[2] == path[n - 1]);
    }
    if ends_with(path, ".gz"@) {
        assert(path.subrange(n - 3, n)[2] == path[n - 1]);
    }
    if ends_with(path, ".zst"@) {
        assert(path.subrange(n - 4, n)[3] == path[n - 1]);
    }
}

/// The path part of a URL, as the URL parser reads it; nothing where the
/// text is no URL.
pub uninterp spec fn url_path_of(url: Seq<char>) -> Option<Seq<char>>;

/// Relies on `reqwest::Url::parse` and `Url::path`.
#[verifier::external_body]
fn parse_url_path(url: &str) -> (r: Option<String>)
    ensures
        opt_string_view(r) == url_path_of(url@),
{
    match reqwest::Url::parse(url) {
        Ok(u) => Some(u.path().to_string()),
        Err(_) => None,
    }
}

pub const LOCAL_BASE: &'static str = "http://dummy/";

/// The path whose extension decides the decoder: that of the URL, or, for a
/// local path, that of the path read under a placeholder host.
pub open spec fn source_path_of(url: Seq<char>) -> Seq<char> {
    match url_path_of(url) {
        Some(p) => p,
        None => match url_path_of(LOCAL_BASE@ + url) {
            Some(p) => p,
            None => url,
        },
    }
}

pub fn source_path(url: &str) -> (r: String)
    ensures
        r@ == source_path_of(url@),
{
    match parse_url_path(url) {
        Some(p) => p,
        None => {
            let mut d = String::from_str(LOCAL_BASE);
            push_str(&mut d, url);
            match parse_url_path(d.as_str()) {
                Some(p) => p,
                None => String::from_str(url),
            }
        },
    }
}

pub open spec fn hex_char(n: int) -> char {
    seq!['0', '1', '2', '3', '4', '5', '6', '7', '8', '9', 'a', 'b', 'c', 'd', 'e', 'f'][n]
}

/// Lowercase hexadecimal text of `b`, two digits a byte, high digit first.
pub open spec fn hex_of(b: Seq<u8>) -> Seq<char>
    decreases b.len(),
{
    if b.len() == 0 {
        Seq::empty()
    } else {
        hex_of(b.drop_last()) + seq![hex_char(b.last() as int / 16), hex_char(b.last() as int % 16)]
    }
}

/// Relies on `hex::encode`: lowercase digits, high nibble first.
#[verifier::external_body]
pub(crate) fn hex_encode(b: &[u8]) -> (r: String)
    ensures
        r@ == hex_of(b@),
{
    hex::encode(b)
}

/// Whether the expected-hash character `e` stands for the lowercase digit `h`.
pub open spec fn same_hex_digit(e: char, h: char) -> bool {
    e == h || (h == 'a' && e == 'A') || (h == 'b' && e == 'B') || (h == 'c' && e == 'C') || (h
        == 'd' && e == 'D') || (h == 'e' && e == 'E') || (h == 'f' && e == 'F')
}

/// Case-insensitive equality of an expected hash and a lowercase hex digest.
pub open spec fn hash_matches(expected: Seq<char>, hex: Seq<char>) -> bool {
    expected.len() == hex.len() && forall|i: int|
        0 <= i < hex.len() ==> #[trigger] same_hex_digit(expected[i], hex[i])
}

pub fn hash_text_matches(expected: &str, hex: &str) -> (r: bool)
    ensures
        r == hash_matches(expected@, hex@),
{
    let n = hex.unicode_len();
    if expected.unicode_len() != n {
        return false;
    }
    let mut i: usize = 0;
    while i < n
        invariant
            n == hex@.len(),
            n == expected@.len(),
            i <= n,
            forall|j: int| 0 <= j < i ==> #[trigger] same_hex_digit(expected@[j], hex@[j]),
        decreases n - i,
    {
        let e = expected.get_char(i);
        let h = hex.get_char(i);
        let same = e == h || (h == 'a' && e == 'A') || (h == 'b' && e == 'B') || (h == 'c' && e
            == 'C') || (h == 'd' && e == 'D') || (h == 'e' && e == 'E') || (h == 'f' && e == 'F');
        if !same {
            assert(!same_hex_digit(expected@[i as int], hex@[i as int]));
            return false;
        }
        i = i + 1;
    }
    true
}

/// Whether two digests are the same bytes.
pub fn digests_equal(a: &[u8], b: &[u8]) -> (r: bool)
    ensures
        r == (a@ == b@),
{
    if a.len() != b.len() {
        return false;
    }
    let mut i: usize = 0;
    while i < a.len()
        invariant
            a@.len() == b@.len(),
            i <= a@.len(),
            forall|j: int| 0 <= j < i ==> a@[j] == b@[j],
        decreases a@.len() - i,
    {
        if a[i] != b[i] {
            return false;
        }
        i = i + 1;
    }
    assert(a@ =~= b@);
    true
}

/// Progress of `done` bytes out of `total`, in hundredths of a percent,
/// held below the full hundred.
pub open spec fn capped_percent(done: int, total: int) -> int {
    if done >= total {
        PROGRESS_CAP as int
    } else {
        let p = done * 10000 / total;
        if p > PROGRESS_CAP {
            PROGRESS_CAP as int
        } else {
            p
        }
    }
}

pub fn progress_hundredths(done: u64, total: u64) -> (r: u64)
    requires
        total > 0,
    ensures
        r == capped_percent(done as int, total as int),
        r <= PROGRESS_CAP,
{
    if done >= total {
        return PROGRESS_CAP;
    }
    let wide: u128 = (done as u128) * 10000u128;
    let t: u128 = total as u128;
    assert(wide < t * 10000) by (nonlinear_arith)
        requires
            done < total,
            wide == done * 10000,
            t == total,
    ;
    let q: u128 = wide / t;
    assert(q < 10000) by (nonlinear_arith)
        requires
            wide < t * 10000,
            q == wide / t,
            t > 0,
    ;
    let p = q as u64;
    if p > PROGRESS_CAP {
        PROGRESS_CAP
    } else {
        p
    }
}

} // verus!
