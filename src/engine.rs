//! The transfer engine as a state machine. The caller performs the I/O
//! (download, decoding, device writes and reads, hashing) and reports each
//! outcome; the engine decides what follows and which events to emit.

use vstd::prelude::*;
use vstd::string::*;
use crate::text::push_str;
use crate::transfer::{
    capped_percent, compression_for_path, compression_of, digests_equal, hash_matches, hash_text_matches,
    hex_encode, hex_of, progress_hundredths, Compression, TransferError, CHUNK_SIZE,
    PROGRESS_CAP, PROGRESS_INTERVAL_MS, ZIP_UNSUPPORTED,
};

verus! {

/// The two halves of a transfer.
#[derive(Debug, Clone, Copy, PartialEq, Eq, Structural)]
pub enum WritingPhase {
    Writing,
    Verifying,
}

/// How far a phase has come: hundredths of a percent of the expected size
/// when it is known, else the raw byte count.
#[derive(Debug, Clone, Copy, PartialEq, Eq, Structural)]
pub enum ProgressMeasure {
    Percent(u64),
    Bytes(u64),
}

/// What a transfer reports to its observer.
#[derive(Debug, Clone)]
pub enum TransferEvent {
    Progress(ProgressMeasure),
    VerifyProgress(ProgressMeasure),
    Phase(WritingPhase),
    Status(String),
    Error(String),
    Finished,
}

/// The source to write: where it is and what it should decode to.
#[derive(Debug, Clone)]
pub struct ImageDescriptor {
    pub url: String,
    pub expected_decompressed_size: Option<u64>,
    pub expected_sha256: Option<String>,
}

/// Where a transfer stands.
#[derive(Debug, Clone, Copy, PartialEq, Eq, Structural)]
pub enum Stage {
    /// Nothing done yet.
    Idle,
    /// The source stream is being opened.
    AwaitSource,
    /// The decoder is chosen; the device is being opened.
    AwaitDevice,
    /// Decoded bytes are being written.
    Writing,
    /// The written bytes are being read back.
    Verifying,
    /// A terminal event has been emitted.
    Done,
}

pub open spec fn is_terminal(e: TransferEvent) -> bool {
    e is Finished || e is Error
}

/// Events that belong to the write phase.
pub open spec fn is_write_event(e: TransferEvent) -> bool {
    e is Progress || e is Status || e == TransferEvent::Phase(WritingPhase::Writing)
}

/// Events that belong to the verify phase, after its `Phase` event.
pub open spec fn is_verify_event(e: TransferEvent) -> bool {
    e is VerifyProgress || e is Status
}

/// Events that only the write phase emits.
pub open spec fn is_write_only(e: TransferEvent) -> bool {
    e is Progress || e == TransferEvent::Phase(WritingPhase::Writing)
}

pub open spec fn is_verify_phase(e: TransferEvent) -> bool {
    e == TransferEvent::Phase(WritingPhase::Verifying)
}

/// A percentage in a progress event stays below the full hundred.
pub open spec fn below_full(e: TransferEvent) -> bool {
    match e {
        TransferEvent::Progress(ProgressMeasure::Percent(h)) => h <= PROGRESS_CAP,
        TransferEvent::VerifyProgress(ProgressMeasure::Percent(h)) => h <= PROGRESS_CAP,
        _ => true,
    }
}

pub open spec fn all_write(s: Seq<TransferEvent>) -> bool {
    forall|i: int| 0 <= i < s.len() ==> #[trigger] is_write_event(s[i])
}

/// `s` is write events, the `Phase(Verifying)` event at `k`, then verify events.
pub open spec fn verify_shape(s: Seq<TransferEvent>, k: int) -> bool {
    &&& 0 <= k < s.len()
    &&& is_verify_phase(s[k])
    &&& forall|i: int| 0 <= i < k ==> #[trigger] is_write_event(s[i])
    &&& forall|i: int| k < i < s.len() ==> #[trigger] is_verify_event(s[i])
}

pub const STARTING: &'static str = "Starting download...";

pub const VERIFYING_DOWNLOAD: &'static str = "Verifying download...";

pub const READING_BACK: &'static str = "Verifying write (reading back)...";

pub const DEVICE_OPEN_FAILED: &'static str = "Failed to open device ";

pub const NEEDS_ROOT: &'static str = ". Ensure you are running with root privileges (sudo).";

pub const TOO_LARGE: &'static str = "The image is larger than the largest supported size";

pub const UNEXPECTED_EOF: &'static str = "Unexpected EOF during verification";

pub const READ_TOO_LONG: &'static str = "Read past the written length during verification";

pub const VERIFY_INCOMPLETE: &'static str = "Verification ended before all written bytes were read";

pub const DOWNLOAD_MISMATCH: &'static str = "Download verification failed!\nExpected: ";

pub const CALCULATED: &'static str = "\nCalculated: ";

pub const WRITE_MISMATCH: &'static str = "Write verification failed!\nSource hash: ";

pub const ON_DISK: &'static str = "\nOn-disk hash: ";

/// The message for a device that would not open: it names the device and
/// asks for elevated privileges.
pub fn device_open_message(device_path: &str) -> (r: String)
    ensures
        r@ == DEVICE_OPEN_FAILED@ + device_path@ + NEEDS_ROOT@,
{
    let mut r = String::from_str(DEVICE_OPEN_FAILED);
    push_str(&mut r, device_path);
    push_str(&mut r, NEEDS_ROOT);
    r
}

/// One transfer of one image onto one device.
pub struct TransferEngine {
    stage: Stage,
    /// Expected decoded size; 0 when unknown.
    expected_size: u64,
    expected_sha256: Option<String>,
    written: u64,
    verified: u64,
    last_report_ms: u64,
    source_digest: Vec<u8>,
    failure: Option<TransferError>,
    log: Ghost<Seq<TransferEvent>>,
    verify_at: Ghost<int>,
}

/// The terminal event that reports `err`.
pub fn error_event(err: &TransferError) -> (e: TransferEvent)
    ensures
        e matches TransferEvent::Error(m) && m@ == err.spec_message(),
{
    TransferEvent::Error(String::from_str(err.message()))
}

pub open spec fn reports(e: TransferEvent, err: TransferError) -> bool {
    e matches TransferEvent::Error(m) && m@ == err.spec_message()
}

impl TransferEngine {
    pub closed spec fn stage(&self) -> Stage {
        self.stage
    }

    /// Every event emitted so far, in order.
    pub closed spec fn events(&self) -> Seq<TransferEvent> {
        self.log@
    }

    /// Decoded bytes written to the device so far.
    pub closed spec fn bytes_written(&self) -> nat {
        self.written as nat
    }

    /// Bytes read back from the device so far.
    pub closed spec fn bytes_verified(&self) -> nat {
        self.verified as nat
    }

    pub closed spec fn expected_size(&self) -> u64 {
        self.expected_size
    }

    pub closed spec fn expected_sha256(&self) -> Option<Seq<char>> {
        match self.expected_sha256 {
            Some(h) => Some(h@),
            None => None,
        }
    }

    /// Digest of the decoded source, once the write phase is over.
    pub closed spec fn source_digest(&self) -> Seq<u8> {
        self.source_digest@
    }

    /// Time of the last progress report, in the caller's milliseconds.
    pub closed spec fn last_report_ms(&self) -> u64 {
        self.last_report_ms
    }

    /// Why the transfer stopped, once it has failed.
    pub closed spec fn failure(&self) -> Option<TransferError> {
        self.failure
    }

    /// The events emitted so far follow the order of a transfer.
    pub closed spec fn wf(&self) -> bool {
        let log = self.log@;
        let k = self.verify_at@;
        &&& self.verified <= self.written
        &&& forall|i: int| 0 <= i < log.len() ==> #[trigger] below_full(log[i])
        &&& match self.stage {
            Stage::Idle => log.len() == 0 && k == -1,
            Stage::AwaitSource | Stage::AwaitDevice | Stage::Writing => all_write(log) && k == -1,
            Stage::Verifying => verify_shape(log, k),
            Stage::Done => {
                &&& log.len() > 0
                &&& is_terminal(log.last())
                &&& if k == -1 {
                    all_write(log.drop_last())
                } else {
                    verify_shape(log.drop_last(), k)
                }
                &&& log.last() is Finished ==> k >= 0
            },
        }
    }

    /// A transfer of `image` that has not started.
    pub fn new(image: &ImageDescriptor) -> (r: Self)
        ensures
            r.wf(),
            r.stage() == Stage::Idle,
            r.events().len() == 0,
            r.bytes_written() == 0,
            r.failure() is None,
            r.expected_size() == match image.expected_decompressed_size {
                Some(n) => n,
                None => 0,
            },
            r.expected_sha256() == match image.expected_sha256 {
                Some(h) => Some(h@),
                None => None::<Seq<char>>,
            },
    {
        let expected_size = match image.expected_decompressed_size {
            Some(n) => n,
            None => 0,
        };
        let expected_sha256 = match &image.expected_sha256 {
            Some(h) => Some(String::from_str(h.as_str())),
            None => None,
        };
        TransferEngine {
            stage: Stage::Idle,
            expected_size,
            expected_sha256,
            written: 0,
            verified: 0,
            last_report_ms: 0,
            source_digest: Vec::new(),
            failure: None,
            log: Ghost(Seq::empty()),
            verify_at: Ghost(-1),
        }
    }

    /// Why the transfer stopped, once it has failed.
    pub fn outcome(&self) -> (r: Option<&TransferError>)
        ensures
            r == match self.failure() {
                Some(e) => Some(&e),
                None => None::<&TransferError>,
            },
    {
        match &self.failure {
            Some(e) => Some(e),
            None => None,
        }
    }

    pub fn current_stage(&self) -> (r: Stage)
        ensures
            r == self.stage(),
    {
        self.stage
    }

    pub fn is_done(&self) -> (r: bool)
        ensures
            r == (self.stage() == Stage::Done),
    {
        self.stage == Stage::Done
    }

    /// Starts the write phase: progress at zero, the `Writing` phase and a
    /// status line. Does nothing once started.
    pub fn begin(&mut self) -> (r: Vec<TransferEvent>)
        requires
            old(self).wf(),
        ensures
            final(self).wf(),
            final(self).events() == old(self).events() + r@,
            old(self).stage() == Stage::Idle ==> {
                &&& final(self).stage() == Stage::AwaitSource
                &&& r@.len() == 3
                &&& r@[0] == TransferEvent::Progress(progress_of(0, old(self).expected_size()))
                &&& r@[1] == TransferEvent::Phase(WritingPhase::Writing)
                &&& r@[2] matches TransferEvent::Status(m) && m@ == STARTING@
                &&& final(self).failure() == old(self).failure()
                &&& final(self).expected_size() == old(self).expected_size()
                &&& final(self).expected_sha256() == old(self).expected_sha256()
                &&& final(self).bytes_written() == old(self).bytes_written()
            },
            old(self).stage() != Stage::Idle ==> r@.len() == 0 && *final(self) == *old(self),
    {
        let mut out: Vec<TransferEvent> = Vec::new();
        if self.stage != Stage::Idle {
            proof {
                assert(self.log@ + out@ =~= self.log@);
            }
            return out;
        }
        let start = self.measure(0);
        out.push(TransferEvent::Progress(start));
        out.push(TransferEvent::Phase(WritingPhase::Writing));
        out.push(TransferEvent::Status(String::from_str(STARTING)));
        self.stage = Stage::AwaitSource;
        self.log = Ghost(self.log@ + out@);
        proof {
            assert(self.log@.len() == 3);
            assert(is_write_event(self.log@[0]));
            assert(is_write_event(self.log@[1]));
            assert(is_write_event(self.log@[2]));
        }
        out
    }

    /// Ends the transfer with `err`, reported as the one terminal event.
    /// Does nothing once the transfer is over.
    pub fn fail(&mut self, err: TransferError) -> (r: Vec<TransferEvent>)
        requires
            old(self).wf(),
        ensures
            final(self).wf(),
            final(self).events() == old(self).events() + r@,
            old(self).stage() != Stage::Done ==> {
                &&& final(self).stage() == Stage::Done
                &&& r@.len() == 1
                &&& reports(r@[0], err)
                &&& final(self).failure() == Some(err)
            },
            old(self).stage() == Stage::Done ==> r@.len() == 0 && *final(self) == *old(self),
    {
        let mut out: Vec<TransferEvent> = Vec::new();
        if self.stage == Stage::Done {
            proof {
                assert(self.log@ + out@ =~= self.log@);
            }
            return out;
        }
        let ghost old_log = self.log@;
        out.push(error_event(&err));
        self.failure = Some(err);
        self.stage = Stage::Done;
        self.log = Ghost(self.log@ + out@);
        proof {
            assert(self.log@.drop_last() =~= old_log);
        }
        out
    }

    /// The source stream is open and its path is `path`: chooses the decoder,
    /// or ends the transfer, before any device is opened, when the format is
    /// not supported.
    pub fn source_ready(&mut self, path: &str) -> (r: (Option<Compression>, Vec<TransferEvent>))
        requires
            old(self).wf(),
        ensures
            final(self).wf(),
            final(self).events() == old(self).events() + r.1@,
            old(self).stage() == Stage::AwaitSource ==> match compression_of(path@) {
                Some(c) => {
                    &&& r.0 == Some(c)
                    &&& r.1@.len() == 0
                    &&& final(self).stage() == Stage::AwaitDevice
                    &&& final(self).failure() == old(self).failure()
                    &&& final(self).expected_size() == old(self).expected_size()
                    &&& final(self).expected_sha256() == old(self).expected_sha256()
                    &&& final(self).bytes_written() == old(self).bytes_written()
                },
                None => {
                    &&& r.0 is None
                    &&& final(self).stage() == Stage::Done
                    &&& r.1@.len() == 1
                    &&& final(self).failure() matches Some(TransferError::SourceUnavailable(m))
                        && m@ == ZIP_UNSUPPORTED@
                    &&& reports(r.1@[0], final(self).failure().unwrap())
                },
            },
            old(self).stage() != Stage::AwaitSource ==> {
                &&& r.0 is None
                &&& r.1@.len() == 0
                &&& *final(self) == *old(self)
            },
    {
        if self.stage != Stage::AwaitSource {
            let out: Vec<TransferEvent> = Vec::new();
            proof {
                assert(self.log@ + out@ =~= self.log@);
            }
            return (None, out);
        }
        match compression_for_path(path) {
            Ok(c) => {
                let out: Vec<TransferEvent> = Vec::new();
                self.stage = Stage::AwaitDevice;
                proof {
                    assert(self.log@ + out@ =~= self.log@);
                }
                (Some(c), out)
            },
            Err(e) => {
                let out = self.fail(e);
                (None, out)
            },
        }
    }

    /// The device is open for reading and writing: the write loop starts.
    pub fn device_opened(&mut self, now_ms: u64)
        requires
            old(self).wf(),
        ensures
            final(self).wf(),
            final(self).events() == old(self).events(),
            old(self).stage() == Stage::AwaitDevice ==> {
                &&& final(self).stage() == Stage::Writing
                &&& final(self).bytes_written() == 0
                &&& final(self).last_report_ms() == now_ms
                &&& final(self).failure() == old(self).failure()
                &&& final(self).expected_size() == old(self).expected_size()
                &&& final(self).expected_sha256() == old(self).expected_sha256()
            },
            old(self).stage() != Stage::AwaitDevice ==> *final(self) == *old(self),
    {
        if self.stage == Stage::AwaitDevice {
            self.stage = Stage::Writing;
            self.written = 0;
            self.verified = 0;
            self.last_report_ms = now_ms;
        }
    }

    /// `n` more decoded bytes reached the device at time `now_ms`: counts
    /// them and reports progress when the last report is more than the
    /// interval old.
    pub fn chunk_written(&mut self, n: u64, now_ms: u64) -> (r: Vec<TransferEvent>)
        requires
            old(self).wf(),
        ensures
            final(self).wf(),
            final(self).events() == old(self).events() + r@,
            old(self).stage() == Stage::Writing ==> if old(self).bytes_written() + n > u64::MAX {
                &&& final(self).stage() == Stage::Done
                &&& r@.len() == 1
                &&& final(self).failure() matches Some(TransferError::SourceUnavailable(m))
                    && m@ == TOO_LARGE@
                &&& reports(r@[0], final(self).failure().unwrap())
            } else {
                &&& final(self).stage() == Stage::Writing
                &&& final(self).bytes_written() == old(self).bytes_written() + n
                &&& final(self).failure() == old(self).failure()
                &&& final(self).expected_size() == old(self).expected_size()
                &&& final(self).expected_sha256() == old(self).expected_sha256()
                &&& if report_due(old(self).last_report_ms(), now_ms) {
                    &&& r@ == seq![
                        TransferEvent::Progress(
                            progress_of(final(self).bytes_written() as u64, old(self).expected_size()),
                        ),
                    ]
                    &&& final(self).last_report_ms() == now_ms
                } else {
                    &&& r@.len() == 0
                    &&& final(self).last_report_ms() == old(self).last_report_ms()
                }
            },
            old(self).stage() != Stage::Writing ==> r@.len() == 0 && *final(self) == *old(self),
    {
        let mut out: Vec<TransferEvent> = Vec::new();
        if self.stage != Stage::Writing {
            proof {
                assert(self.log@ + out@ =~= self.log@);
            }
            return out;
        }
        if n > u64::MAX - self.written {
            return self.fail(TransferError::SourceUnavailable(String::from_str(TOO_LARGE)));
        }
        self.written = self.written + n;
        if now_ms >= self.last_report_ms && now_ms - self.last_report_ms > PROGRESS_INTERVAL_MS {
            let p = self.measure(self.written);
            out.push(TransferEvent::Progress(p));
            self.last_report_ms = now_ms;
        }
        let ghost old_log = self.log@;
        self.log = Ghost(self.log@ + out@);
        proof {
            assert forall|i: int| 0 <= i < self.log@.len() implies #[trigger] is_write_event(
                self.log@[i],
            ) by {
                if i < old_log.len() {
                    assert(self.log@[i] == old_log[i]);
                }
            }
        }
        out
    }

    /// The decoded stream ended, every byte is flushed and synced, and the
    /// source hashed to `digest`. Enters the verify phase; when an expected
    /// hash was given and differs (case aside), the transfer ends with an
    /// integrity error, unretried.
    pub fn write_complete(&mut self, digest: Vec<u8>, now_ms: u64) -> (r: Vec<TransferEvent>)
        requires
            old(self).wf(),
        ensures
            final(self).wf(),
            final(self).events() == old(self).events() + r@,
            old(self).stage() == Stage::Writing ==> {
                &&& r@.len() == 3
                &&& r@[0] == TransferEvent::Phase(WritingPhase::Verifying)
                &&& r@[1] matches TransferEvent::Status(m) && m@ == VERIFYING_DOWNLOAD@
                &&& match old(self).expected_sha256() {
                    Some(e) if !hash_matches(e, hex_of(digest@)) => {
                        &&& final(self).stage() == Stage::Done
                        &&& final(self).failure() matches Some(TransferError::IntegrityError(m))
                            && m@ == DOWNLOAD_MISMATCH@ + e + CALCULATED@ + hex_of(digest@)
                        &&& reports(r@[2], final(self).failure().unwrap())
                    },
                    _ => {
                        &&& final(self).stage() == Stage::Verifying
                        &&& r@[2] matches TransferEvent::Status(m) && m@ == READING_BACK@
                        &&& final(self).source_digest() == digest@
                        &&& final(self).bytes_written() == old(self).bytes_written()
                        &&& final(self).bytes_verified() == 0
                        &&& final(self).last_report_ms() == now_ms
                        &&& final(self).failure() == old(self).failure()
                        &&& final(self).expected_size() == old(self).expected_size()
                        &&& final(self).expected_sha256() == old(self).expected_sha256()
                    },
                }
            },
            old(self).stage() != Stage::Writing ==> r@.len() == 0 && *final(self) == *old(self),
    {
        let mut out: Vec<TransferEvent> = Vec::new();
        if self.stage != Stage::Writing {
            proof {
                assert(self.log@ + out@ =~= self.log@);
            }
            return out;
        }
        let ghost old_log = self.log@;
        out.push(TransferEvent::Phase(WritingPhase::Verifying));
        out.push(TransferEvent::Status(String::from_str(VERIFYING_DOWNLOAD)));
        self.stage = Stage::Verifying;
        self.verified = 0;
        self.last_report_ms = now_ms;
        self.verify_at = Ghost(old_log.len() as int);
        self.log = Ghost(old_log + out@);
        proof {
            assert(self.log@[old_log.len() as int] == TransferEvent::Phase(WritingPhase::Verifying));
            assert forall|i: int| 0 <= i < old_log.len() implies #[trigger] is_write_event(
                self.log@[i],
            ) by {
                assert(self.log@[i] == old_log[i]);
            }
            assert(is_verify_event(self.log@[old_log.len() as int + 1]));
        }
        let hex = hex_encode(digest.as_slice());
        let mismatch = match &self.expected_sha256 {
            Some(e) => !hash_text_matches(e.as_str(), hex.as_str()),
            None => false,
        };
        if mismatch {
            let mut msg = String::from_str(DOWNLOAD_MISMATCH);
            match &self.expected_sha256 {
                Some(e) => push_str(&mut msg, e.as_str()),
                None => {},
            }
            push_str(&mut msg, CALCULATED);
            push_str(&mut msg, hex.as_str());
            let mut tail = self.fail(TransferError::IntegrityError(msg));
            out.append(&mut tail);
            proof {
                assert(self.log@ =~= old_log + out@);
            }
            return out;
        }
        let ghost mid_log = self.log@;
        let mut tail: Vec<TransferEvent> = Vec::new();
        tail.push(TransferEvent::Status(String::from_str(READING_BACK)));
        self.source_digest = digest;
        self.log = Ghost(mid_log + tail@);
        proof {
            assert forall|i: int| 0 <= i < self.verify_at@ implies #[trigger] is_write_event(
                self.log@[i],
            ) by {
                assert(self.log@[i] == mid_log[i]);
            }
            assert forall|i: int| self.verify_at@ < i < self.log@.len() implies #[trigger] is_verify_event(
                self.log@[i],
            ) by {
                if i < mid_log.len() {
                    assert(self.log@[i] == mid_log[i]);
                }
            }
        }
        out.append(&mut tail);
        proof {
            assert(self.log@ =~= old_log + out@);
        }
        out
    }

    /// How many bytes to read back next: a chunk, or what is left of the
    /// written length if that is less; 0 outside the verify phase.
    pub fn next_read_len(&self) -> (r: usize)
        requires
            self.wf(),
        ensures
            self.stage() == Stage::Verifying ==> r as int == if self.bytes_written()
                - self.bytes_verified() < CHUNK_SIZE {
                self.bytes_written() - self.bytes_verified()
            } else {
                CHUNK_SIZE as int
            },
            self.stage() != Stage::Verifying ==> r == 0,
    {
        if self.stage != Stage::Verifying {
            return 0;
        }
        let remaining = self.written - self.verified;
        if remaining < CHUNK_SIZE as u64 {
            remaining as usize
        } else {
            CHUNK_SIZE
        }
    }

    /// `n` bytes were read back from the device at time `now_ms`. A read of
    /// nothing before the written length is reached, or one past it, ends
    /// the transfer with a verification error.
    pub fn chunk_read(&mut self, n: u64, now_ms: u64) -> (r: Vec<TransferEvent>)
        requires
            old(self).wf(),
        ensures
            final(self).wf(),
            final(self).events() == old(self).events() + r@,
            old(self).stage() == Stage::Verifying ==> if n == 0 || n > old(self).bytes_written()
                - old(self).bytes_verified() {
                &&& final(self).stage() == Stage::Done
                &&& r@.len() == 1
                &&& final(self).failure() matches Some(TransferError::WriteVerificationError(m))
                    && m@ == (if n == 0 {
                    UNEXPECTED_EOF@
                } else {
                    READ_TOO_LONG@
                })
                &&& reports(r@[0], final(self).failure().unwrap())
            } else {
                &&& final(self).stage() == Stage::Verifying
                &&& final(self).bytes_verified() == old(self).bytes_verified() + n
                &&& final(self).bytes_written() == old(self).bytes_written()
                &&& final(self).source_digest() == old(self).source_digest()
                &&& final(self).failure() == old(self).failure()
                &&& final(self).expected_size() == old(self).expected_size()
                &&& final(self).expected_sha256() == old(self).expected_sha256()
                &&& if report_due(old(self).last_report_ms(), now_ms) {
                    &&& r@ == seq![
                        TransferEvent::VerifyProgress(
                            progress_of(final(self).bytes_verified() as u64, old(self).expected_size()),
                        ),
                    ]
                    &&& final(self).last_report_ms() == now_ms
                } else {
                    &&& r@.len() == 0
                    &&& final(self).last_report_ms() == old(self).last_report_ms()
                }
            },
            old(self).stage() != Stage::Verifying ==> r@.len() == 0 && *final(self) == *old(self),
    {
        let mut out: Vec<TransferEvent> = Vec::new();
        if self.stage != Stage::Verifying {
            proof {
                assert(self.log@ + out@ =~= self.log@);
            }
            return out;
        }
        if n == 0 {
            return self.fail(
                TransferError::WriteVerificationError(String::from_str(UNEXPECTED_EOF)),
            );
        }
        if n > self.written - self.verified {
            return self.fail(
                TransferError::WriteVerificationError(String::from_str(READ_TOO_LONG)),
            );
        }
        self.verified = self.verified + n;
        if now_ms >= self.last_report_ms && now_ms - self.last_report_ms > PROGRESS_INTERVAL_MS {
            let p = self.measure(self.verified);
            out.push(TransferEvent::VerifyProgress(p));
            self.last_report_ms = now_ms;
        }
        let ghost old_log = self.log@;
        self.log = Ghost(self.log@ + out@);
        proof {
            assert forall|i: int| 0 <= i < self.verify_at@ implies #[trigger] is_write_event(
                self.log@[i],
            ) by {
                assert(self.log@[i] == old_log[i]);
            }
            assert forall|i: int| self.verify_at@ < i < self.log@.len() implies #[trigger] is_verify_event(
                self.log@[i],
            ) by {
                if i < old_log.len() {
                    assert(self.log@[i] == old_log[i]);
                }
            }
            assert(self.log@[self.verify_at@] == old_log[self.verify_at@]);
        }
        out
    }

    /// Every written byte was read back and hashed to `digest`: the transfer
    /// finishes when that equals the source digest, and fails otherwise.
    pub fn verify_complete(&mut self, digest: Vec<u8>) -> (r: Vec<TransferEvent>)
        requires
            old(self).wf(),
        ensures
            final(self).wf(),
            final(self).events() == old(self).events() + r@,
            old(self).stage() == Stage::Verifying ==> {
                &&& final(self).stage() == Stage::Done
                &&& r@.len() == 1
                &&& if old(self).bytes_verified() < old(self).bytes_written() {
                    &&& final(self).failure() matches Some(
                        TransferError::WriteVerificationError(m),
                    ) && m@ == VERIFY_INCOMPLETE@
                    &&& reports(r@[0], final(self).failure().unwrap())
                } else if digest@ == old(self).source_digest() {
                    &&& r@[0] == TransferEvent::Finished
                    &&& final(self).failure() == old(self).failure()
                } else {
                    &&& final(self).failure() matches Some(
                        TransferError::WriteVerificationError(m),
                    ) && m@ == WRITE_MISMATCH@ + hex_of(old(self).source_digest()) + ON_DISK@
                        + hex_of(digest@)
                    &&& reports(r@[0], final(self).failure().unwrap())
                }
            },
            old(self).stage() != Stage::Verifying ==> r@.len() == 0 && *final(self) == *old(self),
    {
        let mut out: Vec<TransferEvent> = Vec::new();
        if self.stage != Stage::Verifying {
            proof {
                assert(self.log@ + out@ =~= self.log@);
            }
            return out;
        }
        if self.verified < self.written {
            return self.fail(
                TransferError::WriteVerificationError(String::from_str(VERIFY_INCOMPLETE)),
            );
        }
        if !digests_equal(self.source_digest.as_slice(), digest.as_slice()) {
            let mut msg = String::from_str(WRITE_MISMATCH);
            let src = hex_encode(self.source_digest.as_slice());
            let disk = hex_encode(digest.as_slice());
            push_str(&mut msg, src.as_str());
            push_str(&mut msg, ON_DISK);
            push_str(&mut msg, disk.as_str());
            return self.fail(TransferError::WriteVerificationError(msg));
        }
        let ghost old_log = self.log@;
        out.push(TransferEvent::Finished);
        self.stage = Stage::Done;
        self.log = Ghost(self.log@ + out@);
        proof {
            assert(self.log@.drop_last() =~= old_log);
        }
        out
    }

    /// The events of a transfer are in order: a terminal event comes only
    /// last and, once the transfer is over, exactly once; `Phase(Verifying)`
    /// comes at most once, after every `Progress` and `Phase(Writing)` event
    /// and before every `VerifyProgress` event; a finished transfer went
    /// through it. No progress event shows the full hundred percent.
    pub proof fn lemma_event_order(&self)
        requires
            self.wf(),
        ensures
            forall|i: int|
                0 <= i < self.events().len() - 1 ==> !is_terminal(#[trigger] self.events()[i]),
            self.stage() == Stage::Done <==> (self.events().len() > 0 && is_terminal(
                self.events().last(),
            )),
            forall|i: int, j: int|
                0 <= i < self.events().len() && 0 <= j < self.events().len() && is_verify_phase(
                    #[trigger] self.events()[i],
                ) && is_verify_phase(#[trigger] self.events()[j]) ==> i == j,
            forall|i: int, j: int|
                0 <= i < self.events().len() && 0 <= j < self.events().len() && is_write_only(
                    #[trigger] self.events()[i],
                ) && is_verify_phase(#[trigger] self.events()[j]) ==> i < j,
            forall|j: int|
                0 <= j < self.events().len() && #[trigger] self.events()[j] is VerifyProgress
                    ==> exists|i: int| 0 <= i < j && is_verify_phase(#[trigger] self.events()[i]),
            self.events().len() > 0 && self.events().last() is Finished ==> exists|i: int|
                0 <= i < self.events().len() && is_verify_phase(#[trigger] self.events()[i]),
            forall|i: int| 0 <= i < self.events().len() ==> below_full(#[trigger] self.events()[i]),
    {
        let log = self.log@;
        let k = self.verify_at@;
        let done = self.stage == Stage::Done;
        let body = if done {
            log.drop_last()
        } else {
            log
        };
        assert forall|i: int| 0 <= i < body.len() implies #[trigger] body[i] == log[i] by {}
        let shaped = k >= 0 && (self.stage == Stage::Verifying || done);
        if shaped {
            assert(verify_shape(body, k));
            assert(log[k] == body[k]);
        } else {
            assert(all_write(body));
        }
        // Every event of the body is a write event, the verify phase, or a
        // verify event; none of them is terminal.
        assert forall|i: int| 0 <= i < body.len() implies !is_terminal(#[trigger] log[i]) by {
            assert(body[i] == log[i]);
            if shaped {
                if i < k {
                    assert(is_write_event(body[i]));
                } else if i > k {
                    assert(is_verify_event(body[i]));
                }
            } else {
                assert(is_write_event(body[i]));
            }
        }
        if !done && log.len() > 0 {
            assert(!is_terminal(log[log.len() - 1]));
        }
        assert forall|i: int, j: int|
            0 <= i < log.len() && 0 <= j < log.len() && is_verify_phase(#[trigger] log[i])
                && is_verify_phase(#[trigger] log[j]) implies i == j by {
            if done {
                assert(!is_verify_phase(log[log.len() - 1]));
            }
            assert(body[i] == log[i] && body[j] == log[j]);
            if shaped {
                if i != k {
                    assert(is_write_event(body[i]) || is_verify_event(body[i]));
                }
                if j != k {
                    assert(is_write_event(body[j]) || is_verify_event(body[j]));
                }
            } else {
                assert(is_write_event(body[i]));
            }
        }
        assert forall|i: int, j: int|
            0 <= i < log.len() && 0 <= j < log.len() && is_write_only(#[trigger] log[i])
                && is_verify_phase(#[trigger] log[j]) implies i < j by {
            if done {
                assert(!is_verify_phase(log[log.len() - 1]));
                assert(!is_write_only(log[log.len() - 1]));
            }
            assert(body[i] == log[i] && body[j] == log[j]);
            if shaped {
                if j != k {
                    assert(is_write_event(body[j]) || is_verify_event(body[j]));
                }
                if i > k {
                    assert(is_verify_event(body[i]));
                }
            } else {
                assert(is_write_event(body[j]));
            }
        }
        assert forall|j: int| 0 <= j < log.len() && #[trigger] log[j] is VerifyProgress implies exists|
            i: int,
        | 0 <= i < j && is_verify_phase(#[trigger] log[i]) by {
            if done {
                assert(!(log[log.len() - 1] is VerifyProgress));
            }
            assert(body[j] == log[j]);
            if shaped {
                if j < k {
                    assert(is_write_event(body[j]));
                }
                assert(is_verify_phase(log[k]));
            } else {
                assert(is_write_event(body[j]));
            }
        }
        if log.len() > 0 && log.last() is Finished {
            assert(done);
            assert(is_verify_phase(log[k]));
        }
    }

    /// Progress of `done` bytes, against the expected size when known.
    fn measure(&self, done: u64) -> (r: ProgressMeasure)
        ensures
            r == progress_of(done, self.expected_size),
    {
        if self.expected_size > 0 {
            ProgressMeasure::Percent(progress_hundredths(done, self.expected_size))
        } else {
            ProgressMeasure::Bytes(done)
        }
    }
}

/// Whether a progress report is due at `now`, the last one made at `last`.
pub open spec fn report_due(last: u64, now: u64) -> bool {
    now >= last && now - last > PROGRESS_INTERVAL_MS
}

/// Progress of `done` bytes when `expected` bytes are expected (0: unknown).
pub open spec fn progress_of(done: u64, expected: u64) -> ProgressMeasure {
    if expected > 0 {
        ProgressMeasure::Percent(capped_percent(done as int, expected as int) as u64)
    } else {
        ProgressMeasure::Bytes(done)
    }
}

} // verus!
