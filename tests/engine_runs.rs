use rpi_imager_tui::engine::{
    device_open_message, ImageDescriptor, ProgressMeasure, Stage, TransferEngine, TransferEvent,
    WritingPhase,
};
use rpi_imager_tui::transfer::{Compression, TransferError};
use sha2::{Digest, Sha256};

fn digest(data: &[u8]) -> Vec<u8> {
    Sha256::digest(data).to_vec()
}

fn image(size: Option<u64>, sha: Option<&str>) -> ImageDescriptor {
    ImageDescriptor {
        url: "https://example.com/os.img.xz".to_string(),
        expected_decompressed_size: size,
        expected_sha256: sha.map(|s| s.to_string()),
    }
}

fn is_terminal(e: &TransferEvent) -> bool {
    matches!(e, TransferEvent::Finished | TransferEvent::Error(_))
}

/// Runs the engine over `data`, written in two chunks and read back as
/// `readback`; returns the engine and every event.
fn run(data: &[u8], readback: &[u8], size: Option<u64>, sha: Option<&str>) -> (TransferEngine, Vec<TransferEvent>) {
    let mut e = TransferEngine::new(&image(size, sha));
    let mut log = Vec::new();
    log.extend(e.begin());
    let (c, ev) = e.source_ready("/os.img.xz");
    assert_eq!(c, Some(Compression::Xz));
    log.extend(ev);
    e.device_opened(0);
    let half = data.len() / 2;
    log.extend(e.chunk_written(half as u64, 100));
    log.extend(e.chunk_written((data.len() - half) as u64, 700));
    log.extend(e.write_complete(digest(data), 800));
    if e.current_stage() == Stage::Verifying {
        let n = e.next_read_len();
        assert_eq!(n, data.len());
        log.extend(e.chunk_read(n as u64, 1400));
        log.extend(e.verify_complete(digest(readback)));
    }
    (e, log)
}

#[test]
fn successful_run_finishes_once_in_order() {
    let data = b"0123456789abcdef";
    let hex = hex::encode(digest(data));
    let (e, log) = run(data, data, Some(data.len() as u64), Some(&hex.to_uppercase()));
    assert!(e.is_done());
    assert!(e.outcome().is_none());
    assert!(matches!(log[0], TransferEvent::Progress(ProgressMeasure::Percent(0))));
    assert!(matches!(log[1], TransferEvent::Phase(WritingPhase::Writing)));
    assert!(matches!(log.last(), Some(TransferEvent::Finished)));
    assert_eq!(log.iter().filter(|e| is_terminal(e)).count(), 1);
    let verifying: Vec<usize> = log
        .iter()
        .enumerate()
        .filter(|(_, e)| matches!(e, TransferEvent::Phase(WritingPhase::Verifying)))
        .map(|(i, _)| i)
        .collect();
    assert_eq!(verifying.len(), 1);
    for (i, ev) in log.iter().enumerate() {
        if matches!(ev, TransferEvent::Progress(_)) {
            assert!(i < verifying[0]);
        }
        if matches!(ev, TransferEvent::VerifyProgress(_)) {
            assert!(i > verifying[0]);
        }
    }
    // Progress was reported once the interval had passed, and capped.
    assert!(log.iter().any(|e| matches!(e, TransferEvent::Progress(ProgressMeasure::Percent(9900)))));
    assert!(log.iter().any(|e| matches!(e, TransferEvent::VerifyProgress(ProgressMeasure::Percent(9900)))));
}

#[test]
fn unknown_size_reports_bytes() {
    let data = b"some bytes of an image";
    let (_, log) = run(data, data, None, None);
    assert!(log.iter().any(|e| matches!(e, TransferEvent::Progress(ProgressMeasure::Bytes(n)) if *n == data.len() as u64)));
    assert!(matches!(log.last(), Some(TransferEvent::Finished)));
}

#[test]
fn hash_mismatch_is_integrity_error_without_finish() {
    let data = b"0123456789abcdef";
    let wrong = "00".repeat(32);
    let (e, log) = run(data, data, Some(16), Some(&wrong));
    assert!(e.is_done());
    match e.outcome() {
        Some(TransferError::IntegrityError(m)) => {
            assert!(m.starts_with("Download verification failed!\nExpected: 0000"));
            assert!(m.ends_with(&hex::encode(digest(data))));
        }
        other => panic!("unexpected {:?}", other),
    }
    assert!(!log.iter().any(|e| matches!(e, TransferEvent::Finished)));
    assert!(matches!(log.last(), Some(TransferEvent::Error(_))));
    assert_eq!(log.iter().filter(|e| is_terminal(e)).count(), 1);
    let mut e = e;
    assert!(e.verify_complete(digest(data)).is_empty());
    assert!(e.fail(TransferError::SourceUnavailable("late".to_string())).is_empty());
}

#[test]
fn device_mismatch_is_write_verification_error() {
    let data = b"0123456789abcdef";
    let (e, log) = run(data, b"0123456789abcdeX", Some(16), None);
    match e.outcome() {
        Some(TransferError::WriteVerificationError(m)) => {
            assert!(m.contains("Source hash: "));
            assert!(m.contains(&hex::encode(digest(b"0123456789abcdeX"))));
        }
        other => panic!("unexpected {:?}", other),
    }
    assert!(!log.iter().any(|e| matches!(e, TransferEvent::Finished)));
}

#[test]
fn zip_source_fails_before_the_device() {
    let mut e = TransferEngine::new(&image(None, None));
    e.begin();
    let (c, ev) = e.source_ready("/images/os.zip");
    assert!(c.is_none());
    assert_eq!(ev.len(), 1);
    assert!(e.is_done());
    assert!(matches!(e.outcome(), Some(TransferError::SourceUnavailable(_))));
    e.device_opened(0);
    assert_eq!(e.current_stage(), Stage::Done);
    assert!(e.chunk_written(10, 1000).is_empty());
}

#[test]
fn device_failure_names_device_and_privileges() {
    let msg = device_open_message("/dev/sdz");
    assert_eq!(msg, "Failed to open device /dev/sdz. Ensure you are running with root privileges (sudo).");
    let mut e = TransferEngine::new(&image(None, None));
    e.begin();
    e.source_ready("/os.img");
    let ev = e.fail(TransferError::DeviceUnavailable(msg.clone()));
    assert!(matches!(&ev[0], TransferEvent::Error(m) if *m == msg));
}

#[test]
fn short_read_back_is_an_error() {
    let mut e = TransferEngine::new(&image(Some(10), None));
    e.begin();
    e.source_ready("/os.img");
    e.device_opened(0);
    e.chunk_written(10, 10);
    e.write_complete(digest(b"x"), 20);
    assert_eq!(e.next_read_len(), 10);
    let ev = e.chunk_read(0, 30);
    assert!(matches!(&ev[0], TransferEvent::Error(m) if m == "Unexpected EOF during verification"));
}

#[test]
fn progress_is_throttled() {
    let mut e = TransferEngine::new(&image(Some(1000), None));
    e.begin();
    e.source_ready("/os.img");
    e.device_opened(1000);
    assert!(e.chunk_written(100, 1200).is_empty());
    assert!(e.chunk_written(100, 1500).is_empty());
    let ev = e.chunk_written(100, 1501);
    assert!(matches!(ev[..], [TransferEvent::Progress(ProgressMeasure::Percent(3000))]));
    assert!(e.chunk_written(100, 1800).is_empty());
}
