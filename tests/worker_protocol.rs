use rpi_imager_tui::engine::{ProgressMeasure, TransferEvent};
use rpi_imager_tui::worker::{
    parse_worker_args, worker_args, ProtocolError, Relay, WorkerInvocation, WorkerSession, WorkerStage,
};

fn strings(v: &[&str]) -> Vec<String> {
    v.iter().map(|s| s.to_string()).collect()
}

#[test]
fn worker_reads_its_arguments() {
    let args = strings(&[
        "rpi-imager", "--worker", "--image", "https://h/os.img.xz", "--device", "/dev/sdb", "--size",
        "123456", "--sha256", "abcd", "--options", "e30=",
    ]);
    let inv = parse_worker_args(&args).unwrap();
    assert_eq!(inv.image_url, "https://h/os.img.xz");
    assert_eq!(inv.device_path, "/dev/sdb");
    assert_eq!(inv.expected_size, Some(123456));
    assert_eq!(inv.expected_sha256.as_deref(), Some("abcd"));
    assert_eq!(inv.options_blob, "e30=");
}

#[test]
fn missing_image_or_device_is_protocol_error() {
    assert_eq!(parse_worker_args(&strings(&["--device", "/dev/sdb"])).unwrap_err(), ProtocolError::MissingImage);
    assert_eq!(parse_worker_args(&strings(&["--image", "x.img"])).unwrap_err(), ProtocolError::MissingDevice);
    assert_eq!(parse_worker_args(&strings(&["--image"])).unwrap_err(), ProtocolError::MissingImage);
}

#[test]
fn malformed_size_is_protocol_error() {
    let args = strings(&["--image", "u", "--device", "d", "--size", "x"]);
    assert_eq!(parse_worker_args(&args).unwrap_err(), ProtocolError::BadSize);
    let args = strings(&["--image", "u", "--device", "d", "--size", "18446744073709551616"]);
    assert_eq!(parse_worker_args(&args).unwrap_err(), ProtocolError::BadSize);
    let args = strings(&["--image", "u", "--device", "d", "--size", "x", "--size", "5"]);
    assert_eq!(parse_worker_args(&args).unwrap_err(), ProtocolError::BadSize);
    let args = strings(&["--image", "u", "--size", "x"]);
    assert_eq!(parse_worker_args(&args).unwrap_err(), ProtocolError::MissingDevice);
}

#[test]
fn later_flags_win() {
    let args = strings(&["--image", "a", "--device", "d", "--image", "b", "--size", "1", "--size", "2"]);
    let inv = parse_worker_args(&args).unwrap();
    assert_eq!(inv.image_url, "b");
    assert_eq!(inv.expected_size, Some(2));
    let args = strings(&["--image", "a", "--device", "d", "--size", "18446744073709551615"]);
    assert_eq!(parse_worker_args(&args).unwrap().expected_size, Some(u64::MAX));
}

#[test]
fn malformed_options_blob_is_protocol_error() {
    let args = strings(&["--image", "u", "--device", "d", "--options", "not base64!"]);
    assert_eq!(parse_worker_args(&args).unwrap_err(), ProtocolError::BadOptions);
    let args = strings(&["--image", "u", "--device", "d", "--options", ""]);
    assert_eq!(parse_worker_args(&args).unwrap().settings_bytes(), None);
}

#[test]
fn invocation_round_trips_through_the_command_line() {
    let inv = WorkerInvocation::new("/dev/sdc", "https://h/os.img.gz", Some(4096), Some("ABCD"), b"{}");
    assert_eq!(inv.options_blob, "e30=");
    let args = worker_args(&inv);
    assert_eq!(args[0], "--worker");
    let back = parse_worker_args(&args).unwrap();
    assert_eq!(back.device_path, inv.device_path);
    assert_eq!(back.image_url, inv.image_url);
    assert_eq!(back.expected_size, Some(4096));
    assert_eq!(back.expected_sha256.as_deref(), Some("ABCD"));
    assert_eq!(back.settings_bytes().unwrap(), b"{}".to_vec());
    let bare = WorkerInvocation::new("/dev/sdc", "x.img", None, None, b"");
    let back = parse_worker_args(&worker_args(&bare)).unwrap();
    assert_eq!(back.expected_size, None);
    assert_eq!(back.expected_sha256, None);
    assert_eq!(back.settings_bytes(), None);
}

#[test]
fn invalid_blob_gives_no_settings() {
    let mut inv = WorkerInvocation::new("/dev/sdc", "x.img", None, None, b"x");
    inv.options_blob = "not base64!".to_string();
    assert_eq!(inv.settings_bytes(), None);
}

#[test]
fn malformed_line_between_two_progress_events_is_skipped() {
    let mut relay = Relay::new();
    let mut out = Vec::new();
    for line in [
        Some(TransferEvent::Progress(ProgressMeasure::Percent(1000))),
        None,
        Some(TransferEvent::Progress(ProgressMeasure::Percent(2000))),
    ] {
        if let Some(e) = relay.accept(line) {
            out.push(e);
        }
    }
    assert_eq!(out.len(), 2);
    assert!(matches!(out[0], TransferEvent::Progress(ProgressMeasure::Percent(1000))));
    assert!(matches!(out[1], TransferEvent::Progress(ProgressMeasure::Percent(2000))));
    assert!(!relay.is_closed());
    assert!(matches!(relay.worker_exited(), Some(TransferEvent::Error(_))));
}

#[test]
fn nothing_is_relayed_after_a_terminal_event() {
    let mut relay = Relay::new();
    assert!(relay.accept(Some(TransferEvent::Finished)).is_some());
    assert!(relay.is_closed());
    assert!(relay.accept(Some(TransferEvent::Status("late".to_string()))).is_none());
    assert!(relay.worker_exited().is_none());
}

#[test]
fn worker_holds_finished_until_installed() {
    let mut s = WorkerSession::new();
    assert!(s.on_transfer_event(TransferEvent::Status("x".to_string())).is_some());
    assert!(s.on_transfer_event(TransferEvent::Finished).is_none());
    assert_eq!(s.current_stage(), WorkerStage::Installing);
    assert!(s.on_transfer_lost().is_none());
    assert!(matches!(s.on_install(Ok(())), Some(TransferEvent::Finished)));
    assert_eq!(s.current_stage(), WorkerStage::Exited(0));
    assert!(s.on_install(Ok(())).is_none());
}

#[test]
fn install_failure_exits_nonzero_without_finished() {
    let mut s = WorkerSession::new();
    s.on_transfer_event(TransferEvent::Finished);
    match s.on_install(Err("Failed to mount boot partition".to_string())) {
        Some(TransferEvent::Error(m)) => assert_eq!(m, "Failed to mount boot partition"),
        other => panic!("unexpected {:?}", other),
    }
    assert_eq!(s.current_stage(), WorkerStage::Exited(1));
}

#[test]
fn transfer_error_ends_worker_before_install() {
    let mut s = WorkerSession::new();
    assert!(matches!(s.on_transfer_event(TransferEvent::Error("bad".to_string())), Some(TransferEvent::Error(_))));
    assert_eq!(s.current_stage(), WorkerStage::Exited(1));
    assert!(s.on_transfer_event(TransferEvent::Finished).is_none());
    assert!(s.on_install(Ok(())).is_none());
    assert_eq!(s.current_stage(), WorkerStage::Exited(1));
}

#[test]
fn lost_transfer_is_reported() {
    let mut s = WorkerSession::new();
    assert!(matches!(s.on_transfer_lost(), Some(TransferEvent::Error(_))));
    assert_eq!(s.current_stage(), WorkerStage::Exited(1));
}
