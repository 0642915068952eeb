use sayit::models::{belongs_to, finished, last_line, DownloadState, Exit, Finished};
use sayit::stt::ModelId;

#[test]
fn last_line_picks_last_nonblank_line() {
    assert_eq!(last_line("curl: (6) Could not resolve host\n  checksum mismatch  \n\n"), "checksum mismatch");
    assert_eq!(last_line("one\r\ntwo\r\n"), "two");
    assert_eq!(last_line(""), "download failed");
    assert_eq!(last_line(" \n\t\n"), "download failed");
}

#[test]
fn cancelled_download_is_reported_cancelled() {
    let r = finished(true, Exit::Status { success: true }, true, "");
    assert!(matches!(r, Finished::Cancelled));
}

#[test]
fn successful_download_with_model_is_installed() {
    let r = finished(false, Exit::Status { success: true }, true, "noise");
    assert!(matches!(r, Finished::Installed));
}

#[test]
fn failures_carry_their_reason() {
    match finished(false, Exit::Status { success: true }, false, "a\nvocab.txt missing\n") {
        Finished::Failed(m) => assert_eq!(m, "vocab.txt missing"),
        _ => panic!("expected a failure"),
    }
    match finished(false, Exit::Status { success: false }, true, "") {
        Finished::Failed(m) => assert_eq!(m, "download failed"),
        _ => panic!("expected a failure"),
    }
    match finished(false, Exit::WaitFailed("no child".to_string()), true, "x") {
        Finished::Failed(m) => assert_eq!(m, "no child"),
        _ => panic!("expected a failure"),
    }
}

#[test]
fn cancel_signals_only_while_running() {
    let mut st = DownloadState::new();
    assert!(st.cancel());
    assert!(st.cancelled);
    assert!(st.exit());
    assert!(!st.cancel());

    let mut st = DownloadState::new();
    assert!(!st.exit());
    assert!(!st.cancel());
    assert!(!st.cancelled);
}

#[test]
fn model_files_are_recognized_by_prefix() {
    let m = ModelId::ParakeetV2;
    assert!(belongs_to("parakeet-tdt-0.6b-v2-int8", m));
    assert!(belongs_to("parakeet-tdt-0.6b-v2-int8.part", m));
    assert!(!belongs_to("parakeet-tdt-0.6b-v3-int8", m));
    assert!(!belongs_to("parakeet", m));
}
