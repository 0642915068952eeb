use sayit::config::{Config, Mode, OnClose};
use sayit::stt::ModelId;

#[test]
fn defaults_match_a_fresh_install() {
    let c = Config::default();
    assert_eq!(c.hotkey, "OptRight");
    assert_eq!(c.mode, Mode::Hold);
    assert_eq!(c.model, ModelId::DEFAULT);
    assert!(c.restore_clipboard);
    assert!(c.remove_fillers);
    assert!(c.newline_after_take);
    assert_eq!(c.unload_after_idle_mins, 0);
    assert_eq!(c.max_recording_secs, 300);
    assert_eq!(c.input_device, None);
    assert!(!c.setup_complete);
    assert_eq!(c.on_close, OnClose::MenuBar);
    assert_eq!(OnClose::default(), OnClose::MenuBar);
}
