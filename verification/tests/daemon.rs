use sayit::config::{Config, Mode};
use sayit::daemon::{
    decide, engine_plan, hotkey_from_setting, idle_unload_secs, key_edge, max_take_nanos,
    paste_text, Controls, Decision, Edge, EnginePlan, KeyState, Reporter, Status, MIN_HOLD_NANOS,
};
use sayit::stt::ModelId;

const SEC: u64 = 1_000_000_000;

#[test]
fn reporter_reports_changes_once() {
    let mut r = Reporter::new();
    assert_eq!(r.update(true, 0), Some(Status::Recording));
    assert_eq!(r.update(true, 0), None);
    // Recording wins over transcribing.
    assert_eq!(r.update(true, 2), None);
    assert_eq!(r.queue_take(), Some(Status::Transcribing));
    assert_eq!(r.pending, 3);
    assert_eq!(r.finish_take(), None);
    assert_eq!(r.finish_take(), None);
    assert_eq!(r.finish_take(), Some(Status::Idle));
    assert_eq!(r.finish_take(), None);
    assert_eq!(r.pending, 0);
}

#[test]
fn hold_and_toggle_edges() {
    assert_eq!(key_edge(Mode::Hold, KeyState::Pressed, false), Some(Edge::Start));
    assert_eq!(key_edge(Mode::Hold, KeyState::Pressed, true), None);
    assert_eq!(key_edge(Mode::Hold, KeyState::Released, true), Some(Edge::Stop));
    assert_eq!(key_edge(Mode::Hold, KeyState::Released, false), None);
    assert_eq!(key_edge(Mode::Toggle, KeyState::Pressed, false), Some(Edge::Start));
    assert_eq!(key_edge(Mode::Toggle, KeyState::Pressed, true), Some(Edge::Stop));
    assert_eq!(key_edge(Mode::Toggle, KeyState::Released, true), None);
}

#[test]
fn controller_decisions() {
    let max = max_take_nanos(300);
    assert_eq!(max, 300 * SEC);
    let hold = Mode::Hold;
    assert_eq!(decide(hold, max, false, None, Some(KeyState::Pressed)), Decision::StartTake);
    assert_eq!(decide(hold, max, false, Some(SEC), Some(KeyState::Released)), Decision::Transcribe);
    // Accidental taps are thrown away.
    assert_eq!(
        decide(hold, max, false, Some(MIN_HOLD_NANOS - 1), Some(KeyState::Released)),
        Decision::Discard
    );
    assert_eq!(
        decide(Mode::Toggle, max, false, Some(1), Some(KeyState::Pressed)),
        Decision::Transcribe
    );
    // Paused: the hotkey is ignored and a take in progress discarded.
    assert_eq!(decide(hold, max, true, None, Some(KeyState::Pressed)), Decision::Wait);
    assert_eq!(decide(hold, max, true, Some(SEC), None), Decision::Discard);
    // Too long: cut off.
    assert_eq!(decide(hold, max, false, Some(max + 1), None), Decision::CutOff);
    assert_eq!(decide(hold, max, false, Some(max), None), Decision::Wait);
}

#[test]
fn take_limit_is_clamped() {
    assert_eq!(max_take_nanos(0), SEC);
    assert_eq!(max_take_nanos(99_999), 3600 * SEC);
    assert_eq!(max_take_nanos(u64::MAX), 3600 * SEC);
}

#[test]
fn idle_unloading() {
    assert_eq!(idle_unload_secs(0), None);
    assert_eq!(idle_unload_secs(10), Some(600));
}

#[test]
fn engine_plans() {
    let m = ModelId::ParakeetV2;
    assert_eq!(engine_plan(None, m), EnginePlan::Load);
    assert_eq!(engine_plan(Some(m), m), EnginePlan::Keep);
}

#[test]
fn pasted_text() {
    assert_eq!(paste_text("Um, hello there.", true, true).as_deref(), Some("Hello there.\n"));
    assert_eq!(paste_text("Um, hello there.", false, false).as_deref(), Some("Um, hello there. "));
    assert_eq!(paste_text("uh, um.", true, true), None);
    assert_eq!(paste_text("", false, true), None);
}

#[test]
fn controls_start_from_config() {
    let mut cfg = Config::default();
    cfg.input_device = Some("USB Mic".to_string());
    cfg.remove_fillers = false;
    let c = Controls::new(&cfg);
    assert!(!c.paused);
    assert_eq!(c.input_device(), Some("USB Mic".to_string()));
    assert_eq!(c.model(), ModelId::DEFAULT);
    assert!(!c.remove_fillers);
    assert!(c.newline_after_take);
    assert!(c.restore_clipboard);
}

#[test]
fn hotkey_settings() {
    assert!(hotkey_from_setting("OptRight").is_ok());
    assert!(hotkey_from_setting("Ctrl+Alt+Space").is_ok());
    let e = hotkey_from_setting("").unwrap_err();
    assert!(e.starts_with("invalid hotkey \"\": "), "{e}");
    let e = hotkey_from_setting("NoSuchKey").unwrap_err();
    assert!(e.starts_with("invalid hotkey \"NoSuchKey\": "), "{e}");
}

#[test]
fn finishing_a_take_undoes_queueing_it() {
    let mut r = Reporter::new();
    r.update(false, 4);
    r.queue_take();
    assert_eq!(r.pending, 5);
    assert_eq!(r.last, Status::Transcribing);
    r.finish_take();
    assert_eq!(r.pending, 4);
    assert!(!r.recording);
    assert_eq!(r.last, Status::Transcribing);
}

#[test]
fn setting_names_its_hotkey() {
    for s in ["OptRight", "Fn", "Ctrl+Alt+Space"] {
        let expected: handy_keys::Hotkey = s.parse().unwrap();
        assert_eq!(hotkey_from_setting(s).unwrap(), expected, "{s}");
    }
    assert_ne!(hotkey_from_setting("OptRight").unwrap(), hotkey_from_setting("Fn").unwrap());
}

#[test]
fn reports_never_repeat_and_end_at_the_state() {
    let ups = [(false, 0), (true, 0), (true, 1), (false, 1), (false, 2), (false, 0), (false, 0)];
    let mut r = Reporter::new();
    let mut heard = Vec::new();
    for (rec, pending) in ups {
        if let Some(s) = r.update(rec, pending) {
            heard.push(s);
        }
    }
    assert_eq!(heard, vec![Status::Recording, Status::Transcribing, Status::Idle]);
    assert_eq!(r.last, Status::Idle);
}
