use sayit::audio::{device_index, frame_len, is_silent, speech_window, trim_span, TARGET_RATE};

#[test]
fn speech_window_keeps_a_margin() {
    let win = frame_len(TARGET_RATE);
    assert_eq!(win, 320);
    // Loud frames 50..=74 of a 120-frame clip: 10 frames kept on each side.
    assert_eq!(speech_window(50, 74, win, 120 * win), (40 * win, 85 * win));
    // Near the edges the window stops at the clip.
    assert_eq!(speech_window(3, 115, win, 120 * win - 7), (0, 120 * win - 7));
}

#[test]
fn under_200_ms_is_silent() {
    assert!(is_silent(3199));
    assert!(!is_silent(3200));
    assert!(is_silent(0));
}

#[test]
fn device_is_found_by_name() {
    let names = vec![
        Some("Built-in Microphone".to_string()),
        None,
        Some("USB Mic".to_string()),
        Some("USB Mic".to_string()),
    ];
    assert_eq!(device_index(&names, "USB Mic"), Some(2));
    assert_eq!(device_index(&names, "Built-in Microphone"), Some(0));
    assert_eq!(device_index(&names, "AirPods"), None);
    assert_eq!(device_index(&[].to_vec(), "USB Mic"), None);
}

#[test]
fn trimming_decisions() {
    let win = frame_len(TARGET_RATE);
    assert_eq!(win, 320);
    // Shorter than two frames: kept whole.
    assert_eq!(trim_span(639, win, None, None), (0, 639));
    // Nothing loud: dropped.
    assert_eq!(trim_span(16_000, win, None, None), (0, 0));
    // Speech in frames 20..=24 of 50: ten frames of margin on each side.
    assert_eq!(trim_span(16_000, win, Some(20), Some(24)), (10 * 320, 35 * 320));
    // Margins stop at the clip's ends.
    assert_eq!(trim_span(16_000, win, Some(3), Some(48)), (0, 16_000));
}
