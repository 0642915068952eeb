use sayit::config::Config;
use sayit::daemon::{Controls, Status};
use sayit::models::Finished;
use sayit::stt::ModelId;
use sayit::ui::{
    accessibility, after_download, card_view, download_click, hotkey_name, login_status,
    badge_title, card_status_line, may_delete, mic_menu, microphone_access,
    microphone_opens_settings, model_menu, picker_menus,
    privacy_pane_url, run, setup_back, setup_nav, setup_next, setup_ready, status_view, Access,
    AfterDownload, Badge, CardStatus, DownloadClick, Login, MenuEntry, Toggle, UiState,
    DEFAULT_MIC_TAG,
};

#[test]
fn hotkey_names() {
    assert_eq!(hotkey_name("OptRight"), "Right Option");
    assert_eq!(hotkey_name("CmdLeft"), "Left Command");
    assert_eq!(hotkey_name("CtrlRight"), "Right Control");
    assert_eq!(hotkey_name("ShiftRight"), "Right Shift");
    assert_eq!(hotkey_name("Fn"), "Fn");
    assert_eq!(hotkey_name("Ctrl+Alt+Space"), "Ctrl + Alt + Space");
}

#[test]
fn status_lines() {
    let v = status_view(UiState::Ready(Status::Idle), false, true, "Right Option", "");
    assert_eq!(v.symbol, "mic");
    assert_eq!(v.text, "Ready: hold Right Option to dictate");
    assert_eq!(v.tooltip, "sayit: Ready: hold Right Option to dictate");
    assert!(!v.fix_permissions);
    let v = status_view(UiState::Ready(Status::Recording), true, true, "x", "");
    assert_eq!((v.symbol, v.text.as_str()), ("mic.slash", "Paused"));
    let v = status_view(UiState::Ready(Status::Transcribing), false, false, "x", "");
    assert_eq!(v.symbol, "exclamationmark.triangle");
    assert_eq!(v.text, "A permission is missing: choose Fix Permissions…");
    assert!(v.fix_permissions);
    let v = status_view(UiState::Failed, false, true, "x", "no mic");
    assert_eq!(v.text, "Stopped: no mic");
    let v = status_view(UiState::Loading, false, false, "x", "");
    assert_eq!((v.symbol, v.text.as_str()), ("hourglass", "Loading model…"));
}

fn titles(entries: &[MenuEntry]) -> Vec<(String, isize, bool, bool)> {
    entries
        .iter()
        .map(|e| match e {
            MenuEntry::Choice { title, tag, checked, enabled } => (title.clone(), *tag, *checked, *enabled),
            MenuEntry::Separator => ("-".to_string(), 0, false, false),
        })
        .collect()
}

#[test]
fn microphone_menu() {
    let names = vec!["Built-in Microphone".to_string(), "USB".to_string()];
    let m = titles(&mic_menu(&None, &names));
    assert_eq!(m.len(), 4);
    assert_eq!(m[0], ("System Default".to_string(), DEFAULT_MIC_TAG, true, true));
    assert_eq!(m[1].0, "-");
    assert_eq!(m[2], ("Built-in Microphone".to_string(), 0, false, true));
    let m = titles(&mic_menu(&Some("USB".to_string()), &names));
    assert_eq!(m.len(), 4);
    assert!(!m[0].2);
    assert_eq!(m[3], ("USB".to_string(), 0, true, true));
    let m = titles(&mic_menu(&Some("Headset".to_string()), &names));
    assert_eq!(m.len(), 5);
    assert_eq!(m[4], ("Headset (not connected)".to_string(), 0, true, false));
}

#[test]
fn model_menu_entries() {
    let m = titles(&model_menu(ModelId::ParakeetV2, &vec![true]));
    assert_eq!(m, vec![("Parakeet v2 (English)".to_string(), 0, true, true)]);
    let m = titles(&model_menu(ModelId::ParakeetV2, &vec![false]));
    assert_eq!(m, vec![("Parakeet v2 (English) (not downloaded)".to_string(), 0, true, false)]);
}

#[test]
fn toggles_reach_their_settings() {
    let mut cfg = Config::default();
    let mut controls = Controls::new(&cfg);
    for t in Toggle::all() {
        assert!(*t.flag(&mut controls));
        *t.flag(&mut controls) = false;
        *t.field(&mut cfg) = false;
    }
    assert!(!controls.remove_fillers && !controls.newline_after_take && !controls.restore_clipboard);
    assert!(!cfg.remove_fillers && !cfg.newline_after_take && !cfg.restore_clipboard);
    assert_eq!(Toggle::RemoveFillers.title(), "Remove filler words");
    assert!(Toggle::at(3).is_none());
    assert_eq!(Toggle::at(1), Some(Toggle::NewlineAfterTake));
}

#[test]
fn setup_assistant_pages() {
    let n = setup_nav(0);
    assert_eq!((n.index, n.step.as_str(), n.back_hidden, n.next_title), (0, "Step 1 of 3", true, "Continue"));
    let n = setup_nav(7);
    assert_eq!((n.index, n.step.as_str(), n.back_hidden, n.next_title), (2, "Step 3 of 3", false, "Finish"));
    assert!(!setup_ready(1, false));
    assert!(setup_ready(1, true));
    assert!(setup_ready(0, false));
    assert_eq!(setup_back(0), 0);
    assert_eq!(setup_back(2), 1);
    assert_eq!(setup_next(1), Some(2));
    assert_eq!(setup_next(2), None);
}

#[test]
fn model_cards() {
    let m = ModelId::ParakeetV2;
    let c = card_view(m, true, m, None, &None);
    assert_eq!(c.badge, Badge::InUse);
    assert!(matches!(c.status, CardStatus::Downloaded));
    assert!(c.download_hidden && c.choose_hidden && c.delete_hidden && c.progress_hidden);
    let c = card_view(m, false, m, Some((m, 42)), &None);
    assert_eq!(c.badge, Badge::Recommended);
    assert!(matches!(c.status, CardStatus::Downloading { percent: 42 }));
    assert_eq!(c.download_title, "Cancel");
    assert!(!c.download_hidden && c.download_enabled && !c.progress_hidden);
    let c = card_view(m, false, m, None, &Some((m, "offline".to_string())));
    assert!(matches!(c.status, CardStatus::Failed(ref e) if e == "offline"));
    assert_eq!(c.download_title, "Download");
}

#[test]
fn download_decisions() {
    let m = ModelId::ParakeetV2;
    assert_eq!(download_click(None, m), DownloadClick::Start);
    assert_eq!(download_click(Some(m), m), DownloadClick::Cancel);
    assert!(matches!(after_download(Finished::Installed, false), AfterDownload::UseModel));
    assert!(matches!(after_download(Finished::Installed, true), AfterDownload::Nothing));
    assert!(matches!(after_download(Finished::Cancelled, true), AfterDownload::RemovePartial));
    assert!(matches!(after_download(Finished::Failed("x".into()), true), AfterDownload::ShowError(ref e) if e == "x"));
    assert!(!may_delete(m, m));
}

#[test]
fn permissions_and_login() {
    assert_eq!(accessibility(true), Access::Allowed);
    assert_eq!(accessibility(false), Access::NotAsked);
    assert_eq!(microphone_access(3), Access::Allowed);
    assert_eq!(microphone_access(0), Access::NotAsked);
    assert_eq!(microphone_access(2), Access::Denied);
    assert!(microphone_opens_settings(Access::Denied));
    assert!(!microphone_opens_settings(Access::NotAsked));
    assert_eq!(login_status(None), Login::Unavailable);
    assert_eq!(login_status(Some(1)), Login::On);
    assert_eq!(login_status(Some(2)), Login::NeedsApproval);
    assert_eq!(login_status(Some(0)), Login::Off);
    assert_eq!(
        privacy_pane_url("Privacy_Microphone"),
        "x-apple.systempreferences:com.apple.preference.security?Privacy_Microphone"
    );
}

#[test]
fn menu_bar_app_is_not_available_here() {
    assert_eq!(
        run(Config::default(), false).unwrap_err(),
        "the menu-bar app is macOS-only for now; use `sayit run` on Linux"
    );
}

#[test]
fn model_menu_only_with_a_choice() {
    // One model in this build: only the Microphone picker.
    assert_eq!(ModelId::all().len(), 1);
    assert_eq!(picker_menus(), vec!["Microphone"]);
}

#[test]
fn card_lines() {
    assert_eq!(badge_title(Badge::InUse), "In use");
    assert_eq!(badge_title(Badge::Recommended), "Recommended");
    assert_eq!(badge_title(Badge::Plain), "");
    let bytes = ModelId::ParakeetV2.download_bytes();
    assert_eq!(
        card_status_line(&CardStatus::Downloading { percent: 42 }, bytes),
        "Downloading… 42% of 660 MB"
    );
    assert_eq!(card_status_line(&CardStatus::Failed("offline".to_string()), bytes), "Download failed: offline");
    assert_eq!(card_status_line(&CardStatus::Downloaded, bytes), "Downloaded · 660 MB");
    assert_eq!(card_status_line(&CardStatus::NotDownloaded, 1_999_999), "Not downloaded · 1 MB");
    assert_eq!(card_status_line(&CardStatus::Downloaded, 0), "Downloaded · 0 MB");
}
