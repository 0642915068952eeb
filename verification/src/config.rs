//! User settings, as stored in config.toml.

use vstd::prelude::*;

use crate::stt::{default_model, ModelId};

verus! {

#[derive(Debug, Clone, Copy, PartialEq, Eq, Structural)]
pub enum Mode {
    /// Hold the hotkey while speaking, release to transcribe.
    Hold,
    /// Press once to start, press again to stop.
    Toggle,
}

/// What closing the Settings window does. The menu-bar icon stays in every
/// case except `Quit`.
#[derive(Debug, Clone, Copy, PartialEq, Eq, Structural)]
pub enum OnClose {
    /// Keep running in the menu bar only.
    MenuBar,
    /// Keep running, with a Dock icon as well.
    Dock,
    /// Quit sayit.
    Quit,
}

impl Default for OnClose {
    fn default() -> (r: OnClose)
        ensures
            r == OnClose::MenuBar,
    {
        OnClose::MenuBar
    }
}

#[derive(Debug, Clone)]
pub struct Config {
    /// e.g. "OptRight", "Fn", "Ctrl+Alt+Space".
    pub hotkey: String,
    pub mode: Mode,
    /// Speech model.
    pub model: ModelId,
    /// Put the previous clipboard contents back after pasting.
    pub restore_clipboard: bool,
    /// Drop hesitation sounds ("um", "uh", "erm") from transcripts.
    pub remove_fillers: bool,
    /// End each take with a line break (otherwise a space).
    pub newline_after_take: bool,
    /// Free the model's ~1 GB of RAM after this many idle minutes (0 = never).
    /// Reloading takes under a second.
    pub unload_after_idle_mins: u64,
    /// Recordings longer than this are cut off (protects memory).
    pub max_recording_secs: u64,
    /// Microphone name, e.g. "Built-in Microphone". Unset or not connected
    /// = system default. Bluetooth headset mics take ~1 s to start, which
    /// clips the first words.
    pub input_device: Option<String>,
    /// Set once the first-launch setup assistant has been finished.
    pub setup_complete: bool,
    /// "menu-bar", "dock" or "quit".
    pub on_close: OnClose,
}

/// The settings of a fresh install.
pub open spec fn is_default_config(c: Config) -> bool {
    &&& c.hotkey@ == "OptRight"@
    &&& c.mode == Mode::Hold
    &&& c.model == default_model()
    &&& c.restore_clipboard
    &&& c.remove_fillers
    &&& c.newline_after_take
    &&& c.unload_after_idle_mins == 0
    &&& c.max_recording_secs == 300
    &&& c.input_device is None
    &&& !c.setup_complete
    &&& c.on_close == OnClose::MenuBar
}

impl Default for Config {
    fn default() -> (r: Config)
        ensures
            is_default_config(r),
    {
        Config {
            hotkey: String::from_str("OptRight"),
            mode: Mode::Hold,
            model: ModelId::DEFAULT,
            restore_clipboard: true,
            remove_fillers: true,
            newline_after_take: true,
            unload_after_idle_mins: 0,
            max_recording_secs: 300,
            input_device: None,
            setup_complete: false,
            on_close: OnClose::MenuBar,
        }
    }
}

} // verus!
